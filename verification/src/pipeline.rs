//! Frame-level rules of the processing pipeline: sizing of a stereo frame and
//! of its interleaved output.

use vstd::prelude::*;

verus! {

/// Largest frame the pipeline accepts, in samples per channel.
pub const MAX_FRAME_SIZE: usize = 4096;

/// Length of the interleaved output that a frame of the given channel lengths
/// produces: twice the shorter channel, or zero when that size is zero or
/// exceeds `MAX_FRAME_SIZE` (silent degradation, never an error).
pub fn frame_output_len(left_len: usize, right_len: usize) -> (n: usize)
    ensures
        n == spec_frame_output_len(left_len as int, right_len as int),
{
    let frame_size: usize = if left_len < right_len {
        left_len
    } else {
        right_len
    };
    if frame_size == 0 || frame_size > MAX_FRAME_SIZE {
        0
    } else {
        2 * frame_size
    }
}

/// The interleaved output length as a mathematical function of the two
/// channel lengths.
pub open spec fn spec_frame_output_len(left_len: int, right_len: int) -> int {
    let frame_size = if left_len < right_len {
        left_len
    } else {
        right_len
    };
    if frame_size == 0 || frame_size > MAX_FRAME_SIZE {
        0
    } else {
        2 * frame_size
    }
}

/// Interleaves two equally long channels into `[L0, R0, L1, R1, ...]`.
pub fn interleave<T: Copy>(left: &Vec<T>, right: &Vec<T>) -> (out: Vec<T>)
    requires
        left@.len() == right@.len(),
        left@.len() <= usize::MAX / 2,
    ensures
        out@.len() == 2 * left@.len(),
        forall|i: int|
            0 <= i < left@.len() ==> #[trigger] out@[2 * i] == left@[i] && out@[2 * i + 1]
                == right@[i],
{
    let mut out: Vec<T> = Vec::new();
    let mut i: usize = 0;
    while i < left.len()
        invariant
            i <= left@.len(),
            left@.len() == right@.len(),
            left@.len() <= usize::MAX / 2,
            out@.len() == 2 * i,
            forall|j: int|
                0 <= j < i ==> #[trigger] out@[2 * j] == left@[j] && out@[2 * j + 1] == right@[j],
        decreases left@.len() - i,
    {
        out.push(left[i]);
        out.push(right[i]);
        proof {
            assert(out@[2 * (i as int)] == left@[i as int]);
            assert(out@[2 * (i as int) + 1] == right@[i as int]);
            assert(forall|j: int|
                0 <= j < i ==> #[trigger] out@[2 * j] == left@[j] && out@[2 * j + 1]
                    == right@[j]);
        }
        i = i + 1;
    }
    out
}

/// The sample rates the engine accepts at construction.
pub open spec fn valid_sample_rate(sample_rate: int) -> bool {
    8000 <= sample_rate <= 192000
}

/// The transform sizes the engine accepts at construction.
pub open spec fn valid_fft_size(fft_size: int) -> bool {
    ||| fft_size == 256
    ||| fft_size == 512
    ||| fft_size == 1024
    ||| fft_size == 2048
    ||| fft_size == 4096
}

/// The one fatal failure: construction with an invalid parameter.
#[derive(Debug, PartialEq, Eq, Structural, Clone, Copy)]
pub enum EngineError {
    InvalidSampleRate,
    InvalidFftSize,
}

/// Validated engine construction parameters.
#[derive(Debug, PartialEq, Eq, Structural, Clone, Copy)]
pub struct EngineConfig {
    pub sample_rate: u32,
    pub fft_size: usize,
}

impl EngineConfig {
    /// Both parameters are within their documented ranges.
    pub open spec fn wf(&self) -> bool {
        valid_sample_rate(self.sample_rate as int) && valid_fft_size(self.fft_size as int)
    }

    /// Validates the construction parameters: the sample rate is checked
    /// first, and an out-of-range parameter is the only way construction
    /// fails.
    pub fn new(sample_rate: u32, fft_size: usize) -> (r: Result<EngineConfig, EngineError>)
        ensures
            r is Ok <==> valid_sample_rate(sample_rate as int) && valid_fft_size(fft_size as int),
            r is Ok ==> r->Ok_0 == (EngineConfig { sample_rate, fft_size }) && r->Ok_0.wf(),
            !valid_sample_rate(sample_rate as int) ==> r == Result::<
                EngineConfig,
                EngineError,
            >::Err(EngineError::InvalidSampleRate),
            valid_sample_rate(sample_rate as int) && !valid_fft_size(fft_size as int) ==> r
                == Result::<EngineConfig, EngineError>::Err(EngineError::InvalidFftSize),
    {
        if sample_rate < 8000 || sample_rate > 192000 {
            Err(EngineError::InvalidSampleRate)
        } else if fft_size != 256 && fft_size != 512 && fft_size != 1024 && fft_size != 2048
            && fft_size != 4096 {
            Err(EngineError::InvalidFftSize)
        } else {
            Ok(EngineConfig { sample_rate, fft_size })
        }
    }

    /// Analysis hop: a quarter of the transform size (75% overlap).
    pub fn hop_size(&self) -> (n: usize)
        ensures
            n == self.fft_size as int / 4,
    {
        self.fft_size / 4
    }

    /// Number of spectral bins a transform of this size yields.
    pub fn spectrum_len(&self) -> (n: usize)
        requires
            self.fft_size < usize::MAX,
        ensures
            n == self.fft_size as int / 2 + 1,
    {
        self.fft_size / 2 + 1
    }
}

/// The engine version reported in the statistics record.
pub fn engine_version() -> (v: String)
    ensures
        v@ == "1.0.0"@,
{
    "1.0.0".to_owned()
}

/// Clamps a requested pitch shift to the supported range of whole semitones.
pub fn clamp_semitones(semitones: i32) -> (s: i32)
    ensures
        s == if semitones < -12 {
            -12int
        } else if semitones > 12 {
            12int
        } else {
            semitones as int
        },
{
    if semitones < -12 {
        -12
    } else if semitones > 12 {
        12
    } else {
        semitones
    }
}

} // verus!
