//! Core logic of a DJ-style stereo audio engine: frame bookkeeping, a bounded
//! buffer pool, and the integer decision rules of the tempo and key analyses.
//!
//! Per-sample floating-point processing lives outside the verified core; the
//! functions here carry the structural rules the processing relies on.

pub mod analysis;
pub mod buffer_manager;
pub mod pipeline;

pub use analysis::AudioAnalyzer;
pub use buffer_manager::BufferManager;
pub use buffer_manager::POOL_CAPACITY;
pub use pipeline::clamp_semitones;
pub use pipeline::engine_version;
pub use pipeline::frame_output_len;
pub use pipeline::interleave;
pub use pipeline::EngineConfig;
pub use pipeline::EngineError;
pub use pipeline::MAX_FRAME_SIZE;
