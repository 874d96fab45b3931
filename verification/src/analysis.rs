//! Decision rules of the tempo and key analyses.
//!
//! The spectral measurements themselves (onset flux, autocorrelation,
//! chromatic energies) are real-valued and live outside the verified core;
//! this module carries the integer rules built on top of them: sectioning a
//! track, converting autocorrelation lags to beats per minute, folding tempo
//! candidates into one octave, consensus voting, and naming a key.
//!
//! Tempo values are often folded by halving, which can land on a half beat
//! per minute. To keep that exact, folded tempos are carried in half-units:
//! twice the value in beats per minute.

use vstd::prelude::*;

verus! {

/// Tempo and key estimator over whole-track sample arrays.
pub struct AudioAnalyzer {
    pub sample_rate: u32,
    pub fft_size: usize,
}

/// `|a - b|`.
pub open spec fn abs_diff(a: int, b: int) -> int {
    if a >= b {
        a - b
    } else {
        b - a
    }
}

/// A tempo candidate folded into the 80–160 octave band, in half-units.
/// Candidates below 80 are doubled, candidates above 160 are halved; one
/// step suffices for candidates in the 60–200 search range.
pub open spec fn octave_norm_half(bpm: int) -> int {
    if bpm < 80 {
        4 * bpm
    } else if bpm > 160 {
        bpm
    } else {
        2 * bpm
    }
}

/// All candidates folded into the 80–160 octave band, in half-units.
pub open spec fn normalized_half(candidates: Seq<u32>) -> Seq<int> {
    candidates.map_values(|v: u32| octave_norm_half(v as int))
}

/// Numerator of the total pairwise similarity of a candidate `c` against
/// every entry of `norms` (both in half-units), where the similarity of two
/// tempos at distance `d` half-units is `20 / (20 + d)` — that is,
/// `1 / (1 + Δ/10)` in beats per minute. The fraction is accumulated over
/// the common denominator [`score_den`].
pub open spec fn score_num(norms: Seq<int>, c: int) -> int
    decreases norms.len(),
{
    if norms.len() == 0 {
        0
    } else {
        score_num(norms.drop_last(), c) * (20 + abs_diff(c, norms.last())) + 20 * score_den(
            norms.drop_last(),
            c,
        )
    }
}

/// Denominator of the total pairwise similarity: the product of
/// `20 + d` over the distances `d` of `c` to every entry of `norms`.
pub open spec fn score_den(norms: Seq<int>, c: int) -> int
    decreases norms.len(),
{
    if norms.len() == 0 {
        1
    } else {
        score_den(norms.drop_last(), c) * (20 + abs_diff(c, norms.last()))
    }
}

/// The total pairwise similarity of `a` strictly exceeds that of `b`
/// (comparison of the two exact fractions by cross-multiplication).
pub open spec fn similarity_exceeds(norms: Seq<int>, a: int, b: int) -> bool {
    score_num(norms, a) * score_den(norms, b) > score_num(norms, b) * score_den(norms, a)
}

/// Index chosen among the first `k` candidates by a left-to-right scan that
/// moves only on a strictly greater similarity score.
pub open spec fn chosen_upto(norms: Seq<int>, k: nat) -> int
    decreases k,
{
    if k <= 1 {
        0
    } else {
        let prev = chosen_upto(norms, (k - 1) as nat);
        if similarity_exceeds(norms, norms[k - 1], norms[prev]) {
            k - 1
        } else {
            prev
        }
    }
}

/// Index of the candidate with the highest total pairwise similarity
/// (earliest such index).
pub open spec fn chosen_index(norms: Seq<int>) -> int {
    chosen_upto(norms, norms.len())
}

/// The consensus tempo: no candidate gives the 120 default, a single
/// candidate is returned as it is, and otherwise the octave-folded candidate
/// with the highest total pairwise similarity is rounded to the nearest
/// whole beat per minute (half-units round up).
pub open spec fn spec_consensus_bpm(candidates: Seq<u32>) -> int {
    if candidates.len() == 0 {
        120
    } else if candidates.len() == 1 {
        candidates[0] as int
    } else {
        let norms = normalized_half(candidates);
        (norms[chosen_index(norms)] + 1) / 2
    }
}

/// Window size of the onset-strength transform.
pub const ANALYSIS_FFT_SIZE: usize = 2048;

/// Hop of the onset-strength transform: 75% overlap.
pub const ANALYSIS_HOP_SIZE: usize = 512;

/// How many ten-second sections the tempo analysis takes from a track of
/// `total_len` samples: one per full section, at least one, at most five.
pub open spec fn spec_num_sections(total_len: int, sample_rate: int) -> int {
    let q = total_len / (10 * sample_rate);
    if q < 1 {
        1
    } else if q > 5 {
        5
    } else {
        q
    }
}

/// Where a section starts: the strategic positions are the track start, the
/// first quarter, the middle, the third quarter, and ten seconds before the
/// end (or the start, on a track shorter than one section).
pub open spec fn spec_section_start(section_idx: int, total_len: int, sample_rate: int) -> int {
    if section_idx == 0 {
        0
    } else if section_idx == 1 {
        total_len / 4
    } else if section_idx == 2 {
        total_len / 2
    } else if section_idx == 3 {
        (total_len * 3) / 4
    } else if total_len >= 10 * sample_rate {
        total_len - 10 * sample_rate
    } else {
        0
    }
}

/// Where a section ends: ten seconds past its start, capped at the track end.
pub open spec fn spec_section_end(section_idx: int, total_len: int, sample_rate: int) -> int {
    let end = spec_section_start(section_idx, total_len, sample_rate) + 10 * sample_rate;
    if end > total_len {
        total_len
    } else {
        end
    }
}

/// A section is analyzed only when it holds at least five seconds of audio.
pub open spec fn spec_section_usable(section_idx: int, total_len: int, sample_rate: int) -> bool {
    spec_section_end(section_idx, total_len, sample_rate) - spec_section_start(
        section_idx,
        total_len,
        sample_rate,
    ) >= 5 * sample_rate
}

/// An autocorrelation lag (in onset frames) converted to beats per minute:
/// `60 * frames_per_second / lag` with `frames_per_second = rate / hop`,
/// rounded to the nearest integer (halves up) and clamped to the 60–200
/// search range.
pub open spec fn spec_lag_to_bpm(sample_rate: int, hop_size: int, lag: int) -> int {
    let rounded = (120 * sample_rate + hop_size * lag) / (2 * hop_size * lag);
    if rounded < 60 {
        60
    } else if rounded > 200 {
        200
    } else {
        rounded
    }
}

/// The chromatic pitch-class names, with the mode appended.
pub open spec fn spec_key_label(class: int, minor: bool) -> Seq<char> {
    if minor {
        if class == 0 {
            "C Minor"@
        } else if class == 1 {
            "C# Minor"@
        } else if class == 2 {
            "D Minor"@
        } else if class == 3 {
            "D# Minor"@
        } else if class == 4 {
            "E Minor"@
        } else if class == 5 {
            "F Minor"@
        } else if class == 6 {
            "F# Minor"@
        } else if class == 7 {
            "G Minor"@
        } else if class == 8 {
            "G# Minor"@
        } else if class == 9 {
            "A Minor"@
        } else if class == 10 {
            "A# Minor"@
        } else {
            "B Minor"@
        }
    } else {
        if class == 0 {
            "C Major"@
        } else if class == 1 {
            "C# Major"@
        } else if class == 2 {
            "D Major"@
        } else if class == 3 {
            "D# Major"@
        } else if class == 4 {
            "E Major"@
        } else if class == 5 {
            "F Major"@
        } else if class == 6 {
            "F# Major"@
        } else if class == 7 {
            "G Major"@
        } else if class == 8 {
            "G# Major"@
        } else if class == 9 {
            "A Major"@
        } else if class == 10 {
            "A# Major"@
        } else {
            "B Major"@
        }
    }
}

/// The dominant chromatic class among the first `k` energy bins: the class
/// with the highest energy, the last such class when several tie.
pub open spec fn spec_dominant_upto(energies: Seq<u64>, k: nat) -> int
    decreases k,
{
    if k <= 1 {
        0
    } else {
        let prev = spec_dominant_upto(energies, (k - 1) as nat);
        if energies[k - 1] >= energies[prev] {
            k - 1
        } else {
            prev
        }
    }
}

/// The dominant chromatic class of the twelve energy bins.
pub open spec fn spec_dominant(energies: Seq<u64>) -> int {
    spec_dominant_upto(energies, energies.len())
}

/// The mode heuristic: minor when the dominant class outweighs the class a
/// minor third above it by more than twenty percent.
pub open spec fn spec_is_minor(energies: Seq<u64>) -> bool {
    let d = spec_dominant(energies);
    5 * energies[d] > 6 * energies[(d + 3) % 12]
}

/// `180^k`: the largest possible similarity denominator over `k` candidates,
/// since two folded tempos are at most 160 half-units apart.
spec fn pow180(k: nat) -> int
    decreases k,
{
    if k == 0 {
        1
    } else {
        180 * pow180((k - 1) as nat)
    }
}

/// The candidates as mathematical integers.
spec fn as_ints(s: Seq<u32>) -> Seq<int> {
    s.map_values(|v: u32| v as int)
}

proof fn lemma_pow180_pos(k: nat)
    ensures
        pow180(k) >= 1,
    decreases k,
{
    if k > 0 {
        lemma_pow180_pos((k - 1) as nat);
        assert(180 * pow180((k - 1) as nat) >= pow180((k - 1) as nat)) by (nonlinear_arith)
            requires
                pow180((k - 1) as nat) >= 1,
        ;
    }
}

proof fn lemma_pow180_mono(a: nat, b: nat)
    requires
        a <= b,
    ensures
        pow180(a) <= pow180(b),
    decreases b,
{
    if a < b {
        lemma_pow180_mono(a, (b - 1) as nat);
        lemma_pow180_pos((b - 1) as nat);
        assert(180 * pow180((b - 1) as nat) >= pow180((b - 1) as nat)) by (nonlinear_arith)
            requires
                pow180((b - 1) as nat) >= 1,
        ;
    }
}

/// Product of two nonnegative values bounded by the product of their bounds.
proof fn lemma_mul_le(a: int, b: int, a_max: int, b_max: int)
    requires
        0 <= a <= a_max,
        0 <= b <= b_max,
    ensures
        a * b <= a_max * b_max,
{
    assert(a * b <= a_max * b_max) by (nonlinear_arith)
        requires
            0 <= a <= a_max,
            0 <= b <= b_max,
    ;
}

/// Two 64-bit values always multiply without overflowing 128 bits.
proof fn lemma_mul_fits_u128(a: u64, b: u64)
    ensures
        (a as int) * (b as int) <= u128::MAX as int,
{
    assert((a as int) * (b as int) <= 0xffff_ffff_ffff_ffffint * 0xffff_ffff_ffff_ffffint)
        by (nonlinear_arith)
        requires
            0 <= a as int <= 0xffff_ffff_ffff_ffffint,
            0 <= b as int <= 0xffff_ffff_ffff_ffffint,
    ;
}

proof fn lemma_score_den_pos(norms: Seq<int>, c: int)
    ensures
        score_den(norms, c) >= 1,
    decreases norms.len(),
{
    if norms.len() > 0 {
        lemma_score_den_pos(norms.drop_last(), c);
        let rest = score_den(norms.drop_last(), c);
        let d = 20 + abs_diff(c, norms.last());
        assert(rest * d >= 1) by (nonlinear_arith)
            requires
                rest >= 1,
                d >= 20,
        ;
    }
}

/// Ordering of fractions with positive denominators: if `na/da` does not
/// exceed `nb/db` while `nc/dc` does, then `na/da` is strictly below
/// `nc/dc`.
proof fn lemma_frac_order(na: int, da: int, nb: int, db: int, nc: int, dc: int)
    requires
        da >= 1,
        db >= 1,
        dc >= 1,
        na * db <= nb * da,
        nc * db > nb * dc,
    ensures
        na * dc < nc * da,
{
    assert(na * dc < nc * da) by (nonlinear_arith)
        requires
            da >= 1,
            db >= 1,
            dc >= 1,
            na * db <= nb * da,
            nc * db > nb * dc,
    ;
}

proof fn lemma_chosen_upto_is_best(norms: Seq<int>, k: nat)
    requires
        1 <= k <= norms.len(),
    ensures
        0 <= chosen_upto(norms, k) < k,
        forall|j: int|
            0 <= j < k ==> !similarity_exceeds(norms, norms[j], norms[chosen_upto(norms, k)]),
    decreases k,
{
    if k == 1 {
    } else {
        lemma_chosen_upto_is_best(norms, (k - 1) as nat);
        let prev = chosen_upto(norms, (k - 1) as nat);
        let cur = chosen_upto(norms, k);
        if similarity_exceeds(norms, norms[k - 1], norms[prev]) {
            assert forall|j: int| 0 <= j < k implies !similarity_exceeds(
                norms,
                norms[j],
                norms[cur],
            ) by {
                if j < k - 1 {
                    assert(!similarity_exceeds(
                        norms,
                        norms[j],
                        norms[chosen_upto(norms, (k - 1) as nat)],
                    ));
                    lemma_score_den_pos(norms, norms[j]);
                    lemma_score_den_pos(norms, norms[prev]);
                    lemma_score_den_pos(norms, norms[k - 1]);
                    lemma_frac_order(
                        score_num(norms, norms[j]),
                        score_den(norms, norms[j]),
                        score_num(norms, norms[prev]),
                        score_den(norms, norms[prev]),
                        score_num(norms, norms[k - 1]),
                        score_den(norms, norms[k - 1]),
                    );
                }
            }
        }
    }
}

/// The consensus choice is a true maximum: no candidate's total pairwise
/// similarity strictly exceeds that of the candidate at [`chosen_index`].
/// So [`spec_consensus_bpm`] rounds a candidate with the highest total
/// pairwise similarity, as well as the earliest one the scan accepts.
pub proof fn lemma_chosen_index_is_best(norms: Seq<int>)
    requires
        norms.len() >= 1,
    ensures
        0 <= chosen_index(norms) < norms.len(),
        forall|j: int|
            0 <= j < norms.len() ==> !similarity_exceeds(
                norms,
                norms[j],
                norms[chosen_index(norms)],
            ),
{
    lemma_chosen_upto_is_best(norms, norms.len());
}

impl AudioAnalyzer {
    pub fn new(sample_rate: u32, fft_size: usize) -> (a: Self)
        ensures
            a.sample_rate == sample_rate,
            a.fft_size == fft_size,
    {
        AudioAnalyzer { sample_rate, fft_size }
    }

    /// Folds one tempo candidate into the 80–160 octave band, returned in
    /// half-units so that the halving of a fast candidate stays exact.
    fn normalize_to_octave(bpm: u32) -> (n: u32)
        requires
            60 <= bpm <= 200,
        ensures
            n as int == octave_norm_half(bpm as int),
            160 <= n <= 320,
    {
        if bpm < 80 {
            4 * bpm
        } else if bpm > 160 {
            bpm
        } else {
            2 * bpm
        }
    }

    /// The total pairwise similarity of `c` against every entry of `norms`,
    /// as the exact fraction ([`score_num`], [`score_den`]).
    fn score_frac(norms: &Vec<u32>, c: u32) -> (frac: (u64, u64))
        requires
            norms@.len() <= 5,
            forall|i: int| 0 <= i < norms@.len() ==> 160 <= #[trigger] norms@[i] <= 320,
            160 <= c <= 320,
        ensures
            frac.0 as int == score_num(as_ints(norms@), c as int),
            frac.1 as int == score_den(as_ints(norms@), c as int),
            1 <= frac.1,
            frac.1 as int <= pow180(5),
            frac.0 as int <= 100 * (frac.1 as int),
    {
        let ghost nseq = as_ints(norms@);
        let mut num: u64 = 0;
        let mut den: u64 = 1;
        let mut k: usize = 0;
        proof {
            assert(nseq.take(0) =~= Seq::<int>::empty());
        }
        while k < norms.len()
            invariant
                k <= norms@.len() <= 5,
                forall|i: int| 0 <= i < norms@.len() ==> 160 <= #[trigger] norms@[i] <= 320,
                160 <= c <= 320,
                nseq == as_ints(norms@),
                num as int == score_num(nseq.take(k as int), c as int),
                den as int == score_den(nseq.take(k as int), c as int),
                1 <= den,
                den as int <= pow180(k as nat),
                num as int <= 20 * (k as int) * (den as int),
            decreases norms@.len() - k,
        {
            let v = norms[k];
            let d: u64 = 20 + (if c >= v {
                c - v
            } else {
                v - c
            }) as u64;
            assert(20 <= d <= 180);
            proof {
                lemma_pow180_pos(k as nat);
                lemma_pow180_mono(k as nat, 4);
                assert(pow180(4) == 1049760000) by {
                    reveal_with_fuel(pow180, 5);
                }
                assert(den as int <= 1049760000);
                lemma_mul_le(den as int, d as int, pow180(k as nat), 180);
                assert(pow180((k + 1) as nat) == 180 * pow180(k as nat));
                lemma_mul_le(den as int, d as int, 1049760000, 180);
                assert(num as int <= 80 * (den as int)) by (nonlinear_arith)
                    requires
                        num as int <= 20 * (k as int) * (den as int),
                        0 <= k <= 4,
                        0 <= den as int,
                ;
                lemma_mul_le(num as int, d as int, 80int * 1049760000int, 180int);
                assert(1 <= (den as int) * (d as int)) by (nonlinear_arith)
                    requires
                        1 <= den,
                        20 <= d,
                ;
                assert(num as int * (d as int) + 20 * (den as int) <= 20 * ((k + 1) as int) * (
                (den as int) * (d as int))) by (nonlinear_arith)
                    requires
                        num as int <= 20 * (k as int) * (den as int),
                        1 <= den,
                        20 <= d <= 180,
                        0 <= k,
                ;
            }
            let new_num: u64 = num * d + 20 * den;
            let new_den: u64 = den * d;
            proof {
                let prefix = nseq.take((k + 1) as int);
                assert(prefix.drop_last() =~= nseq.take(k as int));
                assert(prefix.last() == nseq[k as int]);
                assert(nseq[k as int] == norms@[k as int] as int);
                assert(abs_diff(c as int, nseq[k as int]) == d - 20);
            }
            num = new_num;
            den = new_den;
            k = k + 1;
        }
        proof {
            assert(nseq.take(norms@.len() as int) =~= nseq);
            lemma_pow180_mono(k as nat, 5);
            assert(num as int <= 100 * (den as int)) by (nonlinear_arith)
                requires
                    num as int <= 20 * (k as int) * (den as int),
                    0 <= k <= 5,
                    0 <= den as int,
            ;
        }
        (num, den)
    }

    /// Consensus tempo over the per-section estimates: every candidate is
    /// folded into the 80–160 octave band, each folded candidate is scored
    /// by its total pairwise similarity `1 / (1 + Δ/10)` against all the
    /// others, and the best-scoring one is rounded to the nearest whole beat
    /// per minute. No candidate yields the 120 default; a single candidate
    /// is returned unchanged. Scores are compared as exact fractions.
    pub fn consensus_bpm(candidates: &[u32]) -> (bpm: u32)
        requires
            candidates@.len() <= 5,
            forall|i: int| 0 <= i < candidates@.len() ==> 60 <= #[trigger] candidates@[i] <= 200,
        ensures
            bpm as int == spec_consensus_bpm(candidates@),
            candidates@.len() >= 2 ==> 80 <= bpm <= 160,
    {
        let n = candidates.len();
        if n == 0 {
            return 120;
        }
        if n == 1 {
            return candidates[0];
        }
        let ghost nseq = normalized_half(candidates@);
        let mut norms: Vec<u32> = Vec::new();
        let mut i: usize = 0;
        while i < n
            invariant
                i <= n == candidates@.len() <= 5,
                forall|j: int| 0 <= j < candidates@.len() ==> 60 <= #[trigger] candidates@[j]
                    <= 200,
                nseq == normalized_half(candidates@),
                norms@.len() == i,
                forall|j: int| 0 <= j < i ==> #[trigger] norms@[j] as int == nseq[j],
                forall|j: int| 0 <= j < i ==> 160 <= #[trigger] norms@[j] <= 320,
            decreases n - i,
        {
            let v = Self::normalize_to_octave(candidates[i]);
            norms.push(v);
            i = i + 1;
        }
        proof {
            assert(as_ints(norms@) =~= nseq);
        }
        let mut best: usize = 0;
        let mut best_frac = Self::score_frac(&norms, norms[0]);
        let mut k: usize = 1;
        while k < n
            invariant
                1 <= k <= n == candidates@.len() <= 5,
                norms@.len() == n,
                forall|j: int| 0 <= j < n ==> 160 <= #[trigger] norms@[j] <= 320,
                forall|j: int| 0 <= j < n ==> #[trigger] norms@[j] as int == nseq[j],
                as_ints(norms@) == nseq,
                best < k,
                best as int == chosen_upto(nseq, k as nat),
                best_frac.0 as int == score_num(nseq, nseq[best as int]),
                best_frac.1 as int == score_den(nseq, nseq[best as int]),
                1 <= best_frac.1,
                best_frac.1 as int <= pow180(5),
                best_frac.0 as int <= 100 * (best_frac.1 as int),
            decreases n - k,
        {
            let frac = Self::score_frac(&norms, norms[k]);
            proof {
                lemma_mul_fits_u128(frac.0, best_frac.1);
                lemma_mul_fits_u128(best_frac.0, frac.1);
            }
            if (frac.0 as u128) * (best_frac.1 as u128) > (best_frac.0 as u128) * (frac.1
                as u128) {
                best = k;
                best_frac = frac;
            }
            k = k + 1;
        }
        let folded = norms[best];
        proof {
            assert(chosen_index(nseq) == chosen_upto(nseq, n as nat));
            assert(folded as int == nseq[chosen_index(nseq)]);
        }
        (folded + 1) / 2
    }

    /// How many ten-second sections the tempo analysis visits on a track of
    /// `total_len` samples: up to five, and always at least one.
    pub fn num_sections(total_len: usize, sample_rate: u32) -> (n: usize)
        requires
            1 <= sample_rate <= 192000,
        ensures
            n == spec_num_sections(total_len as int, sample_rate as int),
            1 <= n <= 5,
    {
        let section_samples: usize = (sample_rate as usize) * 10;
        let q = total_len / section_samples;
        if q < 1 {
            1
        } else if q > 5 {
            5
        } else {
            q
        }
    }

    /// The sample range of one analysis section, or nothing when the section
    /// holds less than five seconds of audio and is skipped.
    pub fn section_bounds(section_idx: usize, total_len: usize, sample_rate: u32) -> (r: Option<
        (usize, usize),
    >)
        requires
            1 <= sample_rate <= 192000,
            total_len <= usize::MAX / 4,
            section_idx < spec_num_sections(total_len as int, sample_rate as int),
        ensures
            r is Some <==> spec_section_usable(
                section_idx as int,
                total_len as int,
                sample_rate as int,
            ),
            r is Some ==> r->Some_0.0 == spec_section_start(
                section_idx as int,
                total_len as int,
                sample_rate as int,
            ) && r->Some_0.1 == spec_section_end(
                section_idx as int,
                total_len as int,
                sample_rate as int,
            ),
    {
        let section_samples: usize = (sample_rate as usize) * 10;
        let start: usize = if section_idx == 0 {
            0
        } else if section_idx == 1 {
            total_len / 4
        } else if section_idx == 2 {
            total_len / 2
        } else if section_idx == 3 {
            (total_len * 3) / 4
        } else if total_len >= section_samples {
            total_len - section_samples
        } else {
            0
        };
        let end: usize = if start + section_samples > total_len {
            total_len
        } else {
            start + section_samples
        };
        if end - start >= (sample_rate as usize) * 5 {
            Some((start, end))
        } else {
            None
        }
    }

    /// How many onset-strength frames a section yields: one per hop, with
    /// the last full window in range; a section shorter than one window
    /// yields none.
    pub fn onset_frame_count(section_len: usize) -> (n: usize)
        ensures
            n == if section_len >= ANALYSIS_FFT_SIZE {
                (section_len - ANALYSIS_FFT_SIZE) as int / ANALYSIS_HOP_SIZE as int
            } else {
                0int
            },
    {
        if section_len < ANALYSIS_FFT_SIZE {
            0
        } else {
            (section_len - ANALYSIS_FFT_SIZE) / ANALYSIS_HOP_SIZE
        }
    }

    /// The autocorrelation lag range (in onset frames) that covers the 60–200
    /// beats-per-minute search band: from `60/200` to `60/60` of a second of
    /// frames, the upper end capped at half the onset curve.
    pub fn lag_bounds(sample_rate: u32, hop_size: usize, onset_len: usize) -> (bounds: (
        usize,
        usize,
    ))
        requires
            1 <= hop_size,
        ensures
            bounds.0 == 3 * sample_rate as int / (10 * hop_size as int),
            bounds.1 == if sample_rate as int / (hop_size as int) < onset_len as int / 2 {
                sample_rate as int / (hop_size as int)
            } else {
                onset_len as int / 2
            },
    {
        let min_lag_wide: u128 = (3 * (sample_rate as u128)) / (10 * (hop_size as u128));
        let frames_lag: u128 = (sample_rate as u128) / (hop_size as u128);
        proof {
            vstd::arithmetic::div_mod::lemma_div_is_ordered_by_denominator(
                3 * (sample_rate as int),
                10,
                10 * (hop_size as int),
            );
        }
        let min_lag: usize = min_lag_wide as usize;
        let cap: usize = onset_len / 2;
        let max_lag: usize = if frames_lag < (cap as u128) {
            frames_lag as usize
        } else {
            cap
        };
        (min_lag, max_lag)
    }

    /// Converts an autocorrelation lag to beats per minute, rounded to the
    /// nearest integer and clamped to the 60–200 search range.
    pub fn lag_to_bpm(sample_rate: u32, hop_size: usize, lag: usize) -> (bpm: u32)
        requires
            1 <= hop_size,
            1 <= lag,
            hop_size * lag <= u64::MAX,
        ensures
            bpm as int == spec_lag_to_bpm(sample_rate as int, hop_size as int, lag as int),
            60 <= bpm <= 200,
    {
        proof {
            assert((hop_size as int) * (lag as int) >= 1) by (nonlinear_arith)
                requires
                    hop_size as int >= 1,
                    lag as int >= 1,
            ;
        }
        let t: u128 = (hop_size as u128) * (lag as u128);
        let num: u128 = 120 * (sample_rate as u128) + t;
        let den: u128 = 2 * t;
        proof {
            assert((2 * (hop_size as int)) * (lag as int) == 2 * ((hop_size as int) * (
            lag as int))) by (nonlinear_arith);
        }
        let rounded: u128 = num / den;
        if rounded < 60 {
            60
        } else if rounded > 200 {
            200
        } else {
            rounded as u32
        }
    }

    /// The printable name of a chromatic pitch class with its mode.
    pub fn key_label(class: usize, minor: bool) -> (label: String)
        requires
            class < 12,
        ensures
            label@ == spec_key_label(class as int, minor),
    {
        let name: &str = if minor {
            if class == 0 {
                "C Minor"
            } else if class == 1 {
                "C# Minor"
            } else if class == 2 {
                "D Minor"
            } else if class == 3 {
                "D# Minor"
            } else if class == 4 {
                "E Minor"
            } else if class == 5 {
                "F Minor"
            } else if class == 6 {
                "F# Minor"
            } else if class == 7 {
                "G Minor"
            } else if class == 8 {
                "G# Minor"
            } else if class == 9 {
                "A Minor"
            } else if class == 10 {
                "A# Minor"
            } else {
                "B Minor"
            }
        } else {
            if class == 0 {
                "C Major"
            } else if class == 1 {
                "C# Major"
            } else if class == 2 {
                "D Major"
            } else if class == 3 {
                "D# Major"
            } else if class == 4 {
                "E Major"
            } else if class == 5 {
                "F Major"
            } else if class == 6 {
                "F# Major"
            } else if class == 7 {
                "G Major"
            } else if class == 8 {
                "G# Major"
            } else if class == 9 {
                "A Major"
            } else if class == 10 {
                "A# Major"
            } else {
                "B Major"
            }
        };
        name.to_owned()
    }

    /// Names the key read off the twelve chromatic energy bins: the
    /// highest-energy class (the last one on a tie) with the mode heuristic
    /// of [`spec_is_minor`].
    pub fn key_decision(energies: &[u64]) -> (label: String)
        requires
            energies@.len() == 12,
        ensures
            label@ == spec_key_label(spec_dominant(energies@), spec_is_minor(energies@)),
    {
        let mut dom: usize = 0;
        let mut k: usize = 1;
        while k < 12
            invariant
                1 <= k <= 12,
                energies@.len() == 12,
                dom < k,
                dom as int == spec_dominant_upto(energies@, k as nat),
            decreases 12 - k,
        {
            if energies[k] >= energies[dom] {
                dom = k;
            }
            k = k + 1;
        }
        let third = (dom + 3) % 12;
        let minor = 5 * (energies[dom] as u128) > 6 * (energies[third] as u128);
        Self::key_label(dom, minor)
    }
}

} // verus!
