use audio_engine::AudioAnalyzer;

#[test]
fn analyzer_stores_configuration() {
    let analyzer = AudioAnalyzer::new(44100, 2048);
    assert_eq!(analyzer.sample_rate, 44100);
    assert_eq!(analyzer.fft_size, 2048);
}

#[test]
fn consensus_of_nothing_is_default() {
    assert_eq!(AudioAnalyzer::consensus_bpm(&[]), 120);
}

#[test]
fn consensus_of_one_is_itself() {
    assert_eq!(AudioAnalyzer::consensus_bpm(&[137]), 137);
    // A single candidate is not octave-folded.
    assert_eq!(AudioAnalyzer::consensus_bpm(&[60]), 60);
    assert_eq!(AudioAnalyzer::consensus_bpm(&[200]), 200);
}

#[test]
fn consensus_folds_octaves_together() {
    // 100 stays put and 200 halves to 100: the scores tie and the first
    // folded candidate wins.
    assert_eq!(AudioAnalyzer::consensus_bpm(&[100, 200]), 100);
    // 60 doubles to 120 and 150 stays: another exact tie, first wins.
    assert_eq!(AudioAnalyzer::consensus_bpm(&[60, 150]), 120);
}

#[test]
fn consensus_rounds_half_up() {
    // 165 folds to 82.5; rounding goes away from zero.
    assert_eq!(AudioAnalyzer::consensus_bpm(&[165, 165]), 83);
}

#[test]
fn consensus_picks_densest_cluster() {
    // 120 and 122 support each other; the folded 95 is an outlier.
    assert_eq!(AudioAnalyzer::consensus_bpm(&[120, 122, 190]), 120);
    // Two agreeing candidates outvote a lone earlier one.
    assert_eq!(AudioAnalyzer::consensus_bpm(&[60, 150, 150]), 150);
}

#[test]
fn consensus_handles_a_full_vote() {
    // Five sections: the 128/130/132 cluster wins and 130 sits at its center.
    assert_eq!(AudioAnalyzer::consensus_bpm(&[100, 128, 130, 132, 190]), 130);
}

#[test]
fn sections_cover_up_to_five_positions() {
    let rate = 48000;
    // Under ten seconds: a single (possibly unusable) section.
    assert_eq!(AudioAnalyzer::num_sections(95000, rate), 1);
    // Thirty seconds: three sections.
    assert_eq!(AudioAnalyzer::num_sections(30 * 48000, rate), 3);
    // An hour: capped at five.
    assert_eq!(AudioAnalyzer::num_sections(3600 * 48000, rate), 5);
}

#[test]
fn short_section_is_skipped() {
    // Two seconds of audio is under the five-second floor.
    assert_eq!(AudioAnalyzer::section_bounds(0, 2 * 48000, 48000), None);
    // Seven seconds is enough.
    assert_eq!(AudioAnalyzer::section_bounds(0, 7 * 48000, 48000), Some((0, 7 * 48000)));
}

#[test]
fn sections_sit_at_strategic_positions() {
    let total = 60 * 48000;
    let rate = 48000;
    assert_eq!(AudioAnalyzer::num_sections(total, rate), 5);
    assert_eq!(AudioAnalyzer::section_bounds(0, total, rate), Some((0, 480000)));
    assert_eq!(AudioAnalyzer::section_bounds(1, total, rate), Some((total / 4, total / 4 + 480000)));
    assert_eq!(AudioAnalyzer::section_bounds(2, total, rate), Some((total / 2, total / 2 + 480000)));
    assert_eq!(
        AudioAnalyzer::section_bounds(3, total, rate),
        Some((total * 3 / 4, total * 3 / 4 + 480000))
    );
    assert_eq!(AudioAnalyzer::section_bounds(4, total, rate), Some((total - 480000, total)));
}

#[test]
fn onset_frames_follow_window_and_hop() {
    // One frame per 512-sample hop after the first full 2048-sample window.
    assert_eq!(AudioAnalyzer::onset_frame_count(2047), 0);
    assert_eq!(AudioAnalyzer::onset_frame_count(2048), 0);
    assert_eq!(AudioAnalyzer::onset_frame_count(2048 + 4 * 512), 4);
    assert_eq!(AudioAnalyzer::onset_frame_count(480000), 933);
}

#[test]
fn lag_bounds_cover_the_search_band() {
    // At 48 kHz with a 512-sample hop there are 93.75 onset frames a second:
    // 60/200 of a second is 28 frames, 60/60 of a second is 93 frames.
    assert_eq!(AudioAnalyzer::lag_bounds(48000, 512, 400), (28, 93));
    // The upper end is capped at half the onset curve.
    assert_eq!(AudioAnalyzer::lag_bounds(48000, 512, 100), (28, 50));
}

#[test]
fn lag_converts_to_rounded_bpm() {
    // 93.75 frames a second: a 47-frame period is 119.68 beats a minute.
    assert_eq!(AudioAnalyzer::lag_to_bpm(48000, 512, 47), 120);
    // A 50-frame period is exactly 112.5: halves round up.
    assert_eq!(AudioAnalyzer::lag_to_bpm(48000, 512, 50), 113);
}

#[test]
fn lag_bpm_clamps_to_search_range() {
    assert_eq!(AudioAnalyzer::lag_to_bpm(48000, 512, 10), 200);
    assert_eq!(AudioAnalyzer::lag_to_bpm(48000, 512, 1000), 60);
}

#[test]
fn key_labels_are_exact() {
    assert_eq!(AudioAnalyzer::key_label(9, true), "A Minor");
    assert_eq!(AudioAnalyzer::key_label(0, false), "C Major");
    assert_eq!(AudioAnalyzer::key_label(10, true), "A# Minor");
    assert_eq!(AudioAnalyzer::key_label(11, false), "B Major");
}

#[test]
fn key_decision_reads_dominant_class() {
    let mut energies = [0u64; 12];
    energies[9] = 100;
    energies[0] = 50;
    // Class 9 (A) dominates class 0 (its minor third) by more than 20%.
    assert_eq!(AudioAnalyzer::key_decision(&energies), "A Minor");
}

#[test]
fn key_mode_boundary_is_strict() {
    // Exactly 20% above the minor third is not enough for minor.
    let mut energies = [0u64; 12];
    energies[0] = 6;
    energies[3] = 5;
    assert_eq!(AudioAnalyzer::key_decision(&energies), "C Major");
    // Just beyond 20% flips to minor.
    energies[0] = 61;
    energies[3] = 50;
    assert_eq!(AudioAnalyzer::key_decision(&energies), "C Minor");
}

#[test]
fn key_tie_takes_last_class() {
    let mut energies = [0u64; 12];
    energies[1] = 9;
    energies[2] = 9;
    // Ties go to the later class; class 2 against class 5 (zero) is minor.
    assert_eq!(AudioAnalyzer::key_decision(&energies), "D Minor");
}
