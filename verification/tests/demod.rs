use slowrx::demod::read_pixels;
use slowrx::demod::{
    pixel_window_idx, window_idx_for_snr, window_idx_for_snr_with_hysteresis, HANN_LENS,
};
use slowrx::modespec::SstvMode;

#[test]
fn demod_hann_lens_match_slowrx_at_workingrate() {
    assert_eq!(HANN_LENS, [12, 16, 24, 32, 64, 128, 256]);
}

#[test]
fn demod_window_idx_thresholds_match_slowrx() {
    // SNR in thousandths of a dB.
    assert_eq!(window_idx_for_snr(30_000), 0);
    assert_eq!(window_idx_for_snr(20_000), 0);
    assert_eq!(window_idx_for_snr(19_999), 1);
    assert_eq!(window_idx_for_snr(10_000), 1);
    assert_eq!(window_idx_for_snr(9_999), 2);
    assert_eq!(window_idx_for_snr(9_000), 2);
    assert_eq!(window_idx_for_snr(8_999), 3);
    assert_eq!(window_idx_for_snr(3_000), 3);
    assert_eq!(window_idx_for_snr(2_999), 4);
    assert_eq!(window_idx_for_snr(-5_000), 4);
    assert_eq!(window_idx_for_snr(-5_001), 5);
    assert_eq!(window_idx_for_snr(-10_000), 5);
    assert_eq!(window_idx_for_snr(-10_001), 6);
    assert_eq!(window_idx_for_snr(-100_000), 6);
}

#[test]
fn demod_hysteresis_in_band_stays_put() {
    assert_eq!(window_idx_for_snr_with_hysteresis(9_300, 3), 3);
}

#[test]
fn demod_hysteresis_robust_change_propagates() {
    assert_eq!(window_idx_for_snr_with_hysteresis(9_500, 3), 2);
}

#[test]
fn demod_hysteresis_symmetric_in_band() {
    assert_eq!(window_idx_for_snr_with_hysteresis(8_500, 2), 2);
}

#[test]
fn demod_hysteresis_symmetric_robust() {
    assert_eq!(window_idx_for_snr_with_hysteresis(8_000, 2), 3);
}

#[test]
fn demod_hysteresis_no_change_when_in_equilibrium() {
    assert_eq!(window_idx_for_snr_with_hysteresis(15_000, 1), 1);
}

#[test]
fn demod_hysteresis_at_extreme_thresholds() {
    assert_eq!(window_idx_for_snr_with_hysteresis(20_500, 1), 0);
    assert_eq!(window_idx_for_snr_with_hysteresis(-10_500, 5), 5);
    assert_eq!(window_idx_for_snr_with_hysteresis(-11_000, 5), 6);
}

#[test]
fn demod_hysteresis_ratchets_from_distant_prev_low_snr() {
    assert_eq!(window_idx_for_snr_with_hysteresis(9_200, 4), 3);
}

#[test]
fn demod_hysteresis_ratchets_from_distant_prev_high_snr() {
    assert_eq!(window_idx_for_snr_with_hysteresis(20_200, 4), 3);
}

#[test]
fn demod_hysteresis_converges_high_snr_from_cold_start() {
    let mut idx = 6;
    let snr = 25_000;
    for expected in [5, 4, 3, 2, 1, 0] {
        idx = window_idx_for_snr_with_hysteresis(snr, idx);
        assert_eq!(
            idx, expected,
            "ratchet should land at {expected}, got {idx}"
        );
    }
    assert_eq!(window_idx_for_snr_with_hysteresis(snr, idx), 0);
}

#[test]
fn demod_hysteresis_converges_degrading_snr() {
    let mut idx = 0;
    let snr = -50_000;
    for expected in [1, 2, 3, 4, 5, 6] {
        idx = window_idx_for_snr_with_hysteresis(snr, idx);
        assert_eq!(
            idx, expected,
            "ratchet should land at {expected}, got {idx}"
        );
    }
    assert_eq!(window_idx_for_snr_with_hysteresis(snr, idx), 6);
}

#[test]
fn hysteresis_band_blocks_one_db_jitter() {
    // Moved 3 -> 2 at 9.5 dB; going back to 3 needs the SNR below 8.5 dB.
    assert_eq!(window_idx_for_snr_with_hysteresis(9_500, 3), 2);
    assert_eq!(window_idx_for_snr_with_hysteresis(8_500, 2), 2);
    assert_eq!(window_idx_for_snr_with_hysteresis(8_499, 2), 3);
}

#[test]
fn hysteresis_handles_extreme_snr_values() {
    assert_eq!(window_idx_for_snr_with_hysteresis(i64::MAX, 6), 5);
    assert_eq!(window_idx_for_snr_with_hysteresis(i64::MIN, 0), 1);
    assert_eq!(window_idx_for_snr_with_hysteresis(0, 9), 8);
}

#[test]
fn scottie_dx_uses_one_longer_window() {
    assert_eq!(pixel_window_idx(SstvMode::ScottieDx, 3), 4);
    assert_eq!(pixel_window_idx(SstvMode::ScottieDx, 6), 6);
    assert_eq!(pixel_window_idx(SstvMode::Scottie1, 3), 3);
    assert_eq!(pixel_window_idx(SstvMode::Pd120, 0), 0);
}

#[test]
fn pixels_read_off_the_luminance_track() {
    let track = vec![10u8, 20, 30, 40];
    let times = vec![99i64, 100, 102, 103, 104, i64::MIN, i64::MAX];
    assert_eq!(read_pixels(&track, 100, &times), vec![0, 10, 30, 40, 0, 0, 0]);
    assert_eq!(read_pixels(&track, i64::MIN, &vec![i64::MIN + 1]), vec![20]);
}
