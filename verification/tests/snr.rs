use slowrx::snr::{
    window_idx_for_snr, window_idx_for_snr_with_hysteresis, HANN_LENS,
};

#[test]
fn snr_hann_lens_match_slowrx_at_workingrate() {
    assert_eq!(HANN_LENS, [12, 16, 24, 32, 64, 128, 256]);
}

#[test]
fn snr_window_idx_thresholds_match_slowrx() {
    // SNR in thousandths of a dB.
    assert_eq!(window_idx_for_snr(30_000), 0);
    assert_eq!(window_idx_for_snr(20_000), 0);
    assert_eq!(window_idx_for_snr(19_999), 1);
    assert_eq!(window_idx_for_snr(10_000), 1);
    assert_eq!(window_idx_for_snr(9_999), 2);
    assert_eq!(window_idx_for_snr(9_000), 2);
    assert_eq!(window_idx_for_snr(8_999), 3);
    assert_eq!(window_idx_for_snr(3_000), 3);
    assert_eq!(window_idx_for_snr(2_999), 4);
    assert_eq!(window_idx_for_snr(-5_000), 4);
    assert_eq!(window_idx_for_snr(-5_001), 5);
    assert_eq!(window_idx_for_snr(-10_000), 5);
    assert_eq!(window_idx_for_snr(-10_001), 6);
    assert_eq!(window_idx_for_snr(-100_000), 6);
}

#[test]
fn snr_hysteresis_in_band_stays_put() {
    assert_eq!(window_idx_for_snr_with_hysteresis(9_300, 3), 3);
}

#[test]
fn snr_hysteresis_robust_change_propagates() {
    assert_eq!(window_idx_for_snr_with_hysteresis(9_500, 3), 2);
}

#[test]
fn snr_hysteresis_symmetric_in_band() {
    assert_eq!(window_idx_for_snr_with_hysteresis(8_500, 2), 2);
}

#[test]
fn snr_hysteresis_symmetric_robust() {
    assert_eq!(window_idx_for_snr_with_hysteresis(8_000, 2), 3);
}

#[test]
fn snr_hysteresis_no_change_when_in_equilibrium() {
    assert_eq!(window_idx_for_snr_with_hysteresis(15_000, 1), 1);
}

#[test]
fn snr_hysteresis_at_extreme_thresholds() {
    assert_eq!(window_idx_for_snr_with_hysteresis(20_500, 1), 0);
    assert_eq!(window_idx_for_snr_with_hysteresis(-10_500, 5), 5);
    assert_eq!(window_idx_for_snr_with_hysteresis(-11_000, 5), 6);
}

#[test]
fn snr_hysteresis_ratchets_from_distant_prev_low_snr() {
    assert_eq!(window_idx_for_snr_with_hysteresis(9_200, 4), 3);
}

#[test]
fn snr_hysteresis_ratchets_from_distant_prev_high_snr() {
    assert_eq!(window_idx_for_snr_with_hysteresis(20_200, 4), 3);
}

#[test]
fn snr_hysteresis_converges_high_snr_from_cold_start() {
    let mut idx = 6;
    let snr = 25_000;
    for expected in [5, 4, 3, 2, 1, 0] {
        idx = window_idx_for_snr_with_hysteresis(snr, idx);
        assert_eq!(
            idx, expected,
            "ratchet should land at {expected}, got {idx}"
        );
    }
    assert_eq!(window_idx_for_snr_with_hysteresis(snr, idx), 0);
}

#[test]
fn snr_hysteresis_converges_degrading_snr() {
    let mut idx = 0;
    let snr = -50_000;
    for expected in [1, 2, 3, 4, 5, 6] {
        idx = window_idx_for_snr_with_hysteresis(snr, idx);
        assert_eq!(
            idx, expected,
            "ratchet should land at {expected}, got {idx}"
        );
    }
    assert_eq!(window_idx_for_snr_with_hysteresis(snr, idx), 6);
}

#[test]
fn snr_bandwidth_correction_bins_match_slowrx() {
    let get_bin = |hz: u32| slowrx::get_bin(hz, slowrx::snr::FFT_LEN as u32, 11_025);

    let video_lo = get_bin(1500);
    let video_hi = get_bin(2300);
    let n_lo_a = get_bin(400);
    let n_hi_a = get_bin(800);
    let n_lo_b = get_bin(2700);
    let n_hi_b = get_bin(3400);

    let video_plus_noise_bins = video_hi - video_lo + 1;
    let noise_only_bins = (n_hi_a - n_lo_a + 1) + (n_hi_b - n_lo_b + 1);
    let receiver_bins = n_hi_b - n_lo_a;

    assert_eq!(
        video_plus_noise_bins, 20,
        "video+noise bins: got {video_plus_noise_bins}"
    );
    assert_eq!(
        noise_only_bins, 27,
        "noise-only bins: got {noise_only_bins}"
    );
    assert_eq!(receiver_bins, 69, "receiver bins: got {receiver_bins}");

    let pnoise_mult = receiver_bins as f64 / noise_only_bins as f64;
    assert!(
        (pnoise_mult - 69.0 / 27.0).abs() < 1e-9,
        "Pnoise mult: {pnoise_mult}"
    );
    let psignal_sub = video_plus_noise_bins as f64 / noise_only_bins as f64;
    assert!(
        (psignal_sub - 20.0 / 27.0).abs() < 1e-9,
        "Psignal sub: {psignal_sub}"
    );
}

#[test]
fn bandwidth_bins_match_the_bin_counts() {
    let bins = slowrx::snr::bandwidth_bins();
    assert_eq!(bins.video_plus_noise, 20);
    assert_eq!(bins.noise_only, 27);
    assert_eq!(bins.receiver, 69);
}

#[test]
fn sync_target_bin_for_1200hz_is_27() {
    let bin = slowrx::get_bin(1200, slowrx::sync::SYNC_FFT_LEN as u32, 11_025);
    assert_eq!(
        bin, 27,
        "sync_target_bin for 1200 Hz should be 27 (trunc), got {bin}"
    );
}
