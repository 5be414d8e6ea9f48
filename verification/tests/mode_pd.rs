use slowrx::mode_pd::ycbcr_to_rgb;

#[test]
fn ycbcr_neutral_grey_is_grey() {
    let rgb = ycbcr_to_rgb(128, 128, 128);
    for ch in &rgb {
        assert!((i32::from(*ch) - 128).abs() <= 2, "got {rgb:?}");
    }
}

#[test]
fn ycbcr_rounds_to_nearest_matching_slowrx_clip() {
    let [r, g, b] = ycbcr_to_rgb(128, 128, 128);
    assert_eq!(
        r, 129,
        "R should be 129 (round(128.70)), not 128 (truncate)"
    );
    assert_eq!(g, 127, "G should be 127 (round(127.48))");
    assert_eq!(
        b, 129,
        "B should be 129 (round(128.89)), not 128 (truncate)"
    );
}

#[test]
fn ycbcr_pure_red() {
    let rgb = ycbcr_to_rgb(76, 255, 85);
    assert!(rgb[0] > 200, "red channel should dominate, got {rgb:?}");
    assert!(rgb[2] < 100);
}

#[test]
fn ycbcr_clips_both_ends() {
    // Negative numerators clip to 0, numerators past 25500 clip to 255.
    assert_eq!(ycbcr_to_rgb(0, 0, 0), [0, 133, 0]);
    assert_eq!(ycbcr_to_rgb(255, 255, 255), [255, 122, 255]);
}

#[test]
fn ycbcr_rounds_half_up() {
    // G numerator 100*50 - 71*0 - 33*0 + 13260 = 18260 -> 182.6 -> 183.
    assert_eq!(ycbcr_to_rgb(50, 0, 0)[1], 183);
    // R numerator 100*100 + 140*100 - 17850 = 6150 -> 61.5 -> 62 (half up).
    assert_eq!(ycbcr_to_rgb(100, 100, 0)[0], 62);
}
