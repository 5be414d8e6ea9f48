use slowrx::get_bin;

#[test]
fn get_bin_matches_slowrx_truncation() {
    let cases: &[(u32, u64)] = &[
        (400, 9),
        (800, 18),
        (1190, 27),
        (1200, 27),
        (1500, 34),
        (1900, 44),
        (2300, 53),
        (2700, 62),
        (3400, 78),
    ];
    for &(hz, expected) in cases {
        let bin_ours = get_bin(hz, 256, 11025);
        let bin_slowrx = get_bin(hz, 1024, 44100);
        assert_eq!(
            bin_ours, expected,
            "get_bin({hz}, 256, 11025) = {bin_ours}, expected {expected}"
        );
        assert_eq!(
            bin_slowrx, expected,
            "get_bin({hz}, 1024, 44100) = {bin_slowrx}, expected {expected}"
        );
    }
}

#[test]
fn get_bin_handles_large_inputs() {
    assert_eq!(get_bin(u32::MAX, u32::MAX, 1), (u32::MAX as u64) * (u32::MAX as u64));
    assert_eq!(get_bin(0, 512, 11025), 0);
}
