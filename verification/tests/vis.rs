use slowrx::vis::{match_vis_pattern, HopSchedule, ToneClass, ToneHistory, VisMatch, HISTORY_LEN};

/// Classes of an ideally received frame for `code` whose parity symbol is
/// `parity`: symbol `s` covers hops `3s..3s+3` (leader, start bit, seven data
/// bits, parity, stop bit).
fn frame_with(code: u8, parity: u8) -> Vec<ToneClass> {
    let bit = |b: u8| if b == 1 { ToneClass::BitOne } else { ToneClass::BitZero };
    (0..HISTORY_LEN)
        .map(|h| match h / 3 {
            0..=4 => ToneClass::Leader,
            5 => ToneClass::Break,
            s @ 6..=12 => bit((code >> (s - 6)) & 1),
            13 => bit(parity),
            _ => ToneClass::Break,
        })
        .collect()
}

fn parity_of(code: u8) -> u8 {
    (code.count_ones() % 2) as u8
}

fn frame(code: u8) -> Vec<ToneClass> {
    frame_with(code, parity_of(code))
}

fn rows(f: &[ToneClass]) -> Vec<Vec<ToneClass>> {
    vec![f.to_vec(), f.to_vec(), f.to_vec()]
}

#[test]
fn every_valid_vis_code_decodes_from_its_frame() {
    for code in 0u8..0x80 {
        let f = frame(code);
        assert_eq!(
            match_vis_pattern(&rows(&f)),
            Some(VisMatch { code, leader_index: 0, phase: 0 }),
            "code {code:#x}"
        );
    }
}

#[test]
fn pd120_frame_decodes() {
    let f = frame(0x5F);
    let m = match_vis_pattern(&rows(&f)).expect("PD120 frame");
    assert_eq!(m.code, 0x5F);
    assert_eq!(slowrx::modespec::lookup(m.code).map(|s| s.mode), Some(slowrx::modespec::SstvMode::Pd120));
}

#[test]
fn parity_error_is_rejected() {
    for code in [0x5F_u8, 0x60, 0x08, 0x00, 0x7F] {
        let f = frame_with(code, 1 - parity_of(code));
        assert_eq!(match_vis_pattern(&rows(&f)), None, "code {code:#x}");
    }
}

#[test]
fn constant_tone_is_rejected() {
    let f = vec![ToneClass::Leader; HISTORY_LEN];
    assert_eq!(match_vis_pattern(&rows(&f)), None);
    let g = vec![ToneClass::Other; HISTORY_LEN];
    assert_eq!(match_vis_pattern(&rows(&g)), None);
}

#[test]
fn later_symbol_grid_matches_at_a_later_phase() {
    let f = frame(0x60);
    // Delay the frame by two hops: two more leader hops in front.
    let mut delayed = vec![ToneClass::Leader; 2];
    delayed.extend_from_slice(&f[..HISTORY_LEN - 2]);
    let m = match_vis_pattern(&rows(&delayed)).expect("delayed frame");
    assert_eq!(m, VisMatch { code: 0x60, leader_index: 0, phase: 2 });
}

#[test]
fn only_the_matching_leader_row_counts() {
    let f = frame(0x0C);
    let other = vec![ToneClass::Other; HISTORY_LEN];
    let m = match_vis_pattern(&vec![other.clone(), other, f.clone()]).expect("third leader");
    assert_eq!(m, VisMatch { code: 0x0C, leader_index: 2, phase: 0 });
}

#[test]
fn history_keeps_the_last_measurements_in_order() {
    let mut h: ToneHistory<i64> = ToneHistory::new(0);
    assert!(!h.is_full());
    for v in 1..=50 {
        h.push(Some(v));
    }
    assert!(h.is_full());
    let r = h.rotated();
    assert_eq!(r.len(), HISTORY_LEN);
    assert_eq!(r[0], 6);
    assert_eq!(r[HISTORY_LEN - 1], 50);
    // A missing measurement repeats the newest one.
    h.push(None);
    let r = h.rotated();
    assert_eq!(r[HISTORY_LEN - 1], 50);
    assert_eq!(r[HISTORY_LEN - 2], 50);
    assert_eq!(r[0], 7);
}

#[test]
fn fresh_history_holds_the_fill_value() {
    let mut h: ToneHistory<i64> = ToneHistory::new(-1);
    h.push(None);
    assert_eq!(h.rotated(), vec![-1; HISTORY_LEN]);
    assert!(!h.is_full());
}

#[test]
fn hop_schedule_tracks_buffer_origin() {
    let mut s = HopSchedule::new();
    s.anchor(1000, 300);
    assert_eq!(s.origin_sample, 700);
    assert_eq!(s.window_start(), 0);
    s.advance_hop();
    assert_eq!(s.hops_completed, 1);
    assert_eq!(s.retire_hop(0), 110);
    assert_eq!(s.origin_sample, 810);
    assert_eq!(s.retire_frame(2, 500), (330, 0));

    let mut t = HopSchedule::new();
    t.anchor(50, 100);
    assert_eq!(t.origin_sample, 0);
    for _ in 0..45 {
        t.advance_hop();
    }
    assert_eq!(t.window_start(), 4950);
    assert_eq!(t.retire_frame(1, 10_000), (5060, 5060));
    assert_eq!(t.origin_sample, 5060);
    let mut u = HopSchedule::new();
    u.hops_completed = 3;
    assert_eq!(u.retire_frame(0, 100), (330, 100));
}
