//! SNR-adaptive selection of the per-pixel Hann window.
//!
//! The per-pixel demodulator picks one of seven Hann windows: short windows
//! when the signal is clean (sharp time resolution), long ones when it is
//! noisy (more noise rejection). SNR values are fixed-point, in thousandths
//! of a decibel ("mdB"): every threshold of the selector and the 0.5 dB
//! hysteresis half-band are whole numbers of mdB.

use vstd::prelude::*;
use crate::modespec::SstvMode;

verus! {

/// Hann-window lengths at the 11 025 Hz working rate. Index 6 is the
/// longest, lowest-SNR window.
pub const HANN_LENS: [usize; 7] = [12, 16, 24, 32, 64, 128, 256];

/// Number of windows in the bank.
pub const N_WINDOWS: usize = 7;

/// Half of the hysteresis band, in mdB (0.5 dB).
pub const HYSTERESIS_HALF_MDB: i64 = 500;

/// The window index for an SNR of `snr_mdb`:
/// SNR >= 20 dB gives 0, >= 10 dB gives 1, >= 9 dB gives 2, >= 3 dB gives 3,
/// >= -5 dB gives 4, >= -10 dB gives 5, anything lower gives 6.
pub open spec fn spec_window_idx(snr_mdb: int) -> int {
    if snr_mdb >= 20_000 {
        0
    } else if snr_mdb >= 10_000 {
        1
    } else if snr_mdb >= 9_000 {
        2
    } else if snr_mdb >= 3_000 {
        3
    } else if snr_mdb >= -5_000 {
        4
    } else if snr_mdb >= -10_000 {
        5
    } else {
        6
    }
}

/// Lowest SNR (mdB) at which the window index is at most `k` (`k < 6`).
pub open spec fn band_floor_mdb(k: int) -> int {
    if k == 0 {
        20_000
    } else if k == 1 {
        10_000
    } else if k == 2 {
        9_000
    } else if k == 3 {
        3_000
    } else if k == 4 {
        -5_000
    } else {
        -10_000
    }
}

/// One step of the hysteresis selector: move at most one band from
/// `prev_idx` toward the plain selection, and only when the SNR shifted
/// 0.5 dB against the move still lands on the far side of the boundary.
pub open spec fn spec_hysteresis_step(snr_mdb: int, prev_idx: int) -> int {
    let baseline = spec_window_idx(snr_mdb);
    if baseline == prev_idx {
        prev_idx
    } else if baseline > prev_idx {
        if spec_window_idx(snr_mdb + HYSTERESIS_HALF_MDB) >= prev_idx + 1 {
            prev_idx + 1
        } else {
            prev_idx
        }
    } else {
        if spec_window_idx(snr_mdb - HYSTERESIS_HALF_MDB) <= prev_idx - 1 {
            prev_idx - 1
        } else {
            prev_idx
        }
    }
}

/// `n` successive hysteresis steps at a constant SNR.
pub open spec fn spec_hysteresis_iterate(snr_mdb: int, prev_idx: int, n: nat) -> int
    decreases n,
{
    if n == 0 {
        prev_idx
    } else {
        spec_hysteresis_iterate(snr_mdb, spec_hysteresis_step(snr_mdb, prev_idx), (n - 1) as nat)
    }
}

/// Pick the SNR-adaptive Hann-window index.
pub fn window_idx_for_snr(snr_mdb: i64) -> (idx: usize)
    ensures
        idx as int == spec_window_idx(snr_mdb as int),
        idx < N_WINDOWS,
{
    if snr_mdb >= 20_000 {
        0
    } else if snr_mdb >= 10_000 {
        1
    } else if snr_mdb >= 9_000 {
        2
    } else if snr_mdb >= 3_000 {
        3
    } else if snr_mdb >= -5_000 {
        4
    } else if snr_mdb >= -10_000 {
        5
    } else {
        6
    }
}

/// Hysteresis variant of [`window_idx_for_snr`]. `prev_idx` is the window
/// index used by the previous FFT of this channel. A change of window needs
/// the SNR to be 0.5 dB past the boundary in the direction of the change,
/// which puts a 1 dB hysteresis band around every threshold, and the
/// selection moves by at most one band per call.
pub fn window_idx_for_snr_with_hysteresis(snr_mdb: i64, prev_idx: usize) -> (idx: usize)
    ensures
        idx as int == spec_hysteresis_step(snr_mdb as int, prev_idx as int),
{
    let baseline = window_idx_for_snr(snr_mdb);
    if baseline == prev_idx {
        return prev_idx;
    }
    let target_idx = if baseline > prev_idx {
        prev_idx + 1
    } else {
        prev_idx - 1
    };
    let shifted_snr = if target_idx < prev_idx {
        if snr_mdb < i64::MIN + HYSTERESIS_HALF_MDB { i64::MIN } else { snr_mdb - HYSTERESIS_HALF_MDB }
    } else {
        if snr_mdb > i64::MAX - HYSTERESIS_HALF_MDB { i64::MAX } else { snr_mdb + HYSTERESIS_HALF_MDB }
    };
    let shifted_idx = window_idx_for_snr(shifted_snr);
    let robust = if target_idx < prev_idx {
        shifted_idx <= target_idx
    } else {
        shifted_idx >= target_idx
    };
    if robust {
        target_idx
    } else {
        prev_idx
    }
}

/// The window actually used for a pixel: Scottie DX integrates one window
/// longer than the SNR selection, unless that is already the longest.
pub fn pixel_window_idx(mode: SstvMode, snr_idx: usize) -> (idx: usize)
    ensures
        idx as int == (if mode == SstvMode::ScottieDx && snr_idx < N_WINDOWS - 1 {
            snr_idx + 1
        } else {
            snr_idx as int
        }),
{
    if mode == SstvMode::ScottieDx && snr_idx < N_WINDOWS - 1 {
        snr_idx + 1
    } else {
        snr_idx
    }
}

/// The plain selection is monotone (a better SNR never asks for a longer
/// window), lies in `0..=6`, and is at most `k` exactly when the SNR reaches
/// the floor of band `k`.
pub proof fn lemma_window_idx_monotone(s1: int, s2: int, k: int)
    ensures
        s1 <= s2 ==> spec_window_idx(s2) <= spec_window_idx(s1),
        0 <= spec_window_idx(s1) <= 6,
        0 <= k < 6 ==> (spec_window_idx(s1) <= k <==> s1 >= band_floor_mdb(k)),
{
}

/// A hysteresis step never moves more than one band, never moves away from
/// the plain selection nor past it, and stays put when the previous window
/// already is the plain selection.
pub proof fn lemma_hysteresis_moves_toward_baseline(snr_mdb: int, prev_idx: int)
    ensures
        ({
            let r = spec_hysteresis_step(snr_mdb, prev_idx);
            let b = spec_window_idx(snr_mdb);
            &&& prev_idx - 1 <= r <= prev_idx + 1
            &&& (prev_idx <= b ==> prev_idx <= r <= b)
            &&& (b <= prev_idx ==> b <= r <= prev_idx)
            &&& (b == prev_idx ==> r == prev_idx)
        }),
{
}

/// The 1 dB hysteresis band: once the selector has moved from `p` to a
/// shorter window `p - 1` at SNR `s1`, moving back from `p - 1` to `p` takes
/// an SNR `s2` more than 1 dB lower, and symmetrically for moves to a
/// longer window. No SNR jitter of 1 dB or less can make it flip-flop.
pub proof fn lemma_hysteresis_band(s1: int, s2: int, p: int)
    ensures
        spec_hysteresis_step(s1, p) == p - 1 && spec_hysteresis_step(s2, p - 1) == p
            ==> s1 - s2 > 2 * HYSTERESIS_HALF_MDB,
        spec_hysteresis_step(s1, p) == p + 1 && spec_hysteresis_step(s2, p + 1) == p
            ==> s2 - s1 > 2 * HYSTERESIS_HALF_MDB,
{
    lemma_window_idx_monotone(s1 - HYSTERESIS_HALF_MDB, s2 + HYSTERESIS_HALF_MDB, p - 1);
    lemma_window_idx_monotone(s2 - HYSTERESIS_HALF_MDB, s1 + HYSTERESIS_HALF_MDB, p);
}

/// Convergence: when the SNR sits at least 0.5 dB inside its band, repeated
/// selection from any valid window index reaches the plain selection after
/// as many calls as bands lie between them, one band per call, and stays.
pub proof fn lemma_hysteresis_converges(snr_mdb: int, prev_idx: int, extra: nat)
    requires
        0 <= prev_idx <= 6,
        spec_window_idx(snr_mdb - HYSTERESIS_HALF_MDB) == spec_window_idx(snr_mdb),
        spec_window_idx(snr_mdb + HYSTERESIS_HALF_MDB) == spec_window_idx(snr_mdb),
    ensures
        ({
            let b = spec_window_idx(snr_mdb);
            let n = if prev_idx <= b { b - prev_idx } else { prev_idx - b };
            spec_hysteresis_iterate(snr_mdb, prev_idx, (n + extra) as nat) == b
        }),
    decreases (if prev_idx <= spec_window_idx(snr_mdb) {
        spec_window_idx(snr_mdb) - prev_idx
    } else {
        prev_idx - spec_window_idx(snr_mdb)
    }) + extra,
{
    let b = spec_window_idx(snr_mdb);
    let n = if prev_idx <= b { b - prev_idx } else { prev_idx - b };
    if n + extra == 0 {
    } else if n == 0 {
        lemma_hysteresis_converges(snr_mdb, prev_idx, (extra - 1) as nat);
    } else {
        let next = spec_hysteresis_step(snr_mdb, prev_idx);
        assert(next == if prev_idx < b { prev_idx + 1 } else { prev_idx - 1 });
        lemma_hysteresis_converges(snr_mdb, next, extra);
    }
}

/// Luminance of the per-sample track at absolute sample `t`, when the
/// track (which starts at absolute sample `start`) covers it, else black.
pub open spec fn track_value(track: Seq<u8>, start: int, t: int) -> u8 {
    if start <= t < start + track.len() {
        track[t - start]
    } else {
        0
    }
}

/// Read the pixels of one channel off the per-sample luminance track:
/// pixel `x` takes the track's value at absolute sample `times[x]`, black
/// where the track does not reach.
pub fn read_pixels(track: &Vec<u8>, track_start: i64, times: &Vec<i64>) -> (pixels: Vec<u8>)
    ensures
        pixels@.len() == times@.len(),
        forall|x: int| 0 <= x < times@.len() ==> #[trigger] pixels@[x] == track_value(
            track@, track_start as int, times@[x] as int),
{
    let mut out: Vec<u8> = Vec::new();
    let mut x: usize = 0;
    while x < times.len()
        invariant
            x <= times@.len(),
            out@.len() == x,
            forall|k: int| 0 <= k < x ==> #[trigger] out@[k] == track_value(
                track@, track_start as int, times@[k] as int),
        decreases times@.len() - x,
    {
        let t = times[x];
        let rel: i128 = t as i128 - track_start as i128;
        let v = if rel >= 0 && rel < track.len() as i128 {
            track[rel as usize]
        } else {
            0
        };
        out.push(v);
        x = x + 1;
    }
    out
}

} // verus!
