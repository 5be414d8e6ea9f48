//! Bandwidth bookkeeping of the SNR estimator.
//!
//! The estimator integrates FFT power over the video band (1500-2300 Hz)
//! and over the noise-only bands (400-800 Hz and 2700-3400 Hz), and
//! corrects both sums by the number of bins each band spans. The bin
//! indices truncate toward zero.

use vstd::prelude::*;
use crate::resample::WORKING_SAMPLE_RATE_HZ;

pub use crate::demod::HANN_LENS;
pub use crate::demod::window_idx_for_snr;
pub use crate::demod::window_idx_for_snr_with_hysteresis;

verus! {

/// FFT length of the SNR estimator.
pub const FFT_LEN: usize = 256;

/// Bin of a whole-hertz frequency in the SNR estimator's FFT, truncated
/// and capped at the last bin below Nyquist.
pub open spec fn snr_bin(hz: int) -> int {
    vstd::math::min((hz * FFT_LEN) / WORKING_SAMPLE_RATE_HZ as int, (FFT_LEN / 2 - 1) as int)
}

/// Bin counts of the bandwidth correction.
#[derive(Clone, Copy, Debug, PartialEq, Eq, Structural)]
pub struct BandwidthBins {
    /// Bins of the video band 1500-2300 Hz, both ends included.
    pub video_plus_noise: u64,
    /// Bins of the noise bands 400-800 Hz and 2700-3400 Hz, ends included.
    pub noise_only: u64,
    /// Bins of the whole receiver band, 400 to 3400 Hz.
    pub receiver: u64,
}

fn capped_bin(hz: u32) -> (b: u64)
    requires
        hz <= 4000,
    ensures
        b as int == snr_bin(hz as int),
{
    let b = crate::get_bin(hz, FFT_LEN as u32, WORKING_SAMPLE_RATE_HZ);
    if b < (FFT_LEN / 2 - 1) as u64 { b } else { (FFT_LEN / 2 - 1) as u64 }
}

/// The bin counts of the SNR bandwidth correction, measured on the
/// unshifted bands.
pub fn bandwidth_bins() -> (bins: BandwidthBins)
    ensures
        bins.video_plus_noise == snr_bin(2300) - snr_bin(1500) + 1,
        bins.noise_only == (snr_bin(800) - snr_bin(400) + 1) + (snr_bin(3400) - snr_bin(2700) + 1),
        bins.receiver == snr_bin(3400) - snr_bin(400),
{
    let v_lo = capped_bin(1500);
    let v_hi = capped_bin(2300);
    let a_lo = capped_bin(400);
    let a_hi = capped_bin(800);
    let b_lo = capped_bin(2700);
    let b_hi = capped_bin(3400);
    assert(v_lo == 34 && v_hi == 53 && a_lo == 9 && a_hi == 18 && b_lo == 62 && b_hi == 78);
    BandwidthBins {
        video_plus_noise: v_hi - v_lo + 1,
        noise_only: (a_hi - a_lo + 1) + (b_hi - b_lo + 1),
        receiver: b_hi - a_lo,
    }
}

} // verus!
