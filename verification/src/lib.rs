//! Verified core of an SSTV (slow-scan television) decoder.

use vstd::prelude::*;

pub mod decoder;
pub mod demod;
pub mod error;
pub mod image;
pub mod mode_pd;
pub mod mode_robot;
pub mod modespec;
pub mod resample;
pub mod snr;
pub mod sync;
pub mod vis;

verus! {

/// Map a whole-hertz frequency to its FFT bin, truncating toward zero.
pub fn get_bin(hz: u32, fft_len: u32, sample_rate_hz: u32) -> (bin: u64)
    requires
        sample_rate_hz > 0,
    ensures
        bin as int == (hz as int * fft_len as int) / sample_rate_hz as int,
{
    proof {
        vstd::arithmetic::mul::lemma_mul_upper_bound(hz as int, u32::MAX as int, fft_len as int, u32::MAX as int);
    }
    (hz as u64 * fft_len as u64) / sample_rate_hz as u64
}

} // verus!
