//! Sample-rate bounds of the resampler that brings caller audio to the
//! decoder's working rate.

use vstd::prelude::*;
use crate::error::Error;

verus! {

/// Working sample rate the decoder operates at internally. Any caller
/// sample rate is resampled to this before processing.
pub const WORKING_SAMPLE_RATE_HZ: u32 = 11_025;

/// Maximum supported caller input sample rate.
pub const MAX_INPUT_SAMPLE_RATE_HZ: u32 = 192_000;

/// Number of FIR taps of the polyphase resampler.
pub const FIR_TAPS: usize = 64;

/// Check a caller's input sample rate: it is accepted when it is positive
/// and at most [`MAX_INPUT_SAMPLE_RATE_HZ`].
pub fn validate_input_rate(input_rate: u32) -> (r: Result<u32, Error>)
    ensures
        0 < input_rate <= MAX_INPUT_SAMPLE_RATE_HZ ==> r == Ok::<u32, Error>(input_rate),
        !(0 < input_rate <= MAX_INPUT_SAMPLE_RATE_HZ)
            ==> r == Err::<u32, Error>(Error::InvalidSampleRate { got: input_rate }),
{
    if input_rate == 0 || input_rate > MAX_INPUT_SAMPLE_RATE_HZ {
        return Err(Error::InvalidSampleRate { got: input_rate });
    }
    Ok(input_rate)
}

/// Cutoff frequency of the anti-alias filter, in hundredths of a hertz:
/// 45% of the lower of the input and working rates, capped at 4500 Hz.
pub fn cutoff_centihz(input_rate: u32) -> (c: u32)
    ensures
        c as int == vstd::math::min(
            45 * vstd::math::min(input_rate as int, WORKING_SAMPLE_RATE_HZ as int),
            450_000,
        ),
{
    let r = if input_rate < WORKING_SAMPLE_RATE_HZ { input_rate } else { WORKING_SAMPLE_RATE_HZ };
    let c: u32 = 45 * r;
    if c < 450_000 { c } else { 450_000 }
}

} // verus!
