//! Decoder planning: how much audio one image spans.

use vstd::prelude::*;
use crate::modespec::{ChannelLayout, ModeSpec};
use crate::resample::WORKING_SAMPLE_RATE_HZ;

verus! {

/// Radio lines (frames) that make up one image: PD packs two image rows
/// into each radio line, every other layout one.
pub open spec fn spec_radio_frames(spec: ModeSpec) -> int {
    if spec.channel_layout == ChannelLayout::PdYcbcr {
        (spec.image_lines / 2) as int
    } else {
        spec.image_lines as int
    }
}

/// Working-rate samples spanned by one image: its radio lines times the
/// line time, truncated.
pub open spec fn spec_target_samples(spec: ModeSpec) -> int {
    (spec_radio_frames(spec) * spec.line_ns * WORKING_SAMPLE_RATE_HZ) / 1_000_000_000
}

/// Radio lines that make up one image of `spec`'s mode.
pub fn radio_frames_per_image(spec: &ModeSpec) -> (n: u32)
    ensures
        n as int == spec_radio_frames(*spec),
{
    match spec.channel_layout {
        ChannelLayout::PdYcbcr => spec.image_lines / 2,
        _ => spec.image_lines,
    }
}

/// Working-rate samples the decoder buffers before it locates the sync
/// pulses and decodes the image.
pub fn target_audio_samples(spec: &ModeSpec) -> (n: usize)
    requires
        spec_target_samples(*spec) <= usize::MAX,
    ensures
        n as int == spec_target_samples(*spec),
{
    let frames = radio_frames_per_image(spec);
    proof {
        let f = frames as int;
        let l = spec.line_ns as int;
        assert(0 <= f * l <= u32::MAX as int * u64::MAX as int) by (nonlinear_arith)
            requires 0 <= f <= u32::MAX, 0 <= l <= u64::MAX;
        assert(0 <= f * l * 11_025 <= u32::MAX as int * u64::MAX as int * 11_025) by (nonlinear_arith)
            requires 0 <= f * l <= u32::MAX as int * u64::MAX as int;
    }
    let total: u128 = frames as u128 * spec.line_ns as u128 * WORKING_SAMPLE_RATE_HZ as u128;
    (total / 1_000_000_000) as usize
}

} // verus!
