//! SSTV mode specifications: the timing and layout table of every mode the
//! decoder knows, keyed both by mode and by 7-bit VIS code.
//!
//! All durations are stored exactly, as whole nanoseconds. Every timing of
//! the table (down to Scottie DX's 1.08053 ms pixel) is a whole number of
//! nanoseconds, so no entry is rounded.

use vstd::prelude::*;

verus! {

/// SSTV operating mode.
#[non_exhaustive]
#[derive(Clone, Copy, Debug, PartialEq, Eq, Hash, Structural)]
pub enum SstvMode {
    /// PD-120 (640x496, about 120 s per image).
    Pd120,
    /// PD-180 (640x496, about 180 s per image).
    Pd180,
    /// PD-240 (640x496, about 240 s per image).
    Pd240,
    /// Robot 24 (320x240, about 24 s per image).
    Robot24,
    /// Robot 36 (320x240, about 36 s per image).
    Robot36,
    /// Robot 72 (320x240, about 72 s per image).
    Robot72,
    /// Scottie 1: VIS 0x3C, 320x256 GBR, 0.4320 ms per pixel.
    Scottie1,
    /// Scottie 2: VIS 0x38, 320x256 GBR, 0.2752 ms per pixel.
    Scottie2,
    /// Scottie DX: VIS 0x4C, 320x256 GBR, 1.08053 ms per pixel. The per-pixel
    /// demodulator uses one Hann window longer than the SNR asks for.
    ScottieDx,
}

/// Per-mode channel arrangement.
#[non_exhaustive]
#[derive(Clone, Copy, Debug, PartialEq, Eq, Hash, Structural)]
pub enum ChannelLayout {
    /// PD family: Y(odd), Cr, Cb, Y(even). One radio line carries two image
    /// rows that share their chroma.
    PdYcbcr,
    /// Robot family: Y plus chroma. Robot 24/36 carry one chroma channel per
    /// line, alternating Cr and Cb; Robot 72 carries Y, U and V on every line.
    RobotYuv,
    /// Sequential RGB: three channels per radio line (Scottie, Martin).
    RgbSequential,
}

/// Where the sync pulse sits within a radio line.
#[non_exhaustive]
#[derive(Clone, Copy, Debug, PartialEq, Eq, Hash, Structural)]
pub enum SyncPosition {
    /// Sync pulse at the start of each radio line (PD, Robot, Martin).
    LineStart,
    /// Sync pulse between the B and R channels (Scottie family).
    Scottie,
}

/// Mode timing and layout table entry. Durations are in nanoseconds.
#[non_exhaustive]
#[derive(Clone, Copy, Debug, PartialEq, Eq, Structural)]
pub struct ModeSpec {
    /// The mode this entry describes.
    pub mode: SstvMode,
    /// 7-bit VIS code identifying this mode on the wire.
    pub vis_code: u8,
    /// Visible image width in pixels.
    pub line_pixels: u32,
    /// Total visible scan lines per image.
    pub image_lines: u32,
    /// Total per-line duration including sync and porches.
    pub line_ns: u64,
    /// Sync pulse duration.
    pub sync_ns: u64,
    /// Porch (post-sync settling) duration.
    pub porch_ns: u64,
    /// Per-pixel duration within a colour channel.
    pub pixel_ns: u64,
    /// Channel separator pulse duration (zero for the PD family).
    pub septr_ns: u64,
    /// Channel layout used by the per-mode decoders.
    pub channel_layout: ChannelLayout,
    /// Where the sync pulse sits within a radio line.
    pub sync_position: SyncPosition,
}

/// The table entry of `mode` (VIS codes after Dave Jones, KB4YZ, 1998).
pub open spec fn spec_for_mode(mode: SstvMode) -> ModeSpec {
    match mode {
        SstvMode::Pd120 => ModeSpec {
            mode: SstvMode::Pd120, vis_code: 0x5F, line_pixels: 640, image_lines: 496,
            line_ns: 508_480_000, sync_ns: 20_000_000, porch_ns: 2_080_000,
            pixel_ns: 190_000, septr_ns: 0,
            channel_layout: ChannelLayout::PdYcbcr, sync_position: SyncPosition::LineStart,
        },
        SstvMode::Pd180 => ModeSpec {
            mode: SstvMode::Pd180, vis_code: 0x60, line_pixels: 640, image_lines: 496,
            line_ns: 754_240_000, sync_ns: 20_000_000, porch_ns: 2_080_000,
            pixel_ns: 286_000, septr_ns: 0,
            channel_layout: ChannelLayout::PdYcbcr, sync_position: SyncPosition::LineStart,
        },
        SstvMode::Pd240 => ModeSpec {
            mode: SstvMode::Pd240, vis_code: 0x61, line_pixels: 640, image_lines: 496,
            line_ns: 1_000_000_000, sync_ns: 20_000_000, porch_ns: 2_080_000,
            pixel_ns: 382_000, septr_ns: 0,
            channel_layout: ChannelLayout::PdYcbcr, sync_position: SyncPosition::LineStart,
        },
        SstvMode::Robot24 => ModeSpec {
            mode: SstvMode::Robot24, vis_code: 0x04, line_pixels: 320, image_lines: 240,
            line_ns: 150_000_000, sync_ns: 9_000_000, porch_ns: 3_000_000,
            pixel_ns: 137_500, septr_ns: 6_000_000,
            channel_layout: ChannelLayout::RobotYuv, sync_position: SyncPosition::LineStart,
        },
        SstvMode::Robot36 => ModeSpec {
            mode: SstvMode::Robot36, vis_code: 0x08, line_pixels: 320, image_lines: 240,
            line_ns: 150_000_000, sync_ns: 9_000_000, porch_ns: 3_000_000,
            pixel_ns: 137_500, septr_ns: 6_000_000,
            channel_layout: ChannelLayout::RobotYuv, sync_position: SyncPosition::LineStart,
        },
        SstvMode::Robot72 => ModeSpec {
            mode: SstvMode::Robot72, vis_code: 0x0C, line_pixels: 320, image_lines: 240,
            line_ns: 300_000_000, sync_ns: 9_000_000, porch_ns: 3_000_000,
            pixel_ns: 287_500, septr_ns: 4_700_000,
            channel_layout: ChannelLayout::RobotYuv, sync_position: SyncPosition::LineStart,
        },
        SstvMode::Scottie1 => ModeSpec {
            mode: SstvMode::Scottie1, vis_code: 0x3C, line_pixels: 320, image_lines: 256,
            line_ns: 428_380_000, sync_ns: 9_000_000, porch_ns: 1_500_000,
            pixel_ns: 432_000, septr_ns: 1_500_000,
            channel_layout: ChannelLayout::RgbSequential, sync_position: SyncPosition::Scottie,
        },
        SstvMode::Scottie2 => ModeSpec {
            mode: SstvMode::Scottie2, vis_code: 0x38, line_pixels: 320, image_lines: 256,
            line_ns: 277_692_000, sync_ns: 9_000_000, porch_ns: 1_500_000,
            pixel_ns: 275_200, septr_ns: 1_500_000,
            channel_layout: ChannelLayout::RgbSequential, sync_position: SyncPosition::Scottie,
        },
        SstvMode::ScottieDx => ModeSpec {
            mode: SstvMode::ScottieDx, vis_code: 0x4C, line_pixels: 320, image_lines: 256,
            line_ns: 1_050_300_000, sync_ns: 9_000_000, porch_ns: 1_500_000,
            pixel_ns: 1_080_530, septr_ns: 1_500_000,
            channel_layout: ChannelLayout::RgbSequential, sync_position: SyncPosition::Scottie,
        },
    }
}

/// `spec` is the table entry of its own mode.
pub open spec fn is_table_entry(spec: ModeSpec) -> bool {
    spec == spec_for_mode(spec.mode)
}

/// The PD family: PD120, PD180, PD240.
pub open spec fn is_pd_mode(mode: SstvMode) -> bool {
    mode == SstvMode::Pd120 || mode == SstvMode::Pd180 || mode == SstvMode::Pd240
}

/// The Scottie family: Scottie 1, Scottie 2, Scottie DX.
pub open spec fn is_scottie_mode(mode: SstvMode) -> bool {
    mode == SstvMode::Scottie1 || mode == SstvMode::Scottie2 || mode == SstvMode::ScottieDx
}

/// Look up the [`ModeSpec`] for a known [`SstvMode`].
pub fn for_mode(mode: SstvMode) -> (spec: ModeSpec)
    ensures
        spec == spec_for_mode(mode),
{
    match mode {
        SstvMode::Pd120 => ModeSpec {
            mode: SstvMode::Pd120, vis_code: 0x5F, line_pixels: 640, image_lines: 496,
            line_ns: 508_480_000, sync_ns: 20_000_000, porch_ns: 2_080_000,
            pixel_ns: 190_000, septr_ns: 0,
            channel_layout: ChannelLayout::PdYcbcr, sync_position: SyncPosition::LineStart,
        },
        SstvMode::Pd180 => ModeSpec {
            mode: SstvMode::Pd180, vis_code: 0x60, line_pixels: 640, image_lines: 496,
            line_ns: 754_240_000, sync_ns: 20_000_000, porch_ns: 2_080_000,
            pixel_ns: 286_000, septr_ns: 0,
            channel_layout: ChannelLayout::PdYcbcr, sync_position: SyncPosition::LineStart,
        },
        SstvMode::Pd240 => ModeSpec {
            mode: SstvMode::Pd240, vis_code: 0x61, line_pixels: 640, image_lines: 496,
            line_ns: 1_000_000_000, sync_ns: 20_000_000, porch_ns: 2_080_000,
            pixel_ns: 382_000, septr_ns: 0,
            channel_layout: ChannelLayout::PdYcbcr, sync_position: SyncPosition::LineStart,
        },
        SstvMode::Robot24 => ModeSpec {
            mode: SstvMode::Robot24, vis_code: 0x04, line_pixels: 320, image_lines: 240,
            line_ns: 150_000_000, sync_ns: 9_000_000, porch_ns: 3_000_000,
            pixel_ns: 137_500, septr_ns: 6_000_000,
            channel_layout: ChannelLayout::RobotYuv, sync_position: SyncPosition::LineStart,
        },
        SstvMode::Robot36 => ModeSpec {
            mode: SstvMode::Robot36, vis_code: 0x08, line_pixels: 320, image_lines: 240,
            line_ns: 150_000_000, sync_ns: 9_000_000, porch_ns: 3_000_000,
            pixel_ns: 137_500, septr_ns: 6_000_000,
            channel_layout: ChannelLayout::RobotYuv, sync_position: SyncPosition::LineStart,
        },
        SstvMode::Robot72 => ModeSpec {
            mode: SstvMode::Robot72, vis_code: 0x0C, line_pixels: 320, image_lines: 240,
            line_ns: 300_000_000, sync_ns: 9_000_000, porch_ns: 3_000_000,
            pixel_ns: 287_500, septr_ns: 4_700_000,
            channel_layout: ChannelLayout::RobotYuv, sync_position: SyncPosition::LineStart,
        },
        SstvMode::Scottie1 => ModeSpec {
            mode: SstvMode::Scottie1, vis_code: 0x3C, line_pixels: 320, image_lines: 256,
            line_ns: 428_380_000, sync_ns: 9_000_000, porch_ns: 1_500_000,
            pixel_ns: 432_000, septr_ns: 1_500_000,
            channel_layout: ChannelLayout::RgbSequential, sync_position: SyncPosition::Scottie,
        },
        SstvMode::Scottie2 => ModeSpec {
            mode: SstvMode::Scottie2, vis_code: 0x38, line_pixels: 320, image_lines: 256,
            line_ns: 277_692_000, sync_ns: 9_000_000, porch_ns: 1_500_000,
            pixel_ns: 275_200, septr_ns: 1_500_000,
            channel_layout: ChannelLayout::RgbSequential, sync_position: SyncPosition::Scottie,
        },
        SstvMode::ScottieDx => ModeSpec {
            mode: SstvMode::ScottieDx, vis_code: 0x4C, line_pixels: 320, image_lines: 256,
            line_ns: 1_050_300_000, sync_ns: 9_000_000, porch_ns: 1_500_000,
            pixel_ns: 1_080_530, septr_ns: 1_500_000,
            channel_layout: ChannelLayout::RgbSequential, sync_position: SyncPosition::Scottie,
        },
    }
}

/// The table entry whose VIS code is `vis_code`, if any mode carries it.
pub open spec fn spec_lookup(vis_code: u8) -> Option<ModeSpec> {
    if exists|m: SstvMode| #[trigger] spec_for_mode(m).vis_code == vis_code {
        Some(spec_for_mode(choose|m: SstvMode| #[trigger] spec_for_mode(m).vis_code == vis_code))
    } else {
        None
    }
}

/// Look up the [`ModeSpec`] for a 7-bit VIS code. Returns `None` when no
/// implemented mode carries that code (reserved, undefined, `0x00`).
pub fn lookup(vis_code: u8) -> (r: Option<ModeSpec>)
    ensures
        r == spec_lookup(vis_code),
        match r {
            Some(spec) => spec == spec_for_mode(spec.mode) && spec.vis_code == vis_code,
            None => forall|m: SstvMode| #[trigger] spec_for_mode(m).vis_code != vis_code,
        },
{
    let mode = match vis_code {
        0x04 => SstvMode::Robot24,
        0x08 => SstvMode::Robot36,
        0x0C => SstvMode::Robot72,
        0x38 => SstvMode::Scottie2,
        0x3C => SstvMode::Scottie1,
        0x4C => SstvMode::ScottieDx,
        0x5F => SstvMode::Pd120,
        0x60 => SstvMode::Pd180,
        0x61 => SstvMode::Pd240,
        _ => {
            assert forall|m: SstvMode| #[trigger] spec_for_mode(m).vis_code != vis_code by {
                match m {
                    SstvMode::Pd120 => {},
                    SstvMode::Pd180 => {},
                    SstvMode::Pd240 => {},
                    SstvMode::Robot24 => {},
                    SstvMode::Robot36 => {},
                    SstvMode::Robot72 => {},
                    SstvMode::Scottie1 => {},
                    SstvMode::Scottie2 => {},
                    SstvMode::ScottieDx => {},
                }
            }
            return None;
        },
    };
    let spec = for_mode(mode);
    proof {
        let m2 = choose|m: SstvMode| #[trigger] spec_for_mode(m).vis_code == vis_code;
        assert(spec_for_mode(mode).vis_code == vis_code);
        lemma_vis_codes_identify_modes(m2, mode);
    }
    Some(spec)
}

/// Looking up a mode's own VIS code gives back exactly its table entry.
pub proof fn lemma_lookup_inverts_for_mode(m: SstvMode)
    ensures
        spec_lookup(spec_for_mode(m).vis_code) == Some(spec_for_mode(m)),
{
    let code = spec_for_mode(m).vis_code;
    assert(spec_for_mode(m).vis_code == code);
    let m2 = choose|m3: SstvMode| #[trigger] spec_for_mode(m3).vis_code == code;
    lemma_vis_codes_identify_modes(m2, m);
}

/// Every mode's entry names that mode, and distinct modes carry distinct VIS
/// codes: looking up a mode's own VIS code gives back exactly its entry.
pub proof fn lemma_vis_codes_identify_modes(m1: SstvMode, m2: SstvMode)
    ensures
        spec_for_mode(m1).mode == m1,
        is_table_entry(spec_for_mode(m1)),
        spec_for_mode(m1).vis_code < 0x80,
        spec_for_mode(m1).vis_code == spec_for_mode(m2).vis_code ==> m1 == m2,
{
}

/// Separator pulses are absent from the whole PD family, PD modes (and only
/// they) use the paired-row YCbCr layout with an even number of image lines,
/// and only the Scottie family puts the sync pulse mid-line.
pub proof fn lemma_family_layouts(m: SstvMode)
    ensures
        is_pd_mode(m) ==> spec_for_mode(m).septr_ns == 0,
        is_pd_mode(m) <==> spec_for_mode(m).channel_layout == ChannelLayout::PdYcbcr,
        is_pd_mode(m) ==> spec_for_mode(m).image_lines % 2 == 0,
        is_scottie_mode(m) <==> spec_for_mode(m).sync_position == SyncPosition::Scottie,
{
}

/// Offset from the start of a radio line to the start of colour channel
/// `chan`: sync, porch, then `chan` channels of `line_pixels` pixels each,
/// each followed by a separator pulse.
///
/// Robot 24 and Robot 36 are the exception: their luma channel takes twice
/// the pixel time, and the single chroma channel follows it after one
/// separator pulse.
pub open spec fn spec_channel_start_ns(spec: ModeSpec, chan: int) -> int {
    if is_robot_alternating(spec.mode) {
        if chan == 0 {
            spec.sync_ns + spec.porch_ns
        } else {
            spec.sync_ns + spec.porch_ns + 2 * (spec.line_pixels * spec.pixel_ns) + spec.septr_ns
        }
    } else {
        spec.sync_ns + spec.porch_ns + chan * (spec.line_pixels * spec.pixel_ns + spec.septr_ns)
    }
}

/// Robot 24 and Robot 36: one luma channel at double pixel time, then one
/// chroma channel per line alternating Cr (even lines) and Cb (odd lines).
pub open spec fn is_robot_alternating(mode: SstvMode) -> bool {
    mode == SstvMode::Robot24 || mode == SstvMode::Robot36
}

/// Per-pixel duration of channel `chan`.
pub open spec fn spec_channel_pixel_ns(spec: ModeSpec, chan: int) -> int {
    if is_robot_alternating(spec.mode) && chan == 0 {
        2 * spec.pixel_ns
    } else {
        spec.pixel_ns as int
    }
}

/// The channel offsets of `spec` up to channel 3 fit in 64 bits.
pub open spec fn channel_offsets_fit(spec: ModeSpec) -> bool {
    spec_channel_start_ns(spec, 3) <= u64::MAX
}

/// Offset (ns) of colour channel `chan` from the start of a radio line, for
/// the layouts with the sync pulse at line start (PD: Y, Cr, Cb, Y; Robot 72:
/// Y, U, V; Robot 24/36: Y, chroma).
pub fn channel_start_ns(spec: &ModeSpec, chan: u32) -> (t: u64)
    requires
        chan <= 3,
        channel_offsets_fit(*spec),
    ensures
        t as int == spec_channel_start_ns(*spec, chan as int),
{
    proof {
        let w = spec.line_pixels as int;
        let p = spec.pixel_ns as int;
        let step = w * p + spec.septr_ns;
        assert(0 <= w * p) by (nonlinear_arith)
            requires 0 <= w, 0 <= p;
        assert(chan * step <= 3 * step) by (nonlinear_arith)
            requires chan <= 3, 0 <= step;
        assert(0 <= chan * step) by (nonlinear_arith)
            requires 0 <= chan, 0 <= step;
        assert(w * p <= 3 * step) by (nonlinear_arith)
            requires 0 <= w * p, w * p <= step;
    }
    let chan_len = spec.line_pixels as u64 * spec.pixel_ns;
    if spec.mode == SstvMode::Robot24 || spec.mode == SstvMode::Robot36 {
        if chan == 0 {
            spec.sync_ns + spec.porch_ns
        } else {
            spec.sync_ns + spec.porch_ns + 2 * chan_len + spec.septr_ns
        }
    } else {
        spec.sync_ns + spec.porch_ns + chan as u64 * (chan_len + spec.septr_ns)
    }
}

/// Per-pixel duration (ns) of colour channel `chan`: the mode's pixel time,
/// doubled for the luma channel of Robot 24 and Robot 36.
pub fn channel_pixel_ns(spec: &ModeSpec, chan: u32) -> (t: u64)
    requires
        spec.pixel_ns <= u64::MAX / 2,
    ensures
        t as int == spec_channel_pixel_ns(*spec, chan as int),
{
    if (spec.mode == SstvMode::Robot24 || spec.mode == SstvMode::Robot36) && chan == 0 {
        2 * spec.pixel_ns
    } else {
        spec.pixel_ns
    }
}

/// The table's channel offsets all fit in 64 bits, and for the PD family
/// (no separator pulses) channel `k` starts exactly `k` pixel rows after
/// the porch, as if no separator term were present.
pub proof fn lemma_channel_starts(m: SstvMode, k: int)
    ensures
        channel_offsets_fit(spec_for_mode(m)),
        is_pd_mode(m) ==> spec_channel_start_ns(spec_for_mode(m), k)
            == spec_for_mode(m).sync_ns + spec_for_mode(m).porch_ns
            + k * (spec_for_mode(m).line_pixels * spec_for_mode(m).pixel_ns),
{
    match m {
        SstvMode::Pd120 => {},
        SstvMode::Pd180 => {},
        SstvMode::Pd240 => {},
        SstvMode::Robot24 => {},
        SstvMode::Robot36 => {},
        SstvMode::Robot72 => {},
        SstvMode::Scottie1 => {},
        SstvMode::Scottie2 => {},
        SstvMode::ScottieDx => {},
    }
}

/// Colour channels per radio line: PD carries Y, Cr, Cb, Y; Robot 24/36
/// carry Y and one chroma channel; Robot 72 and the Scottie family three.
pub open spec fn channel_count(mode: SstvMode) -> int {
    if is_pd_mode(mode) {
        4
    } else if is_robot_alternating(mode) {
        2
    } else {
        3
    }
}

/// The channels of a line-start mode abut: channel `k + 1` starts where
/// channel `k` ends (its `line_pixels` pixels at its own pixel time) plus
/// one separator pulse. With the table's timings this fixes every pixel
/// time from the channel starts, e.g. Robot 24/36 luma at twice the chroma
/// pixel time.
pub proof fn lemma_channels_abut(m: SstvMode, k: int)
    requires
        !is_scottie_mode(m),
        0 <= k < channel_count(m) - 1,
    ensures
        ({
            let s = spec_for_mode(m);
            spec_channel_start_ns(s, k + 1) == spec_channel_start_ns(s, k)
                + s.line_pixels * spec_channel_pixel_ns(s, k) + s.septr_ns
        }),
{
    lemma_channels_abut_cases(m, k);
}

proof fn lemma_fill_arith(base: int, w: int, p: int, sp: int)
    requires
        sp == 0,
    ensures
        base + 3 * (w * p + sp) + w * p == base + 4 * w * p,
{
    assert(3 * (w * p) + w * p == 4 * w * p) by (nonlinear_arith);
}

proof fn lemma_channels_abut_cases(m: SstvMode, k: int)
    requires
        !is_scottie_mode(m),
        0 <= k < channel_count(m) - 1,
    ensures
        ({
            let s = spec_for_mode(m);
            spec_channel_start_ns(s, k + 1) == spec_channel_start_ns(s, k)
                + s.line_pixels * spec_channel_pixel_ns(s, k) + s.septr_ns
        }),
{
    let s = spec_for_mode(m);
    let w = s.line_pixels as int;
    let p = s.pixel_ns as int;
    let sp = s.septr_ns as int;
    if is_robot_alternating(m) {
        assert(w * (2 * p) == 2 * (w * p)) by (nonlinear_arith);
    } else {
        assert(spec_channel_pixel_ns(s, k) == p);
        assert((k + 1) * (w * p + sp) == k * (w * p + sp) + (w * p + sp)) by (nonlinear_arith);
    }
}

/// The channels of a line-start mode fit in its radio line, after the sync
/// pulse and porch; for PD and Robot 24/36 the last channel ends exactly
/// at the end of the line. In particular every PD line is sync, porch and
/// four channels of `line_pixels` pixels: `line_ns == sync_ns + porch_ns +
/// 4 * line_pixels * pixel_ns`.
pub proof fn lemma_channels_fill_line(m: SstvMode)
    requires
        !is_scottie_mode(m),
    ensures
        ({
            let s = spec_for_mode(m);
            let n = channel_count(m);
            let end = spec_channel_start_ns(s, n - 1) + s.line_pixels * spec_channel_pixel_ns(s, n - 1);
            &&& spec_channel_start_ns(s, 0) == s.sync_ns + s.porch_ns
            &&& end <= s.line_ns
            &&& m != SstvMode::Robot72 ==> end == s.line_ns
            &&& is_pd_mode(m) ==> s.line_ns == s.sync_ns + s.porch_ns + 4 * s.line_pixels * s.pixel_ns
        }),
{
    let s = spec_for_mode(m);
    let w = s.line_pixels as int;
    let p = s.pixel_ns as int;
    let sp = s.septr_ns as int;
    let base = s.sync_ns + s.porch_ns;
    let n = channel_count(m);
    let end = spec_channel_start_ns(s, n - 1) + s.line_pixels * spec_channel_pixel_ns(s, n - 1);
    if is_pd_mode(m) {
        assert(spec_channel_start_ns(s, 3) == base + 3 * (w * p + sp));
        assert(spec_channel_pixel_ns(s, 3) == p);
        lemma_fill_arith(base, w, p, sp);
        assert(end == base + 4 * w * p);
        assert(s.line_ns == base + 4 * w * p) by {
            match m {
                SstvMode::Pd120 => { assert(w * p == 121_600_000); },
                SstvMode::Pd180 => { assert(w * p == 183_040_000); },
                _ => { assert(w * p == 244_480_000); },
            }
            assert(4 * w * p == 4 * (w * p)) by (nonlinear_arith);
        }
    } else if is_robot_alternating(m) {
        assert(w * p == 44_000_000);
        assert(spec_channel_start_ns(s, 1) == 106_000_000);
        assert(spec_channel_pixel_ns(s, 1) == 137_500);
        assert(end == s.line_ns);
    } else {
        assert(w * p == 92_000_000);
        assert(end <= s.line_ns);
    }
}

/// Lower-case name of `mode` used in output file names.
pub open spec fn spec_mode_tag(mode: SstvMode) -> Seq<char> {
    match mode {
        SstvMode::Pd120 => seq!['p', 'd', '1', '2', '0'],
        SstvMode::Pd180 => seq!['p', 'd', '1', '8', '0'],
        SstvMode::Pd240 => seq!['p', 'd', '2', '4', '0'],
        SstvMode::Robot24 => seq!['r', 'o', 'b', 'o', 't', '2', '4'],
        SstvMode::Robot36 => seq!['r', 'o', 'b', 'o', 't', '3', '6'],
        SstvMode::Robot72 => seq!['r', 'o', 'b', 'o', 't', '7', '2'],
        SstvMode::Scottie1 => seq!['s', 'c', 'o', 't', 't', 'i', 'e', '1'],
        SstvMode::Scottie2 => seq!['s', 'c', 'o', 't', 't', 'i', 'e', '2'],
        SstvMode::ScottieDx => seq!['s', 'c', 'o', 't', 't', 'i', 'e', 'd', 'x'],
    }
}

/// Lower-case name of `mode` used in output file names (`img-001-pd120.png`).
pub fn mode_tag(mode: SstvMode) -> (tag: &'static str)
    ensures
        tag@ == spec_mode_tag(mode),
{
    match mode {
        SstvMode::Pd120 => { proof { reveal_strlit("pd120"); } "pd120" },
        SstvMode::Pd180 => { proof { reveal_strlit("pd180"); } "pd180" },
        SstvMode::Pd240 => { proof { reveal_strlit("pd240"); } "pd240" },
        SstvMode::Robot24 => { proof { reveal_strlit("robot24"); } "robot24" },
        SstvMode::Robot36 => { proof { reveal_strlit("robot36"); } "robot36" },
        SstvMode::Robot72 => { proof { reveal_strlit("robot72"); } "robot72" },
        SstvMode::Scottie1 => { proof { reveal_strlit("scottie1"); } "scottie1" },
        SstvMode::Scottie2 => { proof { reveal_strlit("scottie2"); } "scottie2" },
        SstvMode::ScottieDx => { proof { reveal_strlit("scottiedx"); } "scottiedx" },
    }
}

} // verus!
