//! Colour conversion of the PD family (shared with Robot 72): the YCbCr
//! to RGB matrix with round-to-nearest and clipping.

use vstd::prelude::*;

verus! {

/// `n / 100` rounded to the nearest integer (halves upward) and clipped to
/// the byte range `0..=255`.
pub open spec fn clip_round_percent(n: int) -> int {
    if n < 0 {
        0
    } else if n > 25_500 {
        255
    } else {
        (n + 50) / 100
    }
}

/// Numerator (over 100) of the red channel.
pub open spec fn red_numerator(y: int, cr: int) -> int {
    100 * y + 140 * cr - 17_850
}

/// Numerator (over 100) of the green channel.
pub open spec fn green_numerator(y: int, cr: int, cb: int) -> int {
    100 * y - 71 * cr - 33 * cb + 13_260
}

/// Numerator (over 100) of the blue channel.
pub open spec fn blue_numerator(y: int, cb: int) -> int {
    100 * y + 178 * cb - 22_695
}

/// `rgb` is the colour of luma `y` and chroma `cr`, `cb`.
pub open spec fn is_ycbcr_colour(rgb: [u8; 3], y: int, cr: int, cb: int) -> bool {
    &&& rgb[0] as int == clip_round_percent(red_numerator(y, cr))
    &&& rgb[1] as int == clip_round_percent(green_numerator(y, cr, cb))
    &&& rgb[2] as int == clip_round_percent(blue_numerator(y, cb))
}

/// Round `n / 100` to the nearest byte value, clipping out-of-range values.
fn clip_percent(n: i32) -> (v: u8)
    ensures
        v as int == clip_round_percent(n as int),
{
    if n < 0 {
        0
    } else if n > 25_500 {
        255
    } else {
        ((n + 50) / 100) as u8
    }
}

/// Convert a PD-family `[Y, Cr, Cb]` triple to `[R, G, B]`:
/// `R = (100Y + 140Cr - 17850) / 100`, `G = (100Y - 71Cr - 33Cb + 13260) / 100`,
/// `B = (100Y + 178Cb - 22695) / 100`, each rounded to the nearest integer
/// and clipped to `0..=255`.
pub fn ycbcr_to_rgb(y: u8, cr: u8, cb: u8) -> (rgb: [u8; 3])
    ensures
        rgb[0] as int == clip_round_percent(red_numerator(y as int, cr as int)),
        rgb[1] as int == clip_round_percent(green_numerator(y as int, cr as int, cb as int)),
        rgb[2] as int == clip_round_percent(blue_numerator(y as int, cb as int)),
        is_ycbcr_colour(rgb, y as int, cr as int, cb as int),
        ({
            let r = 100 * y + 140 * cr - 17_850;
            rgb[0] as int == if r < 0 { 0 } else if r > 25_500 { 255 } else { (r + 50) / 100 }
        }),
        ({
            let g = 100 * y - 71 * cr - 33 * cb + 13_260;
            rgb[1] as int == if g < 0 { 0 } else if g > 25_500 { 255 } else { (g + 50) / 100 }
        }),
        ({
            let b = 100 * y + 178 * cb - 22_695;
            rgb[2] as int == if b < 0 { 0 } else if b > 25_500 { 255 } else { (b + 50) / 100 }
        }),
{
    let yi = y as i32;
    let cri = cr as i32;
    let cbi = cb as i32;
    let r = clip_percent(100 * yi + 140 * cri - 17_850);
    let g = clip_percent(100 * yi - 71 * cri - 33 * cbi + 13_260);
    let b = clip_percent(100 * yi + 178 * cbi - 22_695);
    [r, g, b]
}

/// The colour matrix in full: every RGB triple that is the colour of
/// `(y, cr, cb)` has red `(100Y + 140Cr - 17850) / 100`, green
/// `(100Y - 71Cr - 33Cb + 13260) / 100` and blue `(100Y + 178Cb - 22695) / 100`,
/// each rounded half-up and clipped to `0..=255`. Green falls by 0.71 per
/// step of Cr and by 0.33 per step of Cb.
pub proof fn lemma_ycbcr_matrix(rgb: [u8; 3], y: int, cr: int, cb: int)
    requires
        is_ycbcr_colour(rgb, y, cr, cb),
    ensures
        ({
            let r = 100 * y + 140 * cr - 17_850;
            rgb[0] as int == if r < 0 { 0 } else if r > 25_500 { 255 } else { (r + 50) / 100 }
        }),
        ({
            let g = 100 * y - 71 * cr - 33 * cb + 13_260;
            rgb[1] as int == if g < 0 { 0 } else if g > 25_500 { 255 } else { (g + 50) / 100 }
        }),
        ({
            let b = 100 * y + 178 * cb - 22_695;
            rgb[2] as int == if b < 0 { 0 } else if b > 25_500 { 255 } else { (b + 50) / 100 }
        }),
{
}

/// Raising Cr by one step lowers green's numerator by 71 and raising Cb by
/// one step lowers it by 33; red depends on Cr alone and blue on Cb alone.
pub proof fn lemma_ycbcr_slopes(y: int, cr: int, cb: int)
    ensures
        green_numerator(y, cr + 1, cb) == green_numerator(y, cr, cb) - 71,
        green_numerator(y, cr, cb + 1) == green_numerator(y, cr, cb) - 33,
        green_numerator(y + 1, cr, cb) == green_numerator(y, cr, cb) + 100,
        red_numerator(y, cr + 1) == red_numerator(y, cr) + 140,
        blue_numerator(y, cb + 1) == blue_numerator(y, cb) + 178,
        red_numerator(y, 128) == 100 * y + 70,
        green_numerator(y, 128, 128) == 100 * y - 52,
        blue_numerator(y, 128) == 100 * y + 89,
{
}

} // verus!
