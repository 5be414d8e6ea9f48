//! Chroma bookkeeping of Robot 24 and Robot 36.
//!
//! Each radio line carries the luma of one image row plus a single chroma
//! channel: Cr on even lines, Cb on odd lines. Every chroma sample is also
//! copied to the next image row, so row `N` is coloured with its own chroma
//! channel and the other one, which line `N - 1` left behind.

use vstd::prelude::*;
use crate::mode_pd::{is_ycbcr_colour, ycbcr_to_rgb};

verus! {

/// Cr and Cb planes of an image being decoded, row-major, one byte per
/// pixel.
pub struct ChromaPlanes {
    width: u32,
    lines: u32,
    cr: Vec<u8>,
    cb: Vec<u8>,
}

/// `plane` with row `line` (and row `line + 1`, when it exists) replaced
/// by `chroma`.
pub open spec fn with_line_chroma(plane: Seq<u8>, width: int, lines: int, line: int, chroma: Seq<u8>) -> Seq<u8> {
    Seq::new(
        plane.len(),
        |i: int|
            if i / width == line || (i / width == line + 1 && line + 1 < lines) {
                chroma[i % width]
            } else {
                plane[i]
            },
    )
}

impl ChromaPlanes {
    /// Internal consistency: both planes hold `width * lines` samples.
    pub closed spec fn wf(self) -> bool {
        &&& self.cr@.len() == self.width * self.lines
        &&& self.cb@.len() == self.width * self.lines
    }

    /// The Cr plane.
    pub closed spec fn cr_plane(self) -> Seq<u8> {
        self.cr@
    }

    /// The Cb plane.
    pub closed spec fn cb_plane(self) -> Seq<u8> {
        self.cb@
    }

    /// Image width.
    pub closed spec fn spec_width(self) -> nat {
        self.width as nat
    }

    /// Image height.
    pub closed spec fn spec_lines(self) -> nat {
        self.lines as nat
    }

    /// Zeroed planes for a `width` x `lines` image.
    pub fn new(width: u32, lines: u32) -> (p: Self)
        requires
            width as int * lines as int <= usize::MAX,
        ensures
            p.wf(),
            p.spec_width() == width,
            p.spec_lines() == lines,
            p.cr_plane() == Seq::new((width * lines) as nat, |i: int| 0u8),
            p.cb_plane() == Seq::new((width * lines) as nat, |i: int| 0u8),
    {
        let n = width as usize * lines as usize;
        let mut cr: Vec<u8> = Vec::new();
        let mut cb: Vec<u8> = Vec::new();
        let mut i: usize = 0;
        while i < n
            invariant
                i <= n,
                n == width * lines,
                cr@ == Seq::new(i as nat, |k: int| 0u8),
                cb@ == Seq::new(i as nat, |k: int| 0u8),
            decreases n - i,
        {
            cr.push(0);
            cb.push(0);
            i = i + 1;
            assert(cr@ =~= Seq::new(i as nat, |k: int| 0u8));
            assert(cb@ =~= Seq::new(i as nat, |k: int| 0u8));
        }
        ChromaPlanes { width, lines, cr, cb }
    }

    /// Store the chroma channel decoded from radio line `line`: Cr when the
    /// line is even, Cb when it is odd, into that line's row and the next.
    pub fn store_line(&mut self, line: u32, chroma: &Vec<u8>)
        requires
            old(self).wf(),
            line < old(self).spec_lines(),
            chroma@.len() == old(self).spec_width(),
        ensures
            final(self).wf(),
            final(self).spec_width() == old(self).spec_width(),
            final(self).spec_lines() == old(self).spec_lines(),
            line % 2 == 0 ==> final(self).cr_plane() == with_line_chroma(
                old(self).cr_plane(), old(self).spec_width() as int, old(self).spec_lines() as int,
                line as int, chroma@,
            ),
            line % 2 == 0 ==> final(self).cb_plane() == old(self).cb_plane(),
            line % 2 == 1 ==> final(self).cb_plane() == with_line_chroma(
                old(self).cb_plane(), old(self).spec_width() as int, old(self).spec_lines() as int,
                line as int, chroma@,
            ),
            line % 2 == 1 ==> final(self).cr_plane() == old(self).cr_plane(),
    {
        let ghost w = self.width as int;
        let ghost l = self.lines as int;
        let two_rows = line + 1 < self.lines;
        if line % 2 == 0 {
            let ghost orig = self.cr@;
            write_line_rows(&mut self.cr, self.width, self.lines, line, two_rows, chroma);
            proof { lemma_rows_match_line_chroma(orig, self.cr@, w, l, line as int, chroma@); }
        } else {
            let ghost orig = self.cb@;
            write_line_rows(&mut self.cb, self.width, self.lines, line, two_rows, chroma);
            proof { lemma_rows_match_line_chroma(orig, self.cb@, w, l, line as int, chroma@); }
        }
    }

    /// Colour row `line` from its luma `y` and the Cr and Cb stored for it.
    pub fn compose_row(&self, line: u32, y: &Vec<u8>) -> (rgb: Vec<[u8; 3]>)
        requires
            self.wf(),
            line < self.spec_lines(),
            y@.len() == self.spec_width(),
        ensures
            rgb@.len() == self.spec_width(),
            forall|x: int| 0 <= x < self.spec_width() ==> #[trigger] is_ycbcr_colour(
                rgb@[x],
                y@[x] as int,
                self.cr_plane()[line * self.spec_width() + x] as int,
                self.cb_plane()[line * self.spec_width() + x] as int,
            ),
    {
        let w = self.width as usize;
        let plen = self.cr.len();
        proof {
            lemma_row_bounds(line as int, self.width as int, self.lines as int);
        }
        let base = line as usize * w;
        let mut out: Vec<[u8; 3]> = Vec::new();
        let mut x: usize = 0;
        while x < w
            invariant
                x <= w,
                w == self.width,
                base == line * self.width,
                base + w <= self.cr@.len(),
                self.cr@.len() == plen,
                self.cr@.len() == self.cb@.len(),
                y@.len() == w,
                out@.len() == x,
                forall|x2: int| 0 <= x2 < x ==> #[trigger] is_ycbcr_colour(
                    out@[x2],
                    y@[x2] as int,
                    self.cr@[line * self.width + x2] as int,
                    self.cb@[line * self.width + x2] as int,
                ),
            decreases w - x,
        {
            let px = ycbcr_to_rgb(y[x], self.cr[base + x], self.cb[base + x]);
            out.push(px);
            x = x + 1;
        }
        out
    }
}

/// Rows `row..row+1` lie inside a `width * lines` plane.
proof fn lemma_row_bounds(row: int, width: int, lines: int)
    requires
        0 <= row < lines,
        0 <= width,
    ensures
        0 <= row * width,
        row * width + width <= width * lines,
{
    assert(0 <= row * width) by (nonlinear_arith)
        requires 0 <= row, 0 <= width;
    assert(row * width + width <= width * lines) by (nonlinear_arith)
        requires row < lines, 0 <= width;
}

/// Index `i` lies in row `row` of a plane of width `width` exactly when it
/// lies in `[row * width, row * width + width)`, and then `i % width` is its
/// offset in the row.
proof fn lemma_in_row(i: int, width: int, row: int)
    requires
        width > 0,
        0 <= i,
    ensures
        (i / width == row) <==> (row * width <= i < row * width + width),
        i / width == row ==> i % width == i - row * width,
{
    vstd::arithmetic::div_mod::lemma_fundamental_div_mod(i, width);
    vstd::arithmetic::div_mod::lemma_mod_bound(i, width);
    if row * width <= i < row * width + width {
        vstd::arithmetic::div_mod::lemma_fundamental_div_mod_converse(i, width, row, i - row * width);
    }
    if i / width == row {
        assert(width * (i / width) == row * width) by (nonlinear_arith)
            requires i / width == row;
    }
}

/// Overwrite `plane[base..base + chroma.len()]` with `chroma`.
fn write_row(plane: &mut Vec<u8>, base: usize, chroma: &Vec<u8>)
    requires
        base + chroma@.len() <= old(plane)@.len(),
    ensures
        final(plane)@.len() == old(plane)@.len(),
        forall|i: int| 0 <= i < old(plane)@.len() ==> #[trigger] final(plane)@[i] == (if base <= i < base + chroma@.len() {
            chroma@[i - base]
        } else {
            old(plane)@[i]
        }),
{
    let n = chroma.len();
    let plen = plane.len();
    let mut x: usize = 0;
    while x < n
        invariant
            x <= n,
            plane@.len() == plen,
            n == chroma@.len(),
            base + n <= plane@.len(),
            plane@.len() == old(plane)@.len(),
            forall|i: int| 0 <= i < old(plane)@.len() ==> #[trigger] plane@[i] == (if base <= i < base + x {
                chroma@[i - base]
            } else {
                old(plane)@[i]
            }),
        decreases n - x,
    {
        plane.set(base + x, chroma[x]);
        x = x + 1;
    }
}

/// Write `chroma` into row `line` of a `width * lines` plane, and into row
/// `line + 1` too when `two_rows`.
fn write_line_rows(plane: &mut Vec<u8>, width: u32, lines: u32, line: u32, two_rows: bool, chroma: &Vec<u8>)
    requires
        old(plane)@.len() == width * lines,
        line < lines,
        two_rows == (line + 1 < lines),
        chroma@.len() == width,
    ensures
        final(plane)@.len() == old(plane)@.len(),
        forall|i: int| 0 <= i < old(plane)@.len() ==> #[trigger] final(plane)@[i] == (if (line * width <= i < line * width + width)
            || (two_rows && (line + 1) * width <= i < (line + 1) * width + width) {
            chroma@[i - (if i < line * width + width { line * width } else { (line + 1) * width })]
        } else {
            old(plane)@[i]
        }),
{
    let plen = plane.len();
    proof {
        lemma_row_bounds(line as int, width as int, lines as int);
    }
    let base = line as usize * width as usize;
    write_row(plane, base, chroma);
    if two_rows {
        proof {
            lemma_row_bounds(line as int + 1, width as int, lines as int);
            assert((line as int + 1) * width == line as int * width + width) by (nonlinear_arith);
        }
        let base2 = base + width as usize;
        write_row(plane, base2, chroma);
    }
}

/// The rows written by [`write_line_rows`] are exactly
/// [`with_line_chroma`].
proof fn lemma_rows_match_line_chroma(orig: Seq<u8>, fin: Seq<u8>, width: int, lines: int, line: int, chroma: Seq<u8>)
    requires
        orig.len() == width * lines,
        fin.len() == orig.len(),
        0 <= line < lines,
        0 <= width,
        chroma.len() == width,
        forall|i: int| 0 <= i < orig.len() ==> #[trigger] fin[i] == (if (line * width <= i < line * width + width)
            || ((line + 1 < lines) && (line + 1) * width <= i < (line + 1) * width + width) {
            chroma[i - (if i < line * width + width { line * width } else { (line + 1) * width })]
        } else {
            orig[i]
        }),
    ensures
        fin == with_line_chroma(orig, width, lines, line, chroma),
{
    let target = with_line_chroma(orig, width, lines, line, chroma);
    if width > 0 {
        assert((line + 1) * width == line * width + width) by (nonlinear_arith);
        assert forall|i: int| 0 <= i < orig.len() implies fin[i] == target[i] by {
            lemma_in_row(i, width, line);
            lemma_in_row(i, width, line + 1);
        }
    } else {
        assert(orig.len() == 0) by (nonlinear_arith)
            requires orig.len() == width * lines, width == 0;
    }
    assert(fin =~= target);
}

/// Row `n` gets both chroma channels from the two radio lines that end at
/// it: after line `n - 1` and then line `n` are stored, row `n` holds line
/// `n`'s chroma in its own channel (Cr for even `n`, Cb for odd `n`) and
/// line `n - 1`'s chroma in the other.
pub proof fn lemma_row_sees_two_lines(
    cr: Seq<u8>,
    cb: Seq<u8>,
    width: int,
    lines: int,
    n: int,
    prev: Seq<u8>,
    cur: Seq<u8>,
    x: int,
)
    requires
        width > 0,
        1 <= n < lines,
        0 <= x < width,
        cr.len() == width * lines,
        cb.len() == width * lines,
        prev.len() == width,
        cur.len() == width,
    ensures
        ({
            let i = n * width + x;
            let (cr1, cb1) = if (n - 1) % 2 == 0 {
                (with_line_chroma(cr, width, lines, n - 1, prev), cb)
            } else {
                (cr, with_line_chroma(cb, width, lines, n - 1, prev))
            };
            let (cr2, cb2) = if n % 2 == 0 {
                (with_line_chroma(cr1, width, lines, n, cur), cb1)
            } else {
                (cr1, with_line_chroma(cb1, width, lines, n, cur))
            };
            &&& n % 2 == 0 ==> cr2[i] == cur[x] && cb2[i] == prev[x]
            &&& n % 2 == 1 ==> cb2[i] == cur[x] && cr2[i] == prev[x]
        }),
{
    let i = n * width + x;
    vstd::arithmetic::div_mod::lemma_fundamental_div_mod_converse(i, width, n, x);
    assert(0 <= i < width * lines) by (nonlinear_arith)
        requires i == n * width + x, 0 <= x < width, 1 <= n < lines, width > 0;
}

} // verus!
