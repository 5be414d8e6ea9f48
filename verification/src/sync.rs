//! Sync-pulse bookkeeping: when the 1200 Hz sync band is probed, and where
//! line zero's sync pulse falls within a radio line.

use vstd::prelude::*;

verus! {

/// Stride between sync-band probes, in working-rate samples.
pub const SYNC_PROBE_STRIDE: usize = 3;

/// Hann-windowed audio length used per sync probe (samples).
pub const SYNC_FFT_WINDOW_SAMPLES: usize = 16;

/// Zero-padded FFT length used per sync probe (43 Hz per bin).
pub const SYNC_FFT_LEN: usize = 256;

/// Image-X resolution of the column accumulator of sync hits.
pub const X_ACC_BINS: usize = 700;

/// Largest column count the edge finder accepts (the counts are numbers of
/// image lines, far below this).
pub const MAX_COLUMN_COUNT: u32 = 0x1000_0000;

/// Output of the 8-tap edge kernel `[1, 1, 1, 1, -1, -1, -1, -1]` at column
/// `x`: hits in the four columns from `x` on, less hits in the next four.
pub open spec fn edge_response(acc: Seq<u32>, x: int) -> int {
    (acc[x] + acc[x + 1] + acc[x + 2] + acc[x + 3]) - (acc[x + 4] + acc[x + 5] + acc[x + 6]
        + acc[x + 7])
}

/// `best` is the first column (of `0..X_ACC_BINS - 8`) where the edge
/// response is maximal.
pub open spec fn is_first_max(acc: Seq<u32>, best: int) -> bool {
    &&& 0 <= best < X_ACC_BINS - 8
    &&& forall|x: int| 0 <= x < X_ACC_BINS - 8 ==> edge_response(acc, x) <= edge_response(acc, best)
    &&& forall|x: int| 0 <= x < best ==> edge_response(acc, x) < edge_response(acc, best)
}

/// A falling edge found in the right half of the line is the previous
/// line's pulse: it is moved back by half a line.
pub open spec fn wrap_edge(x: int) -> int {
    if x > 350 {
        x - 350
    } else {
        x
    }
}

/// Locate the falling edge of the sync pulse in the column accumulator
/// `x_acc` (sync hits per column, 700 columns across one radio line): the
/// column 4 past the first maximum of the edge kernel's response, moved
/// back by half a line when it lies in the right half.
pub fn falling_edge_bin(x_acc: &Vec<u32>) -> (xmax: u32)
    requires
        x_acc@.len() == X_ACC_BINS,
        forall|i: int| 0 <= i < X_ACC_BINS ==> #[trigger] x_acc@[i] <= MAX_COLUMN_COUNT,
    ensures
        exists|best: int| is_first_max(x_acc@, best) && xmax as int == wrap_edge(best + 4),
        exists|best: int| #![trigger edge_column(best)] {
            &&& edge_column(best)
            &&& forall|x: int| #[trigger] edge_column(x) ==>
                (x_acc@[x] + x_acc@[x + 1] + x_acc@[x + 2] + x_acc@[x + 3])
                    - (x_acc@[x + 4] + x_acc@[x + 5] + x_acc@[x + 6] + x_acc@[x + 7])
                <= (x_acc@[best] + x_acc@[best + 1] + x_acc@[best + 2] + x_acc@[best + 3])
                    - (x_acc@[best + 4] + x_acc@[best + 5] + x_acc@[best + 6] + x_acc@[best + 7])
            &&& forall|x: int| #[trigger] edge_column(x) && x < best ==>
                (x_acc@[x] + x_acc@[x + 1] + x_acc@[x + 2] + x_acc@[x + 3])
                    - (x_acc@[x + 4] + x_acc@[x + 5] + x_acc@[x + 6] + x_acc@[x + 7])
                < (x_acc@[best] + x_acc@[best + 1] + x_acc@[best + 2] + x_acc@[best + 3])
                    - (x_acc@[best + 4] + x_acc@[best + 5] + x_acc@[best + 6] + x_acc@[best + 7])
            &&& xmax as int == if best + 4 > 350 { best + 4 - 350 } else { best + 4 }
        },
{
    let ghost acc = x_acc@;
    let mut best: usize = 0;
    let mut max_convd: i64 = 0;
    let mut x: usize = 0;
    while x < X_ACC_BINS - 8
        invariant
            acc == x_acc@,
            acc.len() == X_ACC_BINS,
            forall|i: int| 0 <= i < X_ACC_BINS ==> #[trigger] acc[i] <= MAX_COLUMN_COUNT,
            x <= X_ACC_BINS - 8,
            x > 0 ==> best < x,
            x > 0 ==> max_convd as int == edge_response(acc, best as int),
            forall|y: int| 0 <= y < x ==> edge_response(acc, y) <= max_convd,
            forall|y: int| 0 <= y < best ==> edge_response(acc, y) < max_convd,
        decreases X_ACC_BINS - 8 - x,
    {
        let a0 = x_acc[x] as i64;
        let a1 = x_acc[x + 1] as i64;
        let a2 = x_acc[x + 2] as i64;
        let a3 = x_acc[x + 3] as i64;
        let b0 = x_acc[x + 4] as i64;
        let b1 = x_acc[x + 5] as i64;
        let b2 = x_acc[x + 6] as i64;
        let b3 = x_acc[x + 7] as i64;
        let convd = (a0 + a1 + a2 + a3) - (b0 + b1 + b2 + b3);
        if x == 0 || convd > max_convd {
            max_convd = convd;
            best = x;
        }
        x = x + 1;
    }
    let mut xmax: u32 = (best + 4) as u32;
    if xmax > 350 {
        xmax = xmax - 350;
    }
    assert(is_first_max(acc, best as int));
    proof {
        lemma_first_max_kernel(acc, best as int);
    }
    xmax
}

/// The edge kernel is `[1, 1, 1, 1, -1, -1, -1, -1]`: its response at
/// column `x` is the four columns from `x` on, less the next four.
pub proof fn lemma_edge_kernel(acc: Seq<u32>, x: int)
    ensures
        edge_response(acc, x) == (acc[x] + acc[x + 1] + acc[x + 2] + acc[x + 3])
            - (acc[x + 4] + acc[x + 5] + acc[x + 6] + acc[x + 7]),
{
}

/// Column `x` is one where the edge kernel fits inside the accumulator
/// (`0 <= x < 692`).
pub open spec fn edge_column(x: int) -> bool {
    0 <= x < X_ACC_BINS - 8
}

/// The first maximum of the edge response, with the kernel written out:
/// no column's response beats that of `best`, every earlier column's
/// response is strictly lower, and the falling edge is `best + 4`, moved
/// back by half a line when it lies in the right half.
pub proof fn lemma_first_max_kernel(acc: Seq<u32>, best: int)
    requires
        acc.len() == X_ACC_BINS,
        is_first_max(acc, best),
    ensures
        exists|b: int| #![trigger edge_column(b)] {
            &&& edge_column(b)
            &&& forall|x: int| #[trigger] edge_column(x) ==>
                (acc[x] + acc[x + 1] + acc[x + 2] + acc[x + 3])
                    - (acc[x + 4] + acc[x + 5] + acc[x + 6] + acc[x + 7])
                <= (acc[b] + acc[b + 1] + acc[b + 2] + acc[b + 3])
                    - (acc[b + 4] + acc[b + 5] + acc[b + 6] + acc[b + 7])
            &&& forall|x: int| #[trigger] edge_column(x) && x < b ==>
                (acc[x] + acc[x + 1] + acc[x + 2] + acc[x + 3])
                    - (acc[x + 4] + acc[x + 5] + acc[x + 6] + acc[x + 7])
                < (acc[b] + acc[b + 1] + acc[b + 2] + acc[b + 3])
                    - (acc[b + 4] + acc[b + 5] + acc[b + 6] + acc[b + 7])
            &&& wrap_edge(best + 4) == if b + 4 > 350 { b + 4 - 350 } else { b + 4 }
        },
{
    let b = best;
    assert forall|x: int| #[trigger] edge_column(x) implies
        (acc[x] + acc[x + 1] + acc[x + 2] + acc[x + 3])
            - (acc[x + 4] + acc[x + 5] + acc[x + 6] + acc[x + 7])
        <= (acc[b] + acc[b + 1] + acc[b + 2] + acc[b + 3])
            - (acc[b + 4] + acc[b + 5] + acc[b + 6] + acc[b + 7]) by {
        lemma_edge_kernel(acc, x);
        lemma_edge_kernel(acc, b);
    }
    assert forall|x: int| #[trigger] edge_column(x) && x < b implies
        (acc[x] + acc[x + 1] + acc[x + 2] + acc[x + 3])
            - (acc[x + 4] + acc[x + 5] + acc[x + 6] + acc[x + 7])
        < (acc[b] + acc[b + 1] + acc[b + 2] + acc[b + 3])
            - (acc[b + 4] + acc[b + 5] + acc[b + 6] + acc[b + 7]) by {
        lemma_edge_kernel(acc, x);
        lemma_edge_kernel(acc, b);
    }
    assert(edge_column(b));
}

/// A clean pulse is found at its trailing edge: when columns `a..a + 8` hold
/// `h` hits each and every other column is empty, with the pulse fully in
/// the left half of the line, the falling edge is column `a + 8`. (The
/// response peaks, at `4h`, only where the kernel's positive half sits on
/// the pulse's last four columns and its negative half on the empty ones.)
pub proof fn lemma_clean_pulse_edge(acc: Seq<u32>, a: int, h: u32, best: int)
    requires
        acc.len() == X_ACC_BINS,
        h > 0,
        0 <= a,
        a + 8 <= 342,
        forall|i: int| 0 <= i < X_ACC_BINS ==> #[trigger] acc[i] == (if a <= i < a + 8 { h } else { 0u32 }),
        is_first_max(acc, best),
    ensures
        best == a + 4,
        wrap_edge(best + 4) == a + 8,
{
    let hh = h as int;
    assert(edge_response(acc, a + 4) == 4 * hh) by {
        assert(acc[a + 4] == h && acc[a + 5] == h && acc[a + 6] == h && acc[a + 7] == h);
        assert(acc[a + 8] == 0 && acc[a + 9] == 0 && acc[a + 10] == 0 && acc[a + 11] == 0);
    }
    assert(edge_response(acc, best) >= 4 * hh);
    if best != a + 4 {
        let t0 = acc[best];
        let t1 = acc[best + 1];
        let t2 = acc[best + 2];
        let t3 = acc[best + 3];
        let u0 = acc[best + 4];
        let u1 = acc[best + 5];
        let u2 = acc[best + 6];
        let u3 = acc[best + 7];
        if best < a + 4 {
            assert(edge_response(acc, best) < edge_response(acc, a + 4));
        } else {
            assert(edge_response(acc, best) < edge_response(acc, a + 4));
        }
    }
}

/// Where the next sync-band probe goes.
pub struct SyncProbeSchedule {
    /// Start (in the image audio) of the next probe stride; a multiple of
    /// [`SYNC_PROBE_STRIDE`].
    pub next_probe_sample: usize,
}

impl SyncProbeSchedule {
    /// No probe taken yet.
    pub fn new() -> (s: Self)
        ensures
            s.next_probe_sample == 0,
    {
        SyncProbeSchedule { next_probe_sample: 0 }
    }

    /// With `audio_len` samples buffered, the centre of the next probe if
    /// the audio reaches two strides past the probe's start (the probe then
    /// moves on by one stride), or `None` if more audio is needed.
    pub fn next_probe(&mut self, audio_len: usize) -> (center: Option<usize>)
        ensures
            old(self).next_probe_sample + 2 * SYNC_PROBE_STRIDE <= audio_len ==> {
                &&& center == Some((old(self).next_probe_sample + SYNC_PROBE_STRIDE / 2) as usize)
                &&& final(self).next_probe_sample == old(self).next_probe_sample + SYNC_PROBE_STRIDE
            },
            old(self).next_probe_sample + 2 * SYNC_PROBE_STRIDE > audio_len ==> {
                &&& center is None
                &&& final(self).next_probe_sample == old(self).next_probe_sample
            },
    {
        if audio_len >= 2 * SYNC_PROBE_STRIDE && self.next_probe_sample <= audio_len - 2 * SYNC_PROBE_STRIDE {
            let center = self.next_probe_sample + SYNC_PROBE_STRIDE / 2;
            self.next_probe_sample = self.next_probe_sample + SYNC_PROBE_STRIDE;
            Some(center)
        } else {
            None
        }
    }
}

/// Vote accumulator of the slant Hough transform: one counter per
/// (distance, slant) cell, and the cell that first reached the highest
/// count.
pub struct HoughVotes {
    cells: Vec<u16>,
    n_d: usize,
    n_slant: usize,
    max_count: u16,
    d_most: usize,
    q_most: usize,
}

impl HoughVotes {
    /// Internal consistency: one counter per cell, none above the
    /// recorded maximum, and the recorded cell holds that maximum.
    pub closed spec fn wf(self) -> bool {
        &&& self.cells@.len() == self.n_d * self.n_slant
        &&& self.d_most < self.n_d || self.max_count == 0
        &&& self.q_most < self.n_slant || self.max_count == 0
        &&& forall|i: int| 0 <= i < self.cells@.len() ==> #[trigger] self.cells@[i] <= self.max_count
        &&& self.max_count > 0 ==> self.cells@[self.d_most * self.n_slant + self.q_most] == self.max_count
    }

    /// Number of distance bins.
    pub closed spec fn spec_n_d(self) -> nat {
        self.n_d as nat
    }

    /// Number of slant bins.
    pub closed spec fn spec_n_slant(self) -> nat {
        self.n_slant as nat
    }

    /// Votes of cell `(d, q)`.
    pub closed spec fn cell(self, d: int, q: int) -> u16 {
        self.cells@[d * self.n_slant + q]
    }

    /// Highest vote count so far.
    pub closed spec fn spec_max_count(self) -> u16 {
        self.max_count
    }

    /// Cell that first reached the highest count, `(d, q)`.
    pub closed spec fn spec_most(self) -> (int, int) {
        (self.d_most as int, self.q_most as int)
    }

    /// An accumulator of `n_d` distance bins by `n_slant` slant bins, all
    /// at zero.
    pub fn new(n_d: usize, n_slant: usize) -> (h: Self)
        requires
            n_d as int * n_slant as int <= usize::MAX,
        ensures
            h.wf(),
            h.spec_n_d() == n_d,
            h.spec_n_slant() == n_slant,
            h.spec_max_count() == 0,
            h.spec_most() == (0int, 0int),
            forall|d: int, q: int| 0 <= d < n_d && 0 <= q < n_slant ==> #[trigger] h.cell(d, q) == 0,
    {
        let n = n_d * n_slant;
        let mut cells: Vec<u16> = Vec::new();
        let mut i: usize = 0;
        while i < n
            invariant
                i <= n,
                cells@ == Seq::new(i as nat, |k: int| 0u16),
            decreases n - i,
        {
            cells.push(0);
            i = i + 1;
            assert(cells@ =~= Seq::new(i as nat, |k: int| 0u16));
        }
        let h = HoughVotes { cells, n_d, n_slant, max_count: 0, d_most: 0, q_most: 0 };
        assert forall|d: int, q: int| 0 <= d < n_d && 0 <= q < n_slant implies #[trigger] h.cell(d, q) == 0 by {
            lemma_cell_index(d, q, n_d as int, n_slant as int);
        }
        h
    }

    /// Reset every counter and the recorded maximum.
    pub fn clear(&mut self)
        requires
            old(self).wf(),
        ensures
            final(self).wf(),
            final(self).spec_n_d() == old(self).spec_n_d(),
            final(self).spec_n_slant() == old(self).spec_n_slant(),
            final(self).spec_max_count() == 0,
            final(self).spec_most() == (0int, 0int),
            forall|d: int, q: int| 0 <= d < old(self).spec_n_d() && 0 <= q < old(self).spec_n_slant()
                ==> #[trigger] final(self).cell(d, q) == 0,
    {
        let n = self.cells.len();
        let mut i: usize = 0;
        while i < n
            invariant
                i <= n,
                n == self.cells@.len(),
                n == self.n_d * self.n_slant,
                self.n_d == old(self).n_d,
                self.n_slant == old(self).n_slant,
                forall|k: int| 0 <= k < i ==> #[trigger] self.cells@[k] == 0,
            decreases n - i,
        {
            self.cells.set(i, 0);
            i = i + 1;
        }
        self.max_count = 0;
        self.d_most = 0;
        self.q_most = 0;
        proof {
            let nd = self.n_d as int;
            let nq = self.n_slant as int;
            assert forall|d: int, q: int| 0 <= d < nd && 0 <= q < nq implies #[trigger] self.cell(d, q) == 0 by {
                lemma_cell_index(d, q, nd, nq);
            }
        }
    }

    /// One vote for cell `(d, q)` (saturating). The cell becomes the
    /// recorded one when its count rises above the previous maximum.
    pub fn vote(&mut self, d: usize, q: usize)
        requires
            old(self).wf(),
            d < old(self).spec_n_d(),
            q < old(self).spec_n_slant(),
        ensures
            final(self).wf(),
            final(self).spec_n_d() == old(self).spec_n_d(),
            final(self).spec_n_slant() == old(self).spec_n_slant(),
            final(self).cell(d as int, q as int) == (if old(self).cell(d as int, q as int) < u16::MAX {
                old(self).cell(d as int, q as int) + 1
            } else {
                old(self).cell(d as int, q as int) as int
            }),
            forall|d2: int, q2: int| 0 <= d2 < old(self).spec_n_d() && 0 <= q2 < old(self).spec_n_slant()
                && (d2, q2) != (d as int, q as int)
                ==> #[trigger] final(self).cell(d2, q2) == old(self).cell(d2, q2),
            final(self).cell(d as int, q as int) > old(self).spec_max_count() ==> {
                &&& final(self).spec_max_count() == final(self).cell(d as int, q as int)
                &&& final(self).spec_most() == (d as int, q as int)
            },
            final(self).cell(d as int, q as int) <= old(self).spec_max_count() ==> {
                &&& final(self).spec_max_count() == old(self).spec_max_count()
                &&& final(self).spec_most() == old(self).spec_most()
            },
    {
        let len = self.cells.len();
        proof {
            lemma_cell_index(d as int, q as int, self.n_d as int, self.n_slant as int);
        }
        let idx = d * self.n_slant + q;
        let v = self.cells[idx];
        let nv = if v < u16::MAX { v + 1 } else { v };
        self.cells.set(idx, nv);
        if nv > self.max_count {
            self.max_count = nv;
            self.d_most = d;
            self.q_most = q;
        }
        proof {
            let nd = self.n_d as int;
            let nq = self.n_slant as int;
            assert forall|d2: int, q2: int| 0 <= d2 < nd && 0 <= q2 < nq && (d2, q2) != (d as int, q as int)
                implies #[trigger] self.cell(d2, q2) == old(self).cell(d2, q2) by {
                lemma_cell_index(d2, q2, nd, nq);
                lemma_cell_index_injective(d2, q2, d as int, q as int, nq);
            }
            if self.max_count > 0 {
                lemma_cell_index(self.d_most as int, self.q_most as int, nd, nq);
            }
        }
    }

    /// Highest vote count so far: no cell has more votes, and when it is
    /// positive the recorded cell holds it.
    pub fn max_count(&self) -> (m: u16)
        requires
            self.wf(),
        ensures
            m == self.spec_max_count(),
            forall|d: int, q: int| 0 <= d < self.spec_n_d() && 0 <= q < self.spec_n_slant()
                ==> #[trigger] self.cell(d, q) <= m,
            m > 0 ==> self.cell(self.spec_most().0, self.spec_most().1) == m
                && 0 <= self.spec_most().0 < self.spec_n_d()
                && 0 <= self.spec_most().1 < self.spec_n_slant(),
    {
        proof {
            let nd = self.n_d as int;
            let nq = self.n_slant as int;
            assert forall|d: int, q: int| 0 <= d < nd && 0 <= q < nq implies #[trigger] self.cell(d, q) <= self.max_count by {
                lemma_cell_index(d, q, nd, nq);
            }
        }
        self.max_count
    }

    /// Slant bin of the cell that first reached the highest count.
    pub fn q_most(&self) -> (q: usize)
        ensures
            q == self.spec_most().1,
    {
        self.q_most
    }
}

/// Cell `(d, q)` of a `n_d` by `n_slant` grid lies inside it.
proof fn lemma_cell_index(d: int, q: int, n_d: int, n_slant: int)
    requires
        0 <= d < n_d,
        0 <= q < n_slant,
    ensures
        0 <= d * n_slant + q < n_d * n_slant,
{
    assert(0 <= d * n_slant) by (nonlinear_arith)
        requires 0 <= d, 0 <= n_slant;
    assert(d * n_slant + n_slant <= n_d * n_slant) by (nonlinear_arith)
        requires d < n_d, 0 <= n_slant;
}

/// Distinct cells have distinct indices.
proof fn lemma_cell_index_injective(d1: int, q1: int, d2: int, q2: int, n_slant: int)
    requires
        0 <= q1 < n_slant,
        0 <= q2 < n_slant,
        (d1, q1) != (d2, q2),
    ensures
        d1 * n_slant + q1 != d2 * n_slant + q2,
{
    if d1 == d2 {
    } else if d1 < d2 {
        assert(d1 * n_slant + n_slant <= d2 * n_slant) by (nonlinear_arith)
            requires d1 < d2, 0 <= n_slant;
    } else {
        assert(d2 * n_slant + n_slant <= d1 * n_slant) by (nonlinear_arith)
            requires d2 < d1, 0 <= n_slant;
    }
}

} // verus!
