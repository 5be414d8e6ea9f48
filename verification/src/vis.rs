//! VIS (Vertical Interval Signaling) header recognition.
//!
//! The detector measures one dominant frequency per 10 ms hop and keeps the
//! last 45 of them (450 ms: fifteen 30 ms VIS symbols). Each measured tone is
//! classified relative to a candidate leader tone (the 1900 Hz leader, the
//! 1200 Hz break, the 1300 Hz "0" bit and the 1100 Hz "1" bit, all taken
//! relative to the observed leader within a tolerance). This module holds
//! the frame matcher that runs on those classes: it tries three symbol
//! phases against three leader candidates and assembles the 7-bit code,
//! least significant bit first, checking even parity.

use vstd::prelude::*;
use vstd::arithmetic::div_mod::*;

verus! {

/// Length of the frequency history, in hops.
pub const HISTORY_LEN: usize = 45;

/// Hop between successive frequency measurements, in working-rate samples
/// (10 ms at 11 025 Hz, truncated).
pub const HOP_SAMPLES: usize = 110;

/// Analysis window per measurement, in working-rate samples (20 ms at
/// 11 025 Hz, truncated).
pub const WINDOW_SAMPLES: usize = 220;

/// FFT length of the per-hop analysis (21.5 Hz per bin).
pub const FFT_LEN: usize = 512;

/// Number of leader candidates and of symbol phases the matcher tries.
pub const N_CANDIDATES: usize = 3;

/// Class of one measured tone relative to a candidate leader tone.
#[derive(Clone, Copy, Debug, PartialEq, Eq, Structural)]
pub enum ToneClass {
    /// Within tolerance of the leader itself (1900 Hz when tuned).
    Leader,
    /// Within tolerance of leader - 700 Hz (1200 Hz break).
    Break,
    /// Within tolerance of leader - 600 Hz (1300 Hz, a 0 bit).
    BitZero,
    /// Within tolerance of leader - 800 Hz (1100 Hz, a 1 bit).
    BitOne,
    /// None of the above.
    Other,
}

/// A recognised VIS frame.
#[derive(Clone, Copy, Debug, PartialEq, Eq, Structural)]
pub struct VisMatch {
    /// 7-bit VIS code.
    pub code: u8,
    /// History index (0..3) of the tone taken as the leader.
    pub leader_index: usize,
    /// Symbol phase (0..3): the stop bit's last hop is `2 - phase` hops
    /// before the newest hop.
    pub phase: usize,
}

/// `2^n`.
pub open spec fn two_pow(n: nat) -> nat
    decreases n,
{
    if n == 0 {
        1
    } else {
        2 * two_pow((n - 1) as nat)
    }
}

/// The class is a data bit.
pub open spec fn is_bit(c: ToneClass) -> bool {
    c == ToneClass::BitZero || c == ToneClass::BitOne
}

/// Value of a data-bit class (1 for a 1 bit, 0 otherwise).
pub open spec fn bit_value(c: ToneClass) -> int {
    if c == ToneClass::BitOne {
        1
    } else {
        0
    }
}

/// Hop of bit `k` (0..8, the eighth being parity) at phase `i`.
pub open spec fn bit_hop(i: int, k: int) -> int {
    18 + i + 3 * k
}

/// Number of 1 bits among the first `n` bits at phase `i`.
pub open spec fn ones_count(row: Seq<ToneClass>, i: int, n: nat) -> int
    decreases n,
{
    if n == 0 {
        0
    } else {
        ones_count(row, i, (n - 1) as nat) + bit_value(row[bit_hop(i, n - 1)])
    }
}

/// Value of the first `n` bits at phase `i`, least significant first.
pub open spec fn code_value(row: Seq<ToneClass>, i: int, n: nat) -> int
    decreases n,
{
    if n == 0 {
        0
    } else {
        code_value(row, i, (n - 1) as nat) + bit_value(row[bit_hop(i, n - 1)]) * two_pow(
            (n - 1) as nat,
        )
    }
}

/// The classes of `row` form a VIS frame at phase `i`: leader tone in the
/// four symbols before the start bit, a break (start bit), eight data bits
/// whose last is the even parity of the first seven, and a break (stop bit).
pub open spec fn frame_at(row: Seq<ToneClass>, i: int) -> bool {
    &&& row.len() == HISTORY_LEN
    &&& 0 <= i < 3
    &&& row[3 + i] == ToneClass::Leader
    &&& row[6 + i] == ToneClass::Leader
    &&& row[9 + i] == ToneClass::Leader
    &&& row[12 + i] == ToneClass::Leader
    &&& row[15 + i] == ToneClass::Break
    &&& row[42 + i] == ToneClass::Break
    &&& forall|k: int| 0 <= k < 8 ==> #[trigger] is_bit(row[bit_hop(i, k)])
    &&& ones_count(row, i, 7) % 2 == bit_value(row[bit_hop(i, 7)])
}

/// The first alignment, in search order from `c` on (alignment `c` pairs
/// phase `c / 3` with leader candidate `c % 3`), at which the classes form
/// a frame.
pub open spec fn match_from(rows: Seq<Seq<ToneClass>>, c: int) -> Option<VisMatch>
    decreases 9 - c,
{
    if c < 0 || c >= 9 {
        None
    } else if frame_at(rows[c % 3], c / 3) {
        Some(
            VisMatch {
                code: code_value(rows[c % 3], c / 3, 7) as u8,
                leader_index: (c % 3) as usize,
                phase: (c / 3) as usize,
            },
        )
    } else {
        match_from(rows, c + 1)
    }
}

/// The matcher's result on classes `rows` (row `j` classifies the history
/// relative to leader candidate `j`).
pub open spec fn spec_match_vis(rows: Seq<Seq<ToneClass>>) -> Option<VisMatch> {
    match_from(rows, 0)
}

/// Views of the three class rows.
pub open spec fn rows_view(rows: Seq<Vec<ToneClass>>) -> Seq<Seq<ToneClass>> {
    rows.map_values(|r: Vec<ToneClass>| r@)
}

proof fn lemma_two_pow_7()
    ensures
        two_pow(7) == 128,
{
    reveal_with_fuel(two_pow, 8);
}

proof fn lemma_two_pow_mono(a: nat, b: nat)
    requires
        a <= b,
    ensures
        two_pow(a) <= two_pow(b),
    decreases b,
{
    if a < b {
        lemma_two_pow_mono(a, (b - 1) as nat);
    }
}

proof fn lemma_code_value_bound(row: Seq<ToneClass>, i: int, n: nat)
    ensures
        0 <= code_value(row, i, n) < two_pow(n),
        0 <= ones_count(row, i, n) <= n,
    decreases n,
{
    if n > 0 {
        lemma_code_value_bound(row, i, (n - 1) as nat);
    }
}

/// Check one alignment: the code if the classes form a frame at phase `i`.
fn decode_alignment(row: &Vec<ToneClass>, i: usize) -> (r: Option<u8>)
    requires
        row@.len() == HISTORY_LEN,
        i < 3,
    ensures
        r is Some <==> frame_at(row@, i as int),
        r matches Some(code) ==> code as int == code_value(row@, i as int, 7) && code < 0x80,
{
    proof {
        lemma_two_pow_7();
    }
    if row[3 + i] != ToneClass::Leader || row[6 + i] != ToneClass::Leader
        || row[9 + i] != ToneClass::Leader || row[12 + i] != ToneClass::Leader {
        return None;
    }
    if row[15 + i] != ToneClass::Break || row[42 + i] != ToneClass::Break {
        return None;
    }
    let mut code: u32 = 0;
    let mut parity: u8 = 0;
    let mut pow: u32 = 1;
    let mut k: usize = 0;
    while k < 8
        invariant
            row@.len() == HISTORY_LEN,
            i < 3,
            k <= 8,
            forall|k2: int| 0 <= k2 < k ==> #[trigger] is_bit(row@[bit_hop(i as int, k2)]),
            k <= 7 ==> code as int == code_value(row@, i as int, k as nat),
            k <= 7 ==> pow as int == two_pow(k as nat),
            k <= 7 ==> parity as int == ones_count(row@, i as int, k as nat) % 2,
            k == 8 ==> code as int == code_value(row@, i as int, 7),
            k == 8 ==> ones_count(row@, i as int, 7) % 2 == bit_value(row@[bit_hop(i as int, 7)]),
            code < pow,
            pow <= 128,
            parity < 2,
        decreases 8 - k,
    {
        let t = row[18 + i + 3 * k];
        let bit: u8 = match t {
            ToneClass::BitZero => 0,
            ToneClass::BitOne => 1,
            _ => {
                assert(!is_bit(row@[bit_hop(i as int, k as int)]));
                return None;
            },
        };
        proof {
            lemma_code_value_bound(row@, i as int, k as nat);
        }
        if k < 7 {
            if bit == 1 {
                code = code + pow;
            }
            assert((parity < 2 && bit < 2) ==> (parity ^ bit) as int == (parity + bit) % 2)
                by (bit_vector);
            proof {
                lemma_add_mod_noop(ones_count(row@, i as int, k as nat), bit as int, 2);
            }
            parity = parity ^ bit;
            proof {
                lemma_two_pow_mono(k as nat, 6);
                reveal_with_fuel(two_pow, 7);
            }
            pow = pow * 2;
        } else if parity != bit {
            return None;
        }
        k = k + 1;
    }
    Some(code as u8)
}

/// Match the VIS frame pattern against the classified history. `rows[j]`
/// holds the 45 hops (oldest first) classified relative to the tone of hop
/// `j` as leader. Alignments are tried phase by phase, and within a phase
/// leader by leader; the first that forms a frame wins.
pub fn match_vis_pattern(rows: &Vec<Vec<ToneClass>>) -> (r: Option<VisMatch>)
    requires
        rows@.len() == N_CANDIDATES,
        forall|j: int| 0 <= j < N_CANDIDATES ==> (#[trigger] rows@[j])@.len() == HISTORY_LEN,
    ensures
        r == spec_match_vis(rows_view(rows@)),
        r matches Some(m) ==> m.code < 0x80 && m.leader_index < 3 && m.phase < 3,
{
    let ghost rv = rows_view(rows@);
    let mut i: usize = 0;
    while i < 3
        invariant
            i <= 3,
            rv == rows_view(rows@),
            rows@.len() == N_CANDIDATES,
            forall|j: int| 0 <= j < N_CANDIDATES ==> (#[trigger] rows@[j])@.len() == HISTORY_LEN,
            spec_match_vis(rv) == match_from(rv, 3 * i as int),
        decreases 3 - i,
    {
        let mut j: usize = 0;
        while j < 3
            invariant
                i < 3,
                j <= 3,
                rv == rows_view(rows@),
                rows@.len() == N_CANDIDATES,
                forall|j2: int| 0 <= j2 < N_CANDIDATES ==> (#[trigger] rows@[j2])@.len() == HISTORY_LEN,
                spec_match_vis(rv) == match_from(rv, 3 * i + j),
            decreases 3 - j,
        {
            let c: usize = 3 * i + j;
            assert(rv[c as int % 3] == rows@[j as int]@);
            assert(c as int / 3 == i as int);
            match decode_alignment(&rows[j], i) {
                Some(code) => {
                    return Some(VisMatch { code, leader_index: j, phase: i });
                },
                None => {},
            }
            j = j + 1;
        }
        i = i + 1;
    }
    None
}

/// Bit `k` of `code`.
pub open spec fn code_bit(code: nat, k: nat) -> int {
    ((code / two_pow(k)) % 2) as int
}

/// Number of 1 bits among the low `n` bits of `code`.
pub open spec fn code_ones(code: nat, n: nat) -> int
    decreases n,
{
    if n == 0 {
        0
    } else {
        code_ones(code, (n - 1) as nat) + code_bit(code, (n - 1) as nat)
    }
}

/// Class of a data bit.
pub open spec fn bit_class(b: int) -> ToneClass {
    if b == 1 {
        ToneClass::BitOne
    } else {
        ToneClass::BitZero
    }
}

/// Class of VIS symbol `s` (0..15) of a frame carrying `code` and parity
/// symbol `parity`: five symbols of leader, start bit, seven data bits
/// (least significant first), parity bit, stop bit.
pub open spec fn frame_symbol(code: nat, parity: int, s: int) -> ToneClass {
    if s < 5 {
        ToneClass::Leader
    } else if s == 5 {
        ToneClass::Break
    } else if s < 13 {
        bit_class(code_bit(code, (s - 6) as nat))
    } else if s == 13 {
        bit_class(parity)
    } else {
        ToneClass::Break
    }
}

/// The 45 hop classes of an ideally received frame: every 30 ms symbol
/// covers three 10 ms hops.
pub open spec fn vis_frame(code: nat, parity: int) -> Seq<ToneClass> {
    Seq::new(HISTORY_LEN as nat, |h: int| frame_symbol(code, parity, h / 3))
}

/// Even parity of the seven code bits.
pub open spec fn even_parity(code: nat) -> int {
    code_ones(code, 7) % 2
}

proof fn lemma_two_pow_pos(n: nat)
    ensures
        two_pow(n) >= 1,
    decreases n,
{
    if n > 0 {
        lemma_two_pow_pos((n - 1) as nat);
    }
}

proof fn lemma_code_bits_sum(code: nat, n: nat)
    ensures
        ({
            let f = vis_frame(code, even_parity(code));
            n <= 7 ==> code_value(f, 0, n) == code % two_pow(n)
        }),
    decreases n,
{
    let f = vis_frame(code, even_parity(code));
    if n == 0 {
        assert(code % 1 == 0) by (nonlinear_arith);
    } else if n <= 7 {
        lemma_code_bits_sum(code, (n - 1) as nat);
        let p = two_pow((n - 1) as nat);
        lemma_two_pow_pos((n - 1) as nat);
        let b = code_bit(code, (n - 1) as nat);
        assert(b == (code as int / p as int) % 2);
        assert(0 <= b < 2);
        assert(bit_hop(0, n - 1) / 3 == 6 + (n - 1));
        assert(f[bit_hop(0, n - 1)] == bit_class(b));
        assert(bit_value(bit_class(b)) == b);
        lemma_mod_breakdown(code as int, p as int, 2);
        assert(two_pow(n) == p * 2);
        assert(code_value(f, 0, n) == code_value(f, 0, (n - 1) as nat) + b * p);
        assert(code % two_pow(n) == p * b + code % p) by (nonlinear_arith)
            requires
                code as int % (p as int * 2) == p as int * ((code as int / p as int) % 2) + code as int % p as int,
                two_pow(n) == p * 2,
                b == (code as int / p as int) % 2;
    }
}

proof fn lemma_frame_counts(code: nat, parity: int, i: int, n: nat)
    requires
        0 <= i < 3,
        n <= 7,
    ensures
        ones_count(vis_frame(code, parity), i, n) == code_ones(code, n),
        forall|k: int| 0 <= k < n ==> is_bit(#[trigger] vis_frame(code, parity)[bit_hop(i, k)]),
    decreases n,
{
    let f = vis_frame(code, parity);
    if n > 0 {
        lemma_frame_counts(code, parity, i, (n - 1) as nat);
        let k = n - 1;
        assert((bit_hop(i, k)) / 3 == 6 + k);
        let b = code_bit(code, k as nat);
        assert(0 <= b < 2);
        assert(f[bit_hop(i, k)] == bit_class(b));
        assert forall|k2: int| 0 <= k2 < n implies is_bit(#[trigger] f[bit_hop(i, k2)]) by {
            if k2 == k {
            }
        }
    }
}

proof fn lemma_frame_shape(code: nat, parity: int, i: int)
    requires
        0 <= i < 3,
        0 <= parity < 2,
    ensures
        ({
            let f = vis_frame(code, parity);
            &&& f.len() == HISTORY_LEN
            &&& f[3 + i] == ToneClass::Leader
            &&& f[6 + i] == ToneClass::Leader
            &&& f[9 + i] == ToneClass::Leader
            &&& f[12 + i] == ToneClass::Leader
            &&& f[15 + i] == ToneClass::Break
            &&& f[42 + i] == ToneClass::Break
            &&& forall|k: int| 0 <= k < 8 ==> #[trigger] is_bit(f[bit_hop(i, k)])
            &&& ones_count(f, i, 7) == code_ones(code, 7)
            &&& bit_value(f[bit_hop(i, 7)]) == parity
        }),
{
    let f = vis_frame(code, parity);
    lemma_frame_counts(code, parity, i, 7);
    assert((3 + i) / 3 == 1);
    assert((6 + i) / 3 == 2);
    assert((9 + i) / 3 == 3);
    assert((12 + i) / 3 == 4);
    assert((15 + i) / 3 == 5);
    assert((42 + i) / 3 == 14);
    assert(bit_hop(i, 7) / 3 == 13);
    assert forall|k: int| 0 <= k < 8 implies #[trigger] is_bit(f[bit_hop(i, k)]) by {
        if k == 7 {
        }
    }
}

/// Every 7-bit VIS code survives the trip through its ideal frame: the
/// matcher recognises the frame at the first alignment and returns the
/// code that was sent.
pub proof fn lemma_vis_frame_decodes(code: nat)
    requires
        code < 0x80,
    ensures
        ({
            let f = vis_frame(code, even_parity(code));
            spec_match_vis(seq![f, f, f]) == Some(
                VisMatch { code: code as u8, leader_index: 0, phase: 0 },
            )
        }),
{
    let f = vis_frame(code, even_parity(code));
    let rows = seq![f, f, f];
    lemma_frame_shape(code, even_parity(code), 0);
    assert(rows[0] == f);
    assert(frame_at(f, 0));
    lemma_code_bits_sum(code, 7);
    assert(two_pow(7) == 128) by {
        reveal_with_fuel(two_pow, 8);
    }
    lemma_small_mod(code, 128);
}

/// A frame whose parity symbol disagrees with its seven data bits (any
/// single corrupted data bit) is rejected at every alignment.
pub proof fn lemma_parity_error_rejected(code: nat)
    ensures
        ({
            let f = vis_frame(code, 1 - even_parity(code));
            spec_match_vis(seq![f, f, f]) is None
        }),
{
    let p = 1 - even_parity(code);
    let f = vis_frame(code, p);
    let rows = seq![f, f, f];
    assert forall|i: int| 0 <= i < 3 implies !frame_at(f, i) by {
        lemma_frame_shape(code, p, i);
    }
    assert forall|c: int| 0 <= c <= 9 implies #[trigger] match_from(rows, 9 - c) is None by {
        lemma_match_none(rows, f, c);
    }
    assert(match_from(rows, 9 - 9) is None);
}

proof fn lemma_match_none(rows: Seq<Seq<ToneClass>>, f: Seq<ToneClass>, c: int)
    requires
        0 <= c <= 9,
        rows == seq![f, f, f],
        forall|i: int| 0 <= i < 3 ==> !frame_at(f, i),
    ensures
        match_from(rows, 9 - c) is None,
    decreases c,
{
    if c > 0 {
        lemma_match_none(rows, f, c - 1);
        let d = 9 - c;
        assert(rows[d % 3] == f);
        assert(!frame_at(f, d / 3));
    }
}

/// Sliding history of the last [`HISTORY_LEN`] per-hop measurements,
/// oldest first. A hop without a usable measurement repeats the newest one.
pub struct ToneHistory<T> {
    buf: Vec<T>,
    ptr: usize,
    filled: usize,
}

impl<T> ToneHistory<T> {
    /// Internal consistency of the ring buffer.
    pub closed spec fn wf(self) -> bool {
        &&& self.buf@.len() == HISTORY_LEN
        &&& self.ptr < HISTORY_LEN
        &&& self.filled <= HISTORY_LEN
    }

    /// The history, oldest measurement first.
    pub closed spec fn view(self) -> Seq<T> {
        Seq::new(HISTORY_LEN as nat, |i: int| self.buf@[(self.ptr + i) % (HISTORY_LEN as int)])
    }

    /// Number of measurements recorded so far, capped at [`HISTORY_LEN`].
    pub closed spec fn filled(self) -> nat {
        self.filled as nat
    }
}

impl<T: Copy> ToneHistory<T> {
    /// A history holding `fill` in every slot, with nothing recorded yet.
    pub fn new(fill: T) -> (h: Self)
        ensures
            h.view() == Seq::new(HISTORY_LEN as nat, |i: int| fill),
            h.filled() == 0,
            h.wf(),
    {
        let mut buf: Vec<T> = Vec::new();
        let mut n: usize = 0;
        while n < HISTORY_LEN
            invariant
                n <= HISTORY_LEN,
                buf@ == Seq::new(n as nat, |i: int| fill),
            decreases HISTORY_LEN - n,
        {
            buf.push(fill);
            n = n + 1;
        }
        let h = ToneHistory { buf, ptr: 0, filled: 0 };
        assert(h.view() =~= Seq::new(HISTORY_LEN as nat, |i: int| fill));
        h
    }

    /// Record one hop: `Some(value)` appends the measurement, `None` repeats
    /// the newest one. The oldest measurement drops out.
    pub fn push(&mut self, measurement: Option<T>)
        requires
            old(self).wf(),
        ensures
            final(self).wf(),
            final(self).view() == old(self).view().drop_first().push(
                match measurement {
                    Some(v) => v,
                    None => old(self).view().last(),
                },
            ),
            final(self).filled() == vstd::math::min(old(self).filled() + 1int, HISTORY_LEN as int),
    {
        let ghost old_view = self.view();
        let prev_idx = (self.ptr + HISTORY_LEN - 1) % HISTORY_LEN;
        let value = match measurement {
            Some(v) => v,
            None => self.buf[prev_idx],
        };
        assert(old_view.last() == self.buf@[prev_idx as int]) by {
            assert((self.ptr + 44) % 45 == prev_idx);
        }
        let p = self.ptr;
        self.buf.set(p, value);
        self.ptr = (p + 1) % HISTORY_LEN;
        if self.filled < HISTORY_LEN {
            self.filled = self.filled + 1;
        }
        proof {
            let nv = self.view();
            let expect = old_view.drop_first().push(value);
            assert forall|i: int| 0 <= i < HISTORY_LEN implies nv[i] == expect[i] by {
                if i < 44 {
                    assert((self.ptr + i) % 45 == (p + 1 + i) % 45);
                    assert((self.ptr + i) % 45 != p);
                } else {
                    assert((self.ptr + i) % 45 == p);
                }
            }
            assert(nv =~= expect);
        }
    }

    /// The history has received at least [`HISTORY_LEN`] measurements.
    pub fn is_full(&self) -> (full: bool)
        requires
            self.wf(),
        ensures
            full == (self.filled() == HISTORY_LEN),
    {
        self.filled >= HISTORY_LEN
    }

    /// Copy of the history, oldest measurement first.
    pub fn rotated(&self) -> (out: Vec<T>)
        requires
            self.wf(),
        ensures
            out@ == self.view(),
    {
        let mut out: Vec<T> = Vec::new();
        let mut i: usize = 0;
        while i < HISTORY_LEN
            invariant
                i <= HISTORY_LEN,
                self.buf@.len() == HISTORY_LEN,
                self.ptr < HISTORY_LEN,
                out@ == self.view().subrange(0, i as int),
            decreases HISTORY_LEN - i,
        {
            out.push(self.buf[(self.ptr + i) % HISTORY_LEN]);
            i = i + 1;
            assert(out@ =~= self.view().subrange(0, i as int));
        }
        assert(out@ =~= self.view());
        out
    }
}

/// Bookkeeping of the hop clock: the absolute working-rate sample index of
/// the first buffered sample, and the number of hops analysed so far.
pub struct HopSchedule {
    /// Absolute sample index of the first buffered sample.
    pub origin_sample: u64,
    /// Hops analysed so far.
    pub hops_completed: u64,
}

/// `a - b`, or 0 when `b > a`.
pub open spec fn sat_sub(a: int, b: int) -> int {
    if a >= b {
        a - b
    } else {
        0
    }
}

impl HopSchedule {
    /// Schedule of a fresh detector: nothing analysed, origin at sample 0.
    pub fn new() -> (s: Self)
        ensures
            s.origin_sample == 0,
            s.hops_completed == 0,
    {
        HopSchedule { origin_sample: 0, hops_completed: 0 }
    }

    /// Re-anchor an empty buffer: the chunk about to be buffered holds
    /// `chunk_len` samples and ends at absolute sample `total_consumed`.
    pub fn anchor(&mut self, total_consumed: u64, chunk_len: u64)
        ensures
            final(self).origin_sample == sat_sub(total_consumed as int, chunk_len as int),
            final(self).hops_completed == old(self).hops_completed,
    {
        self.origin_sample = if total_consumed >= chunk_len { total_consumed - chunk_len } else { 0 };
    }

    /// Position in the buffer where the next analysis window starts: the
    /// next hop's absolute start, less the buffer origin (0 if earlier).
    pub fn window_start(&self) -> (start: usize)
        requires
            self.hops_completed as int * HOP_SAMPLES <= u64::MAX,
        ensures
            start == (sat_sub(self.hops_completed as int * HOP_SAMPLES, self.origin_sample as int) as u64) as usize,
    {
        let next_hop_abs = self.hops_completed * (HOP_SAMPLES as u64);
        let d = if next_hop_abs >= self.origin_sample { next_hop_abs - self.origin_sample } else { 0 };
        d as usize
    }

    /// Count one analysed hop (saturating).
    pub fn advance_hop(&mut self)
        ensures
            final(self).hops_completed as int == vstd::math::min(old(self).hops_completed + 1, u64::MAX as int),
            final(self).origin_sample == old(self).origin_sample,
    {
        if self.hops_completed < u64::MAX {
            self.hops_completed = self.hops_completed + 1;
        }
    }

    /// After a hop without detection: the samples no later window touches
    /// (everything before the next hop's window) leave the buffer. Returns
    /// how many to drop.
    pub fn retire_hop(&mut self, window_start: usize) -> (drop: usize)
        requires
            window_start + HOP_SAMPLES <= usize::MAX,
            old(self).origin_sample + window_start + HOP_SAMPLES <= u64::MAX,
        ensures
            drop == window_start + HOP_SAMPLES,
            final(self).origin_sample == old(self).origin_sample + drop,
            final(self).hops_completed == old(self).hops_completed,
    {
        let drop = window_start + HOP_SAMPLES;
        self.origin_sample = self.origin_sample + drop as u64;
        drop
    }

    /// After a detection at symbol phase `phase`: the stop bit ends at
    /// absolute sample `(hops_completed + phase) * HOP_SAMPLES`; every
    /// buffered sample before it leaves the buffer (at most `buffered`).
    /// Returns the stop bit's end and how many samples to drop.
    pub fn retire_frame(&mut self, phase: usize, buffered: usize) -> (r: (u64, usize))
        requires
            (old(self).hops_completed + phase) * HOP_SAMPLES <= u64::MAX,
            old(self).origin_sample + buffered <= u64::MAX,
        ensures
            r.0 == (old(self).hops_completed + phase) * HOP_SAMPLES,
            r.1 as int == vstd::math::min(
                sat_sub(r.0 as int, old(self).origin_sample as int),
                buffered as int,
            ),
            final(self).origin_sample == old(self).origin_sample + r.1,
            final(self).hops_completed == old(self).hops_completed,
    {
        let end = (self.hops_completed + phase as u64) * (HOP_SAMPLES as u64);
        let ahead = if end >= self.origin_sample { end - self.origin_sample } else { 0 };
        let drop: usize = if ahead >= buffered as u64 { buffered } else { ahead as usize };
        self.origin_sample = self.origin_sample + drop as u64;
        (end, drop)
    }
}

} // verus!
