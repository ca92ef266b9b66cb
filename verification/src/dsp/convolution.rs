//! Partitioned convolution: how an impulse response is cut into partitions, how
//! one scratch region holds everything, and which past input spectrum meets
//! which partition.
//!
//! The impulse response is split into partitions of `b` taps, each transformed
//! once to a spectrum of `b + 1` bins. A ring keeps the spectra of the most
//! recent input blocks, one for each partition.
use super::fft;
use vstd::prelude::*;

verus! {

/// Bins of the spectrum of `2 * b` real samples.
pub open spec fn bins(b: int) -> int {
    b + 1
}

/// Partitions of an impulse response; at least one.
pub open spec fn partitions(ir_len: int, b: int) -> int {
    if ir_len <= 0 {
        1
    } else {
        (ir_len + b - 1) / b
    }
}

/// Scratch of a convolver with `p` partitions: two spectra for each partition,
/// two for each slot of the ring, the input window, and the working space of the
/// transforms.
pub open spec fn scratch_of(p: int, b: int) -> int {
    4 * (p * bins(b)) + 2 * b + (4 * b + 2 * bins(b))
}

/// Scratch for an impulse response of `ir_len` taps.
pub open spec fn scratch_len(ir_len: int, b: int) -> int {
    scratch_of(partitions(ir_len, b), b)
}

/// A stretch of the scratch region.
#[derive(Debug, Clone, Copy, PartialEq, Eq, Structural)]
pub struct Span {
    pub start: usize,
    pub len: usize,
}

impl Span {
    /// The first index behind the stretch.
    pub open spec fn end(&self) -> int {
        self.start + self.len
    }
}

/// Where each part of a convolver lies in its scratch region.
#[derive(Debug, Clone, Copy, PartialEq, Eq, Structural)]
pub struct Layout {
    /// Real parts of the partitions' spectra.
    pub ir_re: Span,
    /// Imaginary parts of the partitions' spectra.
    pub ir_im: Span,
    /// Real parts of the ring of input spectra.
    pub xh_re: Span,
    /// Imaginary parts of the ring of input spectra.
    pub xh_im: Span,
    /// The sliding input window.
    pub win: Span,
    /// Working space of the transforms.
    pub work: Span,
}

/// The layout for `p` partitions: one part directly behind the other.
pub open spec fn layout_of(p: int, b: int) -> Layout {
    let ps = p * bins(b);
    Layout {
        ir_re: Span { start: 0, len: ps as usize },
        ir_im: Span { start: ps as usize, len: ps as usize },
        xh_re: Span { start: (2 * ps) as usize, len: ps as usize },
        xh_im: Span { start: (3 * ps) as usize, len: ps as usize },
        win: Span { start: (4 * ps) as usize, len: (2 * b) as usize },
        work: Span { start: (4 * ps + 2 * b) as usize, len: (4 * b + 2 * bins(b)) as usize },
    }
}

/// A uniformly partitioned convolver: its geometry, and where its ring stands.
#[derive(Debug, Clone, Copy, PartialEq, Eq, Structural)]
pub struct Convolver {
    ir_len: usize,
    b: usize,
    p: usize,
    head: usize,
}

/// Slots of a ring of `p` that hold the block `ago` blocks before the newest,
/// which is in slot `head`.
pub open spec fn slot_of(head: int, p: int, ago: int) -> int {
    (head + p - ago) % p
}

impl Convolver {
    /// Taps of the impulse response.
    pub closed spec fn taps(&self) -> int {
        self.ir_len as int
    }

    /// Block length.
    pub closed spec fn block(&self) -> int {
        self.b as int
    }

    /// Number of partitions.
    pub closed spec fn parts(&self) -> int {
        self.p as int
    }

    /// Slot of the block that comes next.
    pub closed spec fn position(&self) -> int {
        self.head as int
    }

    /// Validity of a convolver.
    pub closed spec fn wf(&self) -> bool {
        &&& self.b >= 8
        &&& self.p == partitions(self.ir_len as int, self.b as int)
        &&& self.p >= 1
        &&& self.head < self.p
        &&& scratch_of(self.p as int, self.b as int) <= usize::MAX
    }

    /// Scratch length that an impulse response of `ir_len` taps needs at block
    /// length `b`.
    pub fn required_scratch(ir_len: usize, b: usize) -> (n: usize)
        requires
            b > 0,
            scratch_len(ir_len as int, b as int) <= usize::MAX,
        ensures
            n == scratch_len(ir_len as int, b as int),
    {
        let p = partition_count(ir_len, b);
        proof {
            lemma_scratch_parts(p as int, b as int);
        }
        let s: usize = b + 1;
        4 * (p * s) + 2 * b + (4 * b + 2 * s)
    }

    /// A convolver for an impulse response of `ir_len` taps, block length `b`, in
    /// a scratch region of `scratch` samples.
    pub fn new(ir_len: usize, b: usize, scratch: usize) -> (c: Self)
        requires
            fft::is_pow2(b as nat),
            b >= 8,
            scratch >= scratch_len(ir_len as int, b as int),
        ensures
            c.wf(),
            c.taps() == ir_len,
            c.block() == b,
            c.parts() == partitions(ir_len as int, b as int),
            c.position() == 0,
    {
        let p = partition_count(ir_len, b);
        Convolver { ir_len, b, p, head: 0 }
    }

    /// Where the parts lie.
    pub fn layout(&self) -> (l: Layout)
        requires
            self.wf(),
        ensures
            l == layout_of(self.parts(), self.block()),
    {
        proof {
            lemma_scratch_parts(self.p as int, self.b as int);
        }
        let s: usize = self.b + 1;
        let ps: usize = self.p * s;
        Layout {
            ir_re: Span { start: 0, len: ps },
            ir_im: Span { start: ps, len: ps },
            xh_re: Span { start: 2 * ps, len: ps },
            xh_im: Span { start: 3 * ps, len: ps },
            win: Span { start: 4 * ps, len: 2 * self.b },
            work: Span { start: 4 * ps + 2 * self.b, len: 4 * self.b + 2 * s },
        }
    }

    /// The tap that stands at place `i` of the frame of partition `part`; `None`
    /// where the frame is silent.
    pub fn tap(&self, part: usize, i: usize) -> (t: Option<usize>)
        requires
            self.wf(),
            part < self.parts(),
        ensures
            t == if i < self.block() && part * self.block() + i < self.taps() {
                Some((part * self.block() + i) as usize)
            } else {
                None::<usize>
            },
    {
        if i >= self.b {
            return None;
        }
        proof {
            lemma_part_fits(self.ir_len as int, self.b as int, part as int);
        }
        let first: usize = part * self.b;
        if i < self.ir_len && first < self.ir_len && i < self.ir_len - first {
            Some(first + i)
        } else {
            None
        }
    }

    /// Spectrum of partition `part`, within the partitions' spectra.
    pub fn part_span(&self, part: usize) -> (s: Span)
        requires
            self.wf(),
            part < self.parts(),
        ensures
            s.start == part * bins(self.block()),
            s.len == bins(self.block()),
            s.end() <= self.parts() * bins(self.block()),
    {
        proof {
            lemma_scratch_parts(self.p as int, self.b as int);
            lemma_slot_fits(self.p as int, self.b as int, part as int);
        }
        Span { start: part * (self.b + 1), len: self.b + 1 }
    }

    /// Spectrum, within the ring, of the block `ago` blocks before the newest.
    pub fn ring_span(&self, ago: usize) -> (s: Span)
        requires
            self.wf(),
            ago < self.parts(),
        ensures
            s.start == slot_of(self.position(), self.parts(), ago as int) * bins(self.block()),
            s.len == bins(self.block()),
            s.end() <= self.parts() * bins(self.block()),
    {
        let slot: usize = if ago <= self.head {
            self.head - ago
        } else {
            self.p - (ago - self.head)
        };
        proof {
            lemma_scratch_parts(self.p as int, self.b as int);
            lemma_slot_fits(self.p as int, self.b as int, slot as int);
            lemma_slot(self.head as int, self.p as int, ago as int);
        }
        Span { start: slot * (self.b + 1), len: self.b + 1 }
    }

    /// Goes on to the next block.
    pub fn advance(&mut self)
        requires
            old(self).wf(),
        ensures
            final(self).wf(),
            final(self).taps() == old(self).taps(),
            final(self).block() == old(self).block(),
            final(self).parts() == old(self).parts(),
            final(self).position() == (old(self).position() + 1) % old(self).parts(),
    {
        proof {
            lemma_step(self.head as int, self.p as int);
        }
        self.head = if self.head + 1 == self.p {
            0
        } else {
            self.head + 1
        };
    }
}

fn partition_count(ir_len: usize, b: usize) -> (p: usize)
    requires
        b > 0,
    ensures
        p == partitions(ir_len as int, b as int),
        p >= 1,
{
    if ir_len == 0 {
        return 1;
    }
    let p: usize = (ir_len - 1) / b + 1;
    assert(p == (ir_len + b - 1) / (b as int)) by (nonlinear_arith)
        requires
            p == (ir_len - 1) / (b as int) + 1,
            b > 0,
            ir_len > 0,
    ;
    p
}

proof fn lemma_scratch_parts(p: int, b: int)
    requires
        p >= 1,
        b >= 0,
    ensures
        p * bins(b) >= bins(b),
        p * (b + 1) == p * bins(b),
{
    assert(p * (b + 1) >= b + 1) by (nonlinear_arith)
        requires
            p >= 1,
            b >= 0,
    ;
}

proof fn lemma_slot_fits(p: int, b: int, slot: int)
    requires
        0 <= slot < p,
        b >= 0,
    ensures
        0 <= slot * bins(b),
        slot * bins(b) + bins(b) <= p * bins(b),
{
    assert(slot * (b + 1) + (b + 1) <= p * (b + 1)) by (nonlinear_arith)
        requires
            0 <= slot < p,
            b >= 0,
    ;
    assert(0 <= slot * (b + 1)) by (nonlinear_arith)
        requires
            0 <= slot,
            b >= 0,
    ;
}

proof fn lemma_part_fits(ir_len: int, b: int, part: int)
    requires
        b > 0,
        ir_len >= 0,
        0 <= part < partitions(ir_len, b),
    ensures
        0 <= part * b,
        ir_len > 0 ==> part * b < ir_len,
        ir_len == 0 ==> part * b == 0,
{
    if ir_len > 0 {
        let p = (ir_len + b - 1) / b;
        assert(part * b < ir_len) by (nonlinear_arith)
            requires
                p == (ir_len + b - 1) / b,
                b > 0,
                0 <= part < p,
        ;
    } else {
        assert(part * b == 0) by (nonlinear_arith)
            requires
                part == 0,
        ;
    }
    assert(0 <= part * b) by (nonlinear_arith)
        requires
            0 <= part,
            b > 0,
    ;
}

proof fn lemma_slot(head: int, p: int, ago: int)
    requires
        0 <= head < p,
        0 <= ago < p,
    ensures
        slot_of(head, p, ago) == if ago <= head {
            head - ago
        } else {
            head + p - ago
        },
{
    if ago <= head {
        vstd::arithmetic::div_mod::lemma_mod_add_multiples_vanish(head - ago, p);
        vstd::arithmetic::div_mod::lemma_small_mod((head - ago) as nat, p as nat);
    } else {
        vstd::arithmetic::div_mod::lemma_small_mod((head + p - ago) as nat, p as nat);
    }
}

proof fn lemma_step(head: int, p: int)
    requires
        0 <= head < p,
    ensures
        (head + 1) % p == if head + 1 == p {
            0
        } else {
            head + 1
        },
{
    if head + 1 < p {
        vstd::arithmetic::div_mod::lemma_small_mod((head + 1) as nat, p as nat);
    } else {
        vstd::arithmetic::div_mod::lemma_mod_self_0(p);
    }
}

/// Every tap of the impulse response stands in exactly one place of exactly one
/// partition.
pub proof fn law_partitions_cover_the_response(ir_len: int, b: int, t: int, part: int, i: int)
    requires
        b > 0,
        0 <= t < ir_len,
    ensures
        0 <= t / b < partitions(ir_len, b),
        t == (t / b) * b + t % b,
        0 <= t % b < b,
        0 <= i < b && t == part * b + i ==> part == t / b && i == t % b,
{
    let p = (ir_len + b - 1) / b;
    vstd::arithmetic::div_mod::lemma_fundamental_div_mod(t, b);
    assert(0 <= t / b < p && 0 <= t % b < b && t == (t / b) * b + t % b) by (nonlinear_arith)
        requires
            b > 0,
            0 <= t < ir_len,
            p == (ir_len + b - 1) / b,
    ;
    if 0 <= i < b && t == part * b + i {
        vstd::arithmetic::div_mod::lemma_fundamental_div_mod_converse(t, b, part, i);
    }
}

/// The parts of the layout follow each other without gap or overlap and fill the
/// required scratch exactly.
pub proof fn law_layout_fills_the_scratch(p: int, b: int)
    requires
        p >= 1,
        b >= 1,
        scratch_of(p, b) <= usize::MAX,
    ensures
        ({
            let l = layout_of(p, b);
            &&& l.ir_re.start == 0
            &&& l.ir_re.end() == l.ir_im.start
            &&& l.ir_im.end() == l.xh_re.start
            &&& l.xh_re.end() == l.xh_im.start
            &&& l.xh_im.end() == l.win.start
            &&& l.win.end() == l.work.start
            &&& l.work.end() == scratch_of(p, b)
            &&& l.ir_re.len == p * bins(b)
            &&& l.xh_re.len == p * bins(b)
        }),
{
    lemma_scratch_parts(p, b);
}

/// When block number `m` is in the ring, the slot read for `ago` blocks earlier
/// is the one that block `m - ago` went to, and none since has overwritten it.
pub proof fn law_ring_holds_the_past(m: int, p: int, ago: int, j: int)
    requires
        p >= 1,
        0 <= ago < p,
        ago <= m,
        m - ago < j <= m,
    ensures
        slot_of(m % p, p, ago) == (m - ago) % p,
        j % p != (m - ago) % p,
{
    lemma_ring_slot(m, p, ago);
    let k = j - (m - ago);
    assert(j % p != (j - k) % p) by {
        if j % p == (j - k) % p {
            vstd::arithmetic::div_mod::lemma_fundamental_div_mod(j, p);
            vstd::arithmetic::div_mod::lemma_fundamental_div_mod(j - k, p);
            let q = j / p - (j - k) / p;
            assert(k == p * q) by (nonlinear_arith)
                requires
                    j == p * (j / p) + j % p,
                    j - k == p * ((j - k) / p) + (j - k) % p,
                    j % p == (j - k) % p,
                    q == j / p - (j - k) / p,
            ;
            assert(false) by (nonlinear_arith)
                requires
                    k == p * q,
                    0 < k < p,
            ;
        }
    }
}

proof fn lemma_ring_slot(m: int, p: int, ago: int)
    requires
        p >= 1,
        0 <= ago < p,
        ago <= m,
    ensures
        slot_of(m % p, p, ago) == (m - ago) % p,
{
    vstd::arithmetic::div_mod::lemma_fundamental_div_mod(m, p);
    let q = m / p;
    let x = m % p - ago;
    assert(m - ago == p * q + x);
    vstd::arithmetic::div_mod::lemma_mod_multiples_vanish(q, x, p);
    vstd::arithmetic::div_mod::lemma_mod_add_multiples_vanish(x, p);
}

/// The slot of the newest block is its number modulo the partitions, however
/// many blocks have passed.
pub proof fn law_position_counts_blocks(m: int, p: int)
    requires
        p >= 1,
        m >= 0,
    ensures
        (m % p + 1) % p == (m + 1) % p,
{
    vstd::arithmetic::div_mod::lemma_add_mod_noop(m, 1, p);
    vstd::arithmetic::div_mod::lemma_mod_twice(m, p);
    vstd::arithmetic::div_mod::lemma_add_mod_noop(m % p, 1, p);
}

/// Scratch of a convolver for each ear.
pub fn stereo_scratch(ir_len: usize, b: usize) -> (n: usize)
    requires
        b > 0,
        2 * scratch_len(ir_len as int, b as int) <= usize::MAX,
    ensures
        n == 2 * scratch_len(ir_len as int, b as int),
{
    2 * Convolver::required_scratch(ir_len, b)
}

/// There are just enough partitions: they hold all taps, and one fewer would
/// not. An empty response still has one.
pub proof fn law_partitions_are_the_fewest(ir_len: int, b: int)
    requires
        b > 0,
    ensures
        ir_len > 0 ==> (partitions(ir_len, b) - 1) * b < ir_len <= partitions(ir_len, b) * b,
        ir_len <= 0 ==> partitions(ir_len, b) == 1,
{
    let p = (ir_len + b - 1) / b;
    assert(ir_len > 0 ==> (p - 1) * b < ir_len <= p * b) by (nonlinear_arith)
        requires
            b > 0,
            p == (ir_len + b - 1) / b,
    ;
}

/// The sizes of the parts: a spectrum has one bin more than a block has samples,
/// each partition has a real and an imaginary spectrum of its own and another
/// pair in the ring, the window holds two blocks, and the working space two
/// complex windows and a complex spectrum.
pub proof fn law_parts_have_their_sizes(p: int, b: int)
    requires
        p >= 1,
        b >= 1,
        scratch_of(p, b) <= usize::MAX,
    ensures
        ({
            let l = layout_of(p, b);
            &&& l.ir_re.len == p * (b + 1)
            &&& l.ir_im.len == p * (b + 1)
            &&& l.xh_re.len == p * (b + 1)
            &&& l.xh_im.len == p * (b + 1)
            &&& l.win.len == 2 * b
            &&& l.work.len == 4 * b + 2 * (b + 1)
            &&& l.ir_re.start == 0
            &&& l.work.start + l.work.len == scratch_of(p, b)
        }),
        scratch_of(p, b) == 4 * (p * (b + 1)) + 8 * b + 2,
{
    assert(p * (b + 1) >= 0) by (nonlinear_arith)
        requires
            p >= 1,
            b >= 1,
    ;
}

} // verus!
