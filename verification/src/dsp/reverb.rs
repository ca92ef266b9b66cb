//! Rings of the feedback delay network: where each delay line and each input
//! diffuser lies in the shared buffer, and how the rings turn.
use vstd::prelude::*;

verus! {

/// Delay lines.
pub const LINES: usize = 8;

/// Input diffusers.
pub const DIFFUSERS: usize = 4;

/// Loop lengths of the delay lines, in samples: primes, about 21 to 35 ms at
/// 48 kHz.
pub const DELAYS: [usize; LINES] = [1009, 1103, 1201, 1301, 1399, 1499, 1601, 1699];

/// Delays of the input diffusers, in samples.
pub const DIFF_DELAYS: [usize; DIFFUSERS] = [149, 211, 293, 379];

/// First sample of each delay line in the buffer.
pub const STARTS: [usize; LINES] = [0, 1009, 2112, 3313, 4614, 6013, 7512, 9113];

/// First sample of each diffuser in the buffer, behind the lines.
pub const DIFF_STARTS: [usize; DIFFUSERS] = [10812, 10961, 11172, 11465];

/// Samples that the buffer must hold.
pub const REQUIRED_BUF: usize = 11844;

/// Sum of the first `n` delays.
pub open spec fn sum(delays: Seq<usize>, n: nat) -> int
    decreases n,
{
    if n == 0 {
        0
    } else {
        sum(delays, (n - 1) as nat) + delays[n - 1]
    }
}

/// The ring positions of a feedback delay network.
#[derive(Debug, Clone, Copy)]
pub struct FdnReverb {
    pos: [usize; LINES],
    diff_pos: [usize; DIFFUSERS],
}

/// The position after one turn of a ring of `d` samples.
pub open spec fn turned(pos: int, d: int) -> int {
    if pos + 1 == d {
        0
    } else {
        pos + 1
    }
}

impl FdnReverb {
    /// Positions of the delay lines.
    pub closed spec fn lines(&self) -> Seq<usize> {
        self.pos@
    }

    /// Positions of the diffusers.
    pub closed spec fn diffusers(&self) -> Seq<usize> {
        self.diff_pos@
    }

    /// Validity of the positions.
    pub open spec fn wf(&self) -> bool {
        &&& self.lines().len() == 8
        &&& self.diffusers().len() == 4
        &&& forall|i: int|
            0 <= i < 8 ==> (#[trigger] self.lines()[i]) < DELAYS@[i]
        &&& forall|k: int|
            0 <= k < 4 ==> (#[trigger] self.diffusers()[k]) < DIFF_DELAYS@[k]
    }

    /// All rings at their start, over a buffer of `len` samples.
    pub fn new(len: usize) -> (r: Self)
        requires
            len >= REQUIRED_BUF,
        ensures
            r.wf(),
            r.lines() == Seq::new(8, |i: int| 0usize),
            r.diffusers() == Seq::new(4, |k: int| 0usize),
    {
        let r = FdnReverb { pos: [0; LINES], diff_pos: [0; DIFFUSERS] };
        assert(r.lines() =~= Seq::new(8, |i: int| 0usize));
        assert(r.diffusers() =~= Seq::new(4, |k: int| 0usize));
        r
    }

    /// The sample of line `i` that is written next.
    pub fn line_cell(&self, i: usize) -> (c: usize)
        requires
            self.wf(),
            i < LINES,
        ensures
            c == STARTS@[i as int] + self.lines()[i as int],
    {
        proof {
            lemma_in_buffer(i as int);
        }
        STARTS[i] + self.pos[i]
    }

    /// Position of line `i`.
    pub fn position(&self, i: usize) -> (p: usize)
        requires
            self.wf(),
            i < LINES,
        ensures
            p == self.lines()[i as int],
    {
        self.pos[i]
    }

    /// The two samples of line `i` between which a read at `i0` and a fraction
    /// lies; behind the last comes the first.
    pub fn read_cells(&self, i: usize, i0: usize) -> (c: (usize, usize))
        requires
            self.wf(),
            i < LINES,
            i0 < DELAYS@[i as int],
        ensures
            c.0 == STARTS@[i as int] + i0,
            c.1 == STARTS@[i as int] + turned(i0 as int, DELAYS@[i as int] as int),
            c.0 < REQUIRED_BUF,
            c.1 < REQUIRED_BUF,
    {
        proof {
            lemma_in_buffer(i as int);
        }
        let i1: usize = if i0 + 1 == DELAYS[i] {
            0
        } else {
            i0 + 1
        };
        (STARTS[i] + i0, STARTS[i] + i1)
    }

    /// The sample of diffuser `k` that is read and then written; its ring turns.
    pub fn diffuse(&mut self, k: usize) -> (c: usize)
        requires
            old(self).wf(),
            k < DIFFUSERS,
        ensures
            final(self).wf(),
            c == DIFF_STARTS@[k as int] + old(self).diffusers()[k as int],
            c < REQUIRED_BUF,
            final(self).lines() == old(self).lines(),
            final(self).diffusers() == old(self).diffusers().update(
                k as int,
                turned(
                    old(self).diffusers()[k as int] as int,
                    DIFF_DELAYS@[k as int] as int,
                ) as usize,
            ),
    {
        proof {
            lemma_in_diffuser(k as int);
        }
        let p = self.diff_pos[k];
        assert(p == self.diffusers()[k as int]);
        let next: usize = if p + 1 == DIFF_DELAYS[k] {
            0
        } else {
            p + 1
        };
        self.diff_pos[k] = next;
        DIFF_STARTS[k] + p
    }

    /// Turns every line.
    pub fn advance(&mut self)
        requires
            old(self).wf(),
        ensures
            final(self).wf(),
            final(self).diffusers() == old(self).diffusers(),
            final(self).lines() == Seq::new(
                8,
                |i: int|
                    turned(old(self).lines()[i] as int, DELAYS@[i] as int) as usize,
            ),
    {
        let ghost before = self.lines();
        let mut i: usize = 0;
        while i < LINES
            invariant
                i <= 8,
                self.wf(),
                before.len() == 8,
                forall|j: int| 0 <= j < 8 ==> (#[trigger] before[j]) < DELAYS@[j],
                self.diffusers() == old(self).diffusers(),
                forall|j: int|
                    0 <= j < i ==> #[trigger] self.lines()[j] == turned(
                        before[j] as int,
                        DELAYS@[j] as int,
                    ),
                forall|j: int| i <= j < 8 ==> #[trigger] self.lines()[j] == before[j],
            decreases 8 - i,
        {
            proof {
                lemma_in_buffer(i as int);
            }
            let p = self.pos[i];
            assert(p == self.lines()[i as int]);
            let next: usize = if p + 1 == DELAYS[i] {
                0
            } else {
                p + 1
            };
            let ghost was = *self;
            self.pos[i] = next;
            assert(self.lines() =~= was.lines().update(i as int, next));
            i = i + 1;
        }
        assert(self.lines() =~= Seq::new(
            8,
            |i: int| turned(old(self).lines()[i] as int, DELAYS@[i] as int) as usize,
        ));
    }

    /// Every ring back to its start.
    pub fn reset(&mut self)
        ensures
            final(self).wf(),
            final(self).lines() == Seq::new(8, |i: int| 0usize),
            final(self).diffusers() == Seq::new(4, |k: int| 0usize),
    {
        *self = FdnReverb::new(REQUIRED_BUF);
    }
}

proof fn lemma_in_buffer(i: int)
    requires
        0 <= i < 8,
    ensures
        0 < DELAYS@[i],
        STARTS@[i] + DELAYS@[i] <= DIFF_STARTS@[0],
        DIFF_STARTS@[0] <= REQUIRED_BUF,
{
}

proof fn lemma_in_diffuser(k: int)
    requires
        0 <= k < 4,
    ensures
        0 < DIFF_DELAYS@[k],
        DIFF_STARTS@[k] + DIFF_DELAYS@[k] <= REQUIRED_BUF,
{
}

/// The lines lie one behind the other from the start of the buffer on, the
/// diffusers behind them, and together they fill the required buffer exactly:
/// no ring touches another's samples.
pub proof fn law_rings_are_apart(i: int, k: int)
    requires
        0 <= i < 8,
        0 <= k < 4,
    ensures
        STARTS@[i] == sum(DELAYS@, i as nat),
        DIFF_STARTS@[k] == sum(DELAYS@, 8) + sum(DIFF_DELAYS@, k as nat),
        REQUIRED_BUF == sum(DELAYS@, 8) + sum(DIFF_DELAYS@, 4),
{
    reveal_with_fuel(sum, 9);
}

/// A sample written to a ring of `d` comes up again after exactly `d` turns.
pub proof fn law_ring_delay(pos: int, d: int, n: nat)
    requires
        0 <= pos < d,
    ensures
        0 <= turned_n(pos, d, n) < d,
        n == d ==> turned_n(pos, d, n) == pos,
        0 < n < d ==> turned_n(pos, d, n) != pos,
{
    lemma_turned_n(pos, d, n);
    if n == d {
        vstd::arithmetic::div_mod::lemma_mod_add_multiples_vanish(pos, d);
        vstd::arithmetic::div_mod::lemma_small_mod(pos as nat, d as nat);
    } else if 0 < n < d {
        if pos + n < d {
            vstd::arithmetic::div_mod::lemma_small_mod((pos + n) as nat, d as nat);
        } else {
            vstd::arithmetic::div_mod::lemma_mod_add_multiples_vanish(pos + n - d, d);
            vstd::arithmetic::div_mod::lemma_small_mod((pos + n - d) as nat, d as nat);
        }
    }
}

/// The position after `n` turns.
pub open spec fn turned_n(pos: int, d: int, n: nat) -> int
    decreases n,
{
    if n == 0 {
        pos
    } else {
        turned(turned_n(pos, d, (n - 1) as nat), d)
    }
}

proof fn lemma_turned_n(pos: int, d: int, n: nat)
    requires
        0 <= pos < d,
    ensures
        turned_n(pos, d, n) == (pos + n) % d,
    decreases n,
{
    if n == 0 {
        vstd::arithmetic::div_mod::lemma_small_mod(pos as nat, d as nat);
    } else {
        lemma_turned_n(pos, d, (n - 1) as nat);
        let r = (pos + n - 1) % d;
        vstd::arithmetic::div_mod::lemma_add_mod_noop(pos + n - 1, 1, d);
        vstd::arithmetic::div_mod::lemma_mod_twice(pos + n - 1, d);
        vstd::arithmetic::div_mod::lemma_add_mod_noop(r, 1, d);
        if r + 1 < d {
            vstd::arithmetic::div_mod::lemma_small_mod((r + 1) as nat, d as nat);
        } else {
            vstd::arithmetic::div_mod::lemma_mod_self_0(d);
        }
    }
}

proof fn lemma_coprime(a: int, b: int, x: int, y: int, d: int)
    requires
        a * x + b * y == 1,
        d > 1,
    ensures
        !(a % d == 0 && b % d == 0),
{
    if a % d == 0 && b % d == 0 {
        vstd::arithmetic::div_mod::lemma_fundamental_div_mod(a, d);
        vstd::arithmetic::div_mod::lemma_fundamental_div_mod(b, d);
        let q = (a / d) * x + (b / d) * y;
        assert(d * q == 1) by (nonlinear_arith)
            requires
                a == d * (a / d),
                b == d * (b / d),
                a * x + b * y == 1,
                q == (a / d) * x + (b / d) * y,
        ;
        assert(false) by (nonlinear_arith)
            requires
                d * q == 1,
                d > 1,
        ;
    }
}

/// No two delay lines share a factor, nor do two diffusers: their echoes never
/// fall into one period.
pub proof fn law_delays_share_no_factor(i: int, j: int, d: int)
    requires
        d > 1,
    ensures
        0 <= i < j < 8 ==> !(DELAYS@[i] as int % d == 0 && DELAYS@[j] as int % d == 0),
        0 <= i < j < 4 ==> !(DIFF_DELAYS@[i] as int % d == 0 && DIFF_DELAYS@[j] as int % d == 0),
{
    lemma_coprime(1009, 1103, 176, -161, d);
    lemma_coprime(1009, 1201, -294, 247, d);
    lemma_coprime(1009, 1301, 450, -349, d);
    lemma_coprime(1009, 1399, 391, -282, d);
    lemma_coprime(1009, 1499, 517, -348, d);
    lemma_coprime(1009, 1601, -430, 271, d);
    lemma_coprime(1009, 1699, 490, -291, d);
    lemma_coprime(1103, 1201, -576, 529, d);
    lemma_coprime(1103, 1301, -46, 39, d);
    lemma_coprime(1103, 1399, 449, -354, d);
    lemma_coprime(1103, 1499, 723, -532, d);
    lemma_coprime(1103, 1601, -389, 268, d);
    lemma_coprime(1103, 1699, -630, 409, d);
    lemma_coprime(1201, 1301, 13, -12, d);
    lemma_coprime(1201, 1399, 431, -370, d);
    lemma_coprime(1201, 1499, -166, 133, d);
    lemma_coprime(1201, 1601, 4, -3, d);
    lemma_coprime(1201, 1699, -58, 41, d);
    lemma_coprime(1301, 1399, -414, 385, d);
    lemma_coprime(1301, 1499, -53, 46, d);
    lemma_coprime(1301, 1601, 539, -438, d);
    lemma_coprime(1301, 1699, 397, -304, d);
    lemma_coprime(1399, 1499, -15, 14, d);
    lemma_coprime(1399, 1601, -214, 187, d);
    lemma_coprime(1399, 1699, -572, 471, d);
    lemma_coprime(1499, 1601, 361, -338, d);
    lemma_coprime(1499, 1699, 841, -742, d);
    lemma_coprime(1601, 1699, 52, -49, d);
    lemma_coprime(149, 211, 17, -12, d);
    lemma_coprime(149, 293, 59, -30, d);
    lemma_coprime(149, 379, -117, 46, d);
    lemma_coprime(211, 293, 25, -18, d);
    lemma_coprime(211, 379, 97, -54, d);
    lemma_coprime(293, 379, -119, 92, d);
}

/// The rings lie one behind the other: each begins where the one before it
/// ends, the diffusers behind the delay lines, and the buffer ends with the last.
pub proof fn law_rings_follow_one_another(i: int, k: int)
    ensures
        STARTS@[0] == 0,
        0 <= i < 7 ==> STARTS@[i + 1] == STARTS@[i] + DELAYS@[i],
        DIFF_STARTS@[0] == STARTS@[7] + DELAYS@[7],
        0 <= k < 3 ==> DIFF_STARTS@[k + 1] == DIFF_STARTS@[k] + DIFF_DELAYS@[k],
        REQUIRED_BUF == DIFF_STARTS@[3] + DIFF_DELAYS@[3],
{
}

/// A ring turns by one place, and from its last place to its first.
pub proof fn law_ring_turns_by_one(pos: int, d: int)
    requires
        0 <= pos < d,
    ensures
        pos < d - 1 ==> turned(pos, d) == pos + 1,
        pos == d - 1 ==> turned(pos, d) == 0,
{
}

} // verus!
