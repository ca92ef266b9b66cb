//! Permutation and stage schedule of the power-of-two Fourier transforms.
use vstd::prelude::*;

verus! {

/// `n` is a power of two.
pub open spec fn is_pow2(n: nat) -> bool
    decreases n,
{
    if n <= 1 {
        n == 1
    } else {
        n % 2 == 0 && is_pow2(n / 2)
    }
}

/// `b` with its bits reversed, as an index into a table of `c` (a power of two)
/// entries: the lowest bit of `b` becomes the highest of the result.
pub open spec fn reversed(c: nat, b: nat) -> nat
    decreases c,
{
    if c <= 1 {
        0
    } else {
        reversed(c / 2, b / 2) + (b % 2) * (c / 2)
    }
}

/// Reversal stays inside the table.
pub proof fn lemma_reversed_bound(c: nat, b: nat)
    requires
        is_pow2(c),
    ensures
        reversed(c, b) < c,
    decreases c,
{
    if c > 1 {
        lemma_reversed_bound(c / 2, b / 2);
        let h = (c / 2) as int;
        assert((b % 2) * h <= h) by (nonlinear_arith)
            requires
                h >= 0,
        ;
    }
}

/// Reversal of an index given by its highest bit `h` and the rest.
proof fn lemma_reversed_top(c: nat, b: nat, h: nat)
    requires
        is_pow2(c),
        b < c,
        h < 2,
    ensures
        reversed(2 * c, b + c * h) == 2 * reversed(c, b) + h,
    decreases c,
{
    let d = c * h;
    assert(d == if h == 1 { c } else { 0 }) by (nonlinear_arith)
        requires
            h < 2,
            d == c * h,
    ;
    assert((2 * c) / 2 == c);
    if c == 1 {
        assert(reversed(1, (b + d) / 2) == 0);
        assert(reversed(1, b) == 0);
        assert((b + d) % 2 == h);
        assert(((b + d) % 2) * 1 == h);
    } else {
        let c2 = (c / 2) as nat;
        assert(c == 2 * c2);
        lemma_reversed_top(c2, b / 2, h);
        assert(c2 * h == if h == 1 { c2 } else { 0 }) by (nonlinear_arith)
            requires
                h < 2,
        ;
        assert((b + d) / 2 == b / 2 + c2 * h);
        assert((b + d) % 2 == b % 2);
        assert(reversed(2 * c2, (b + d) / 2) == 2 * reversed(c2, b / 2) + h);
        let e = (b % 2) as nat;
        assert(e * c == 2 * (e * c2)) by (nonlinear_arith)
            requires
                c == 2 * c2,
        ;
    }
}

/// Bit reversal undoes itself.
pub proof fn law_reversal_is_an_involution(c: nat, b: nat)
    requires
        is_pow2(c),
        b < c,
    ensures
        reversed(c, b) < c,
        reversed(c, reversed(c, b)) == b,
    decreases c,
{
    lemma_reversed_bound(c, b);
    if c > 1 {
        let c2 = (c / 2) as nat;
        let r = reversed(c2, b / 2);
        let d = (b % 2) as nat;
        law_reversal_is_an_involution(c2, b / 2);
        lemma_reversed_bound(c2, b / 2);
        lemma_reversed_top(c2, r, d);
        assert(d * c2 == c2 * d) by (nonlinear_arith);
        assert(2 * c2 == c);
        assert(reversed(c, b) == r + c2 * d);
        assert(reversed(c, r + c2 * d) == 2 * reversed(c2, r) + d);
    }
}

/// The sequence `s` read in bit-reversed order.
pub open spec fn reversed_order<T>(s: Seq<T>) -> Seq<T> {
    Seq::new(s.len(), |i: int| s[reversed(s.len(), i as nat) as int])
}

/// `reversed(n, i)` from `reversed(n, i - 1)`: add one at the top bit and let
/// the carry run downwards.
fn next_reversed(n: usize, i: usize, prev: usize) -> (j: usize)
    requires
        is_pow2(n as nat),
        0 < i < n,
        prev == reversed(n as nat, (i - 1) as nat),
    ensures
        j == reversed(n as nat, i as nat),
{
    let mut j = prev;
    let mut bit = n / 2;
    let ghost mut c: nat = n as nat;
    let ghost mut p: nat = (i - 1) as nat;
    while j >= bit
        invariant
            is_pow2(c),
            c > 1,
            c <= n,
            bit == c / 2,
            j == reversed(c, p),
            p + 1 < c,
            reversed(c, p + 1) == reversed(n as nat, i as nat),
        decreases bit,
    {
        proof {
            let c2 = (c / 2) as nat;
            lemma_reversed_bound(c2, p / 2);
            assert((p % 2) * c2 == if p % 2 == 1 { c2 } else { 0 }) by (nonlinear_arith);
            assert(p % 2 == 1);
            assert((p + 1) % 2 == 0 && (p + 1) / 2 == p / 2 + 1);
            assert(((p + 1) % 2) * c2 == 0) by (nonlinear_arith)
                requires
                    (p + 1) % 2 == 0,
            ;
            assert(reversed(c, p + 1) == reversed(c2, p / 2 + 1));
            assert(p / 2 + 1 < c2);
            c = c2;
            p = p / 2;
        }
        j = j - bit;
        bit = bit / 2;
    }
    proof {
        let c2 = (c / 2) as nat;
        assert((p % 2) * c2 == if p % 2 == 1 { c2 } else { 0 }) by (nonlinear_arith);
        assert(p % 2 == 0);
        assert((p + 1) % 2 == 1 && (p + 1) / 2 == p / 2);
        assert(((p + 1) % 2) * c2 == c2) by (nonlinear_arith)
            requires
                (p + 1) % 2 == 1,
        ;
        lemma_reversed_bound(c, p + 1);
    }
    j + bit
}

/// Standard base-2 bit-reversal permutation, in place. The length must be a
/// power of two.
pub fn bit_reverse<T: Copy>(x: &mut [T])
    requires
        is_pow2(old(x)@.len()),
    ensures
        final(x)@ == reversed_order(old(x)@),
{
    let n = x.len();
    let ghost s = x@;
    let mut j: usize = 0;
    let mut i: usize = 1;
    proof {
        lemma_reversed_zero(n as nat);
        assert forall|t: int| #![trigger x@[t]] 0 <= t < n && reversed(n as nat, t as nat) < 1 implies t
            == 0 by {
            law_reversal_is_an_involution(n as nat, t as nat);
        }
    }
    while i < n
        invariant
            n == x@.len() == s.len(),
            is_pow2(n as nat),
            1 <= i <= n,
            j == reversed(n as nat, (i - 1) as nat),
            forall|t: int| #![trigger x@[t]]
                0 <= t < n ==> x@[t] == if t < i || reversed(n as nat, t as nat) < i {
                    s[reversed(n as nat, t as nat) as int]
                } else {
                    s[t]
                },
        decreases n - i,
    {
        j = next_reversed(n, i, j);
        proof {
            law_reversal_is_an_involution(n as nat, i as nat);
        }
        let ghost before = x@;
        if i < j {
            let a = x[i];
            let b = x[j];
            x[i] = b;
            x[j] = a;
        }
        proof {
            assert forall|t: int| #![trigger x@[t]] 0 <= t < n implies x@[t] == if t < i + 1
                || reversed(n as nat, t as nat) < i + 1 {
                s[reversed(n as nat, t as nat) as int]
            } else {
                s[t]
            } by {
                law_reversal_is_an_involution(n as nat, t as nat);
                assert(before[t] == before[t]);
            }
        }
        i = i + 1;
    }
    assert(x@ =~= reversed_order(s));
}

proof fn lemma_reversed_zero(c: nat)
    ensures
        reversed(c, 0) == 0,
    decreases c,
{
    if c > 1 {
        lemma_reversed_zero(c / 2);
        assert(0 * (c / 2) == 0) by (nonlinear_arith);
    }
}

/// What a reversal does to the bits of an index: the lowest bit of `2 * b + d`
/// becomes the highest, worth `c`, and the rest is reversed below it.
pub proof fn law_reversal_moves_the_lowest_bit_up(c: nat, b: nat, d: nat)
    requires
        is_pow2(c),
        b < c,
        d < 2,
    ensures
        reversed(1, 0) == 0,
        reversed(2 * c, 2 * b + d) == reversed(c, b) + if d == 1 {
            c
        } else {
            0
        },
{
    assert((2 * b + d) / 2 == b && (2 * b + d) % 2 == d);
    assert((2 * c) / 2 == c);
    assert(0 * c == 0 && 1 * c == c) by (nonlinear_arith);
}

/// Powers of two: one, and twice every other.
pub proof fn law_powers_of_two_double(n: nat)
    ensures
        is_pow2(1),
        !is_pow2(0),
        is_pow2(2 * n) <==> is_pow2(n),
        n % 2 == 1 && n > 1 ==> !is_pow2(n),
{
    if n > 0 {
        assert((2 * n) / 2 == n);
    }
}

/// Reading in bit-reversed order puts the sample of each reversed place there.
pub proof fn law_reversed_order_picks_reversed_places<T>(s: Seq<T>, i: nat)
    requires
        is_pow2(s.len()),
        i < s.len(),
    ensures
        reversed_order(s).len() == s.len(),
        reversed_order(s)[reversed(s.len(), i) as int] == s[i as int],
{
    law_reversal_is_an_involution(s.len(), i);
}

} // verus!
