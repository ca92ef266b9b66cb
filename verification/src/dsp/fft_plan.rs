//! Stage plan of the mixed-radix transform, and the packing of real signals.
//!
//! After the bit reversal a transform of `l` points runs stages that each merge
//! four sub-transforms of `q` points into one of `4 * q`; where `l` is an odd
//! power of two, one stage that merges pairs goes before them.
use super::fft;
use super::twiddles::TW_MASTER;
use vstd::prelude::*;

verus! {

/// `l` is an odd power of two.
pub open spec fn is_odd_power(l: nat) -> bool
    decreases l,
{
    if l < 4 {
        l == 2
    } else {
        is_odd_power(l / 4)
    }
}

/// The sub-transform sizes of the stages that merge four, from `q` up to `l`.
pub open spec fn stage_sizes(q: int, l: int) -> Seq<int>
    decreases (if q < l { l - q } else { 0 }),
{
    if q <= 0 || q >= l {
        Seq::empty()
    } else {
        seq![q] + stage_sizes(4 * q, l)
    }
}

/// The stages of a transform: whether pairs are merged first, and the
/// sub-transform sizes of the stages that merge four.
#[derive(Debug)]
pub struct Plan {
    pub pairs: bool,
    pub sizes: Vec<usize>,
}

/// Size of the sub-transforms that the first stage of four merges.
pub open spec fn first_size(l: nat) -> int {
    if is_odd_power(l) {
        2
    } else {
        1
    }
}

/// `l` is `q` times a power of four.
pub open spec fn times_four(l: int, q: int) -> bool
    decreases (if q < l { l - q } else { 0 }),
{
    if q <= 0 || q >= l {
        q == l && q > 0
    } else {
        times_four(l, 4 * q)
    }
}

proof fn lemma_quarter(l: nat)
    requires
        fft::is_pow2(l),
        l >= 4,
    ensures
        fft::is_pow2(l / 4),
        4 * (l / 4) == l,
{
    reveal_with_fuel(fft::is_pow2, 3);
    assert(l / 2 / 2 == l / 4);
}

proof fn lemma_first_size(l: nat)
    requires
        fft::is_pow2(l),
    ensures
        quads(l) == first_size(l),
    decreases l,
{
    if l >= 4 {
        lemma_quarter(l);
        lemma_first_size(l / 4);
    }
}

/// `l` divided by four as often as that leaves a whole number.
pub open spec fn quads(l: nat) -> int
    decreases l,
{
    if l < 4 {
        l as int
    } else {
        quads(l / 4)
    }
}

proof fn lemma_times_four(l: nat, m: nat)
    requires
        fft::is_pow2(m),
        times_four(l as int, m as int),
    ensures
        times_four(l as int, quads(m)),
    decreases m,
{
    if m >= 4 {
        lemma_quarter(m);
        assert(times_four(l as int, (m / 4) as int)) by {
            if (m / 4) < l {
                assert(times_four(l as int, 4 * (m / 4) as int));
            } else {
                lemma_times_four_bound(l as int, m as int);
            }
        }
        lemma_times_four(l, m / 4);
    }
}

proof fn lemma_times_four_bound(l: int, q: int)
    requires
        times_four(l, q),
    ensures
        0 < q <= l,
    decreases (if q < l { l - q } else { 0 }),
{
    if q < l && q > 0 {
        lemma_times_four_bound(l, 4 * q);
    }
}

impl Plan {
    /// The stages of a transform of `l` points.
    pub fn new(l: usize) -> (p: Self)
        requires
            fft::is_pow2(l as nat),
            l <= TW_MASTER,
        ensures
            p.pairs == is_odd_power(l as nat),
            p.sizes@.len() == stage_sizes(first_size(l as nat), l as int).len(),
            forall|i: int|
                0 <= i < p.sizes@.len() ==> p.sizes@[i] == stage_sizes(
                    first_size(l as nat),
                    l as int,
                )[i],
    {
        let mut rest: usize = l;
        while rest >= 4
            invariant
                is_odd_power(rest as nat) == is_odd_power(l as nat),
                fft::is_pow2(rest as nat),
            decreases rest,
        {
            proof {
                lemma_quarter(rest as nat);
            }
            rest = rest / 4;
        }
        let pairs = rest == 2;
        let mut q: usize = if pairs {
            2
        } else {
            1
        };
        let ghost all = stage_sizes(first_size(l as nat), l as int);
        let mut sizes: Vec<usize> = Vec::new();
        while q < l
            invariant
                1 <= q,
                l <= 2048,
                q <= 4 * 2048,
                all.len() == sizes@.len() + stage_sizes(q as int, l as int).len(),
                forall|i: int| 0 <= i < sizes@.len() ==> sizes@[i] == all[i],
                forall|i: int|
                    0 <= i < stage_sizes(q as int, l as int).len() ==> all[sizes@.len() + i]
                        == stage_sizes(q as int, l as int)[i],
            decreases
                    if q < l {
                        l - q
                    } else {
                        0
                    },
        {
            let ghost now = stage_sizes(q as int, l as int);
            let ghost after = stage_sizes(4 * q as int, l as int);
            assert(now == seq![q as int] + after);
            assert(all[sizes@.len() as int + 0] == now[0]);
            proof {
                let k = sizes@.len() as int;
                assert forall|i: int| 0 <= i < after.len() implies all[k + 1 + i] == after[i] by {
                    assert(all[k + (i + 1)] == now[i + 1]);
                }
            }
            sizes.push(q);
            q = q * 4;
        }
        Plan { pairs, sizes }
    }
}

/// The stages end with one transform of all `l` points: each stage of four
/// multiplies the size by four, and the sizes reach `l` exactly.
pub proof fn law_stages_reach_the_length(l: nat)
    requires
        fft::is_pow2(l),
    ensures
        times_four(l as int, first_size(l)),
{
    lemma_first_size(l);
    lemma_times_four(l, l);
}

/// The four places that butterfly `j` of a stage of size `q` merges, and the
/// places of its two roots in the master table.
#[derive(Debug, Clone, Copy, PartialEq, Eq, Structural)]
pub struct Butterfly {
    pub p0: usize,
    pub p1: usize,
    pub p2: usize,
    pub p3: usize,
    /// Root of the first level.
    pub near: usize,
    /// Root of the second level.
    pub far: usize,
}

/// Place `m` of butterfly `j` in a stage of size `q`.
pub open spec fn place(q: int, j: int, m: int) -> int {
    (j / q) * (4 * q) + j % q + m * q
}

/// Butterfly `j` of a stage that merges sub-transforms of `q` points, in a
/// transform of `l`.
pub fn butterfly(l: usize, q: usize, j: usize) -> (b: Butterfly)
    requires
        0 < q,
        4 * q <= l <= TW_MASTER,
        l as int % (4 * q) == 0,
        j < l / 4,
    ensures
        b.p0 == place(q as int, j as int, 0),
        b.p1 == place(q as int, j as int, 1),
        b.p2 == place(q as int, j as int, 2),
        b.p3 == place(q as int, j as int, 3),
        b.p3 < l,
        b.near == (j as int % q as int) * (2048int / (2 * q)),
        b.far == (j as int % q as int) * (2048int / (4 * q)),
        b.near < 2048,
        b.far < 2048,
{
    proof {
        lemma_place_in_range(l as int, q as int, j as int);
    }
    let k: usize = j % q;
    let block: usize = j / q;
    assert(block * (4 * q) <= l) by (nonlinear_arith)
        requires
            block * (4 * q) + k + 3 * q < l,
            k >= 0,
            q > 0,
    ;
    let p0: usize = block * (4 * q) + k;
    let half = TW_MASTER / (2 * q);
    let quarter = TW_MASTER / (4 * q);
    proof {
        assert(k * half < 2048) by (nonlinear_arith)
            requires
                0 <= k < q,
                half == 2048int / (2 * q),
                q > 0,
        ;
        assert(k * quarter < 2048) by (nonlinear_arith)
            requires
                0 <= k < q,
                quarter == 2048int / (4 * q),
                q > 0,
        ;
    }
    Butterfly {
        p0,
        p1: p0 + q,
        p2: p0 + 2 * q,
        p3: p0 + 3 * q,
        near: k * half,
        far: k * quarter,
    }
}

proof fn lemma_place_in_range(l: int, q: int, j: int)
    requires
        0 < q,
        4 * q <= l,
        l % (4 * q) == 0,
        0 <= j < l / 4,
    ensures
        0 <= place(q, j, 0),
        (j / q) * (4 * q) + j % q + 3 * q < l,
        0 <= j % q < q,
        0 <= j / q,
{
    let n = l / (4 * q);
    vstd::arithmetic::div_mod::lemma_fundamental_div_mod(l, 4 * q);
    vstd::arithmetic::div_mod::lemma_fundamental_div_mod(j, q);
    assert(l == 4 * (n * q)) by (nonlinear_arith)
        requires
            l == (4 * q) * n,
    ;
    let b = j / q;
    let k = j % q;
    assert(0 <= k < q);
    assert(j < n * q);
    assert(0 <= b < n) by (nonlinear_arith)
        requires
            j == q * b + k,
            0 <= k < q,
            0 <= j < n * q,
    ;
    assert(b * (4 * q) + k + 3 * q < 4 * (n * q)) by (nonlinear_arith)
        requires
            0 <= b,
            b + 1 <= n,
            0 <= k < q,
    ;
    assert(b * (4 * q) >= 0) by (nonlinear_arith)
        requires
            0 <= b,
            0 < q,
    ;
}

/// In a stage every place belongs to exactly one butterfly, once: the stage
/// reads and writes each point exactly one time.
pub proof fn law_butterflies_share_nothing(l: int, q: int, x: int)
    requires
        0 < q,
        4 * q <= l,
        l % (4 * q) == 0,
        0 <= x < l,
    ensures
        ({
            let j = (x / (4 * q)) * q + x % q;
            let m = (x / q) % 4;
            &&& 0 <= j < l / 4
            &&& place(q, j, m) == x
        }),
        forall|j: int, m: int|
            #![trigger place(q, j, m)]
            0 <= j && 0 <= m < 4 && place(q, j, m) == x ==> j == (x / (4 * q)) * q + x % q && m == (x
                / q) % 4,
{
    let b = x / (4 * q);
    let r = x % (4 * q);
    let m = r / q;
    let k = r % q;
    vstd::arithmetic::div_mod::lemma_fundamental_div_mod(x, 4 * q);
    vstd::arithmetic::div_mod::lemma_fundamental_div_mod(r, q);
    assert(b * (4 * q) + k + m * q == x) by (nonlinear_arith)
        requires
            x == (4 * q) * b + r,
            r == q * m + k,
    ;
    assert(0 <= m < 4) by (nonlinear_arith)
        requires
            r == q * m + k,
            0 <= k < q,
            0 <= r < 4 * q,
    ;
    assert(b >= 0) by (nonlinear_arith)
        requires
            x == (4 * q) * b + r,
            0 <= r < 4 * q,
            0 <= x,
            q > 0,
    ;
    lemma_digits(q, b, m, k);
    let j = b * q + k;
    vstd::arithmetic::div_mod::lemma_fundamental_div_mod_converse(j, q, b, k);
    let n = l / (4 * q);
    vstd::arithmetic::div_mod::lemma_fundamental_div_mod(l, 4 * q);
    assert(b < n) by (nonlinear_arith)
        requires
            x == (4 * q) * b + r,
            0 <= r,
            x < l,
            l == (4 * q) * n,
            q > 0,
    ;
    assert(b * q + k < n * q) by (nonlinear_arith)
        requires
            b + 1 <= n,
            0 <= k < q,
    ;
    assert(l == 4 * (n * q)) by (nonlinear_arith)
        requires
            l == (4 * q) * n,
    ;
    assert(b * q >= 0) by (nonlinear_arith)
        requires
            b >= 0,
            q > 0,
    ;
    assert forall|j2: int, m2: int|
        #![trigger place(q, j2, m2)]
        0 <= j2 && 0 <= m2 < 4 && place(q, j2, m2) == x implies j2 == b * q + k && m2 == m by {
        let b2 = j2 / q;
        let k2 = j2 % q;
        vstd::arithmetic::div_mod::lemma_fundamental_div_mod(j2, q);
        assert(b2 >= 0) by (nonlinear_arith)
            requires
                j2 == q * b2 + k2,
                0 <= k2 < q,
                0 <= j2,
        ;
        lemma_digits(q, b2, m2, k2);
        assert(b2 * (4 * q) + k2 + m2 * q == x);
        assert(q * b2 == b2 * q) by (nonlinear_arith);
    }
}

/// The block, the quarter and the offset of a place can be read off it.
proof fn lemma_digits(q: int, b: int, m: int, k: int)
    requires
        0 < q,
        0 <= b,
        0 <= m < 4,
        0 <= k < q,
    ensures
        ({
            let x = b * (4 * q) + k + m * q;
            &&& x / (4 * q) == b
            &&& x % q == k
            &&& (x / q) % 4 == m
        }),
{
    let x = b * (4 * q) + k + m * q;
    assert(0 <= k + m * q < 4 * q) by (nonlinear_arith)
        requires
            0 <= k < q,
            0 <= m <= 3,
    ;
    vstd::arithmetic::div_mod::lemma_fundamental_div_mod_converse(x, 4 * q, b, k + m * q);
    let d = 4 * b + m;
    assert(x == d * q + k) by (nonlinear_arith)
        requires
            x == b * (4 * q) + k + m * q,
            d == 4 * b + m,
    ;
    vstd::arithmetic::div_mod::lemma_fundamental_div_mod_converse(x, q, d, k);
}

// ---------------------------------------------------------------------------
// Real signals
// ---------------------------------------------------------------------------

/// The samples at even places.
pub open spec fn even_samples<T>(s: Seq<T>) -> Seq<T> {
    Seq::new((s.len() / 2) as nat, |i: int| s[2 * i])
}

/// The samples at odd places.
pub open spec fn odd_samples<T>(s: Seq<T>) -> Seq<T> {
    Seq::new((s.len() / 2) as nat, |i: int| s[2 * i + 1])
}

/// Two sequences interleaved.
pub open spec fn interleaved<T>(re: Seq<T>, im: Seq<T>) -> Seq<T> {
    Seq::new(
        2 * re.len(),
        |i: int|
            if i % 2 == 0 {
                re[i / 2]
            } else {
                im[i / 2]
            },
    )
}

/// Packs a real signal as half as many complex points: the samples at even
/// places are the real parts, those at odd places the imaginary parts.
pub fn pack<T: Copy>(input: &[T], re: &mut [T], im: &mut [T])
    requires
        input@.len() == 2 * old(re)@.len(),
        old(im)@.len() == old(re)@.len(),
    ensures
        final(re)@ == even_samples(input@),
        final(im)@ == odd_samples(input@),
{
    let l = re.len();
    let n = input.len();
    let mut i: usize = 0;
    while i < l
        invariant
            l == re@.len(),
            l == im@.len(),
            n == input@.len(),
            n == 2 * l,
            i <= l,
            forall|j: int| 0 <= j < i ==> re@[j] == input@[2 * j],
            forall|j: int| 0 <= j < i ==> im@[j] == input@[2 * j + 1],
        decreases l - i,
    {
        re[i] = input[2 * i];
        im[i] = input[2 * i + 1];
        i = i + 1;
    }
    assert(re@ =~= even_samples(input@));
    assert(im@ =~= odd_samples(input@));
}

/// Unpacks complex points to a real signal.
pub fn unpack<T: Copy>(re: &[T], im: &[T], output: &mut [T])
    requires
        old(output)@.len() == 2 * re@.len(),
        im@.len() == re@.len(),
    ensures
        final(output)@ == interleaved(re@, im@),
{
    let l = re.len();
    let n = output.len();
    let mut i: usize = 0;
    while i < l
        invariant
            l == re@.len(),
            l == im@.len(),
            n == output@.len(),
            n == 2 * l,
            i <= l,
            forall|j: int|
                0 <= j < 2 * i ==> output@[j] == if j % 2 == 0 {
                    re@[j / 2]
                } else {
                    im@[j / 2]
                },
        decreases l - i,
    {
        output[2 * i] = re[i];
        output[2 * i + 1] = im[i];
        i = i + 1;
    }
    assert(output@ =~= interleaved(re@, im@));
}

/// Unpacking undoes packing.
pub proof fn law_packing_round_trip<T>(s: Seq<T>)
    requires
        s.len() % 2 == 0,
    ensures
        interleaved(even_samples(s), odd_samples(s)) == s,
{
    assert(interleaved(even_samples(s), odd_samples(s)) =~= s);
}

/// The two packed bins that bin `k` of a real spectrum is made of, in a packed
/// transform of `l` points: `k` itself and its mirror image, both taken round.
pub fn mirror_bins(k: usize, l: usize) -> (r: (usize, usize))
    requires
        k <= l,
        l > 0,
    ensures
        r.0 == k as int % l as int,
        r.1 == (l - k) % l as int,
        r.0 < l,
        r.1 < l,
{
    proof {
        if k < l {
            vstd::arithmetic::div_mod::lemma_small_mod(k as nat, l as nat);
        } else {
            vstd::arithmetic::div_mod::lemma_mod_self_0(l as int);
        }
        if k > 0 {
            vstd::arithmetic::div_mod::lemma_small_mod((l - k) as nat, l as nat);
        } else {
            vstd::arithmetic::div_mod::lemma_mod_self_0(l as int);
        }
    }
    (
        if k == l {
            0
        } else {
            k
        },
        if k == 0 {
            0
        } else {
            l - k
        },
    )
}

/// Packing takes the samples in turns: first to the real parts, second to the
/// imaginary parts; unpacking puts them back in turns.
pub proof fn law_samples_alternate<T>(s: Seq<T>, re: Seq<T>, im: Seq<T>, i: int)
    requires
        re.len() == im.len(),
    ensures
        even_samples(s).len() == s.len() / 2,
        odd_samples(s).len() == s.len() / 2,
        0 <= i < s.len() / 2 ==> even_samples(s)[i] == s[2 * i] && odd_samples(s)[i] == s[2 * i
            + 1],
        interleaved(re, im).len() == 2 * re.len(),
        0 <= i < re.len() ==> interleaved(re, im)[2 * i] == re[i] && interleaved(re, im)[2 * i + 1]
            == im[i],
{
}

/// Each stage of four merges sub-transforms four times the size of those before
/// it. The first has size `q`, all are shorter than the transform, and one more
/// stage would not be.
pub proof fn law_stages_grow_by_four(q: int, l: int, i: int)
    requires
        q > 0,
        0 <= i < stage_sizes(q, l).len(),
    ensures
        stage_sizes(q, l)[0] == q,
        stage_sizes(q, l)[i] < l,
        i + 1 < stage_sizes(q, l).len() ==> stage_sizes(q, l)[i + 1] == 4 * stage_sizes(q, l)[i],
        i + 1 == stage_sizes(q, l).len() ==> 4 * stage_sizes(q, l)[i] >= l,
    decreases (if q < l { l - q } else { 0 }),
{
    if q < l {
        if i > 0 {
            law_stages_grow_by_four(4 * q, l, i - 1);
        } else if 4 * q < l {
            reveal_with_fuel(stage_sizes, 2);
        }
    }
}

/// Pairs are merged first for twice a power of four, and not for a power of
/// four.
pub proof fn law_pairs_by_length(l: nat)
    ensures
        is_odd_power(2),
        !is_odd_power(1),
        l >= 1 ==> is_odd_power(4 * l) == is_odd_power(l),
        first_size(2) == 2,
        first_size(1) == 1,
        l >= 1 ==> first_size(4 * l) == first_size(l),
{
    assert((4 * l) / 4 == l);
}

/// The four places of a butterfly lie `q` apart.
pub proof fn law_butterfly_places_are_evenly_spaced(q: int, j: int, m: int)
    ensures
        place(q, j, m + 1) == place(q, j, m) + q,
        0 <= j < q ==> place(q, j, 0) == j,
        q > 0 && j >= 0 ==> place(q, j + q, m) == place(q, j, m) + 4 * q,
{
    assert((m + 1) * q == m * q + q) by (nonlinear_arith);
    assert(0 * q == 0);
    if 0 <= j < q {
        vstd::arithmetic::div_mod::lemma_small_mod(j as nat, q as nat);
        vstd::arithmetic::div_mod::lemma_basic_div(j, q);
        assert(0 * (4 * q) == 0);
    }
    if q > 0 && j >= 0 {
        vstd::arithmetic::div_mod::lemma_mod_add_multiples_vanish(j, q);
        vstd::arithmetic::div_mod::lemma_div_plus_one(j, q);
        let k = j / q;
        assert((k + 1) * (4 * q) == k * (4 * q) + 4 * q) by (nonlinear_arith);
    }
}

} // verus!
