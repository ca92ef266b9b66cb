//! Fixed-point (Q15) complex FFT.
//!
//! A complex Q15 sample is packed into one `i32`, real part in the low half
//! word and imaginary part in the high half word. The transform is built on the
//! packed operations of the ARMv7E-M DSP extension: `SMUSD` and `SMUADX` give
//! the two parts of a complex product, `SHADD16` and `SHSUB16` a butterfly with
//! its halving. The halving in each stage keeps Q15 from overflowing, so the
//! output is the transform scaled by the inverse of the length.
use super::fft;
use super::fft::bit_reverse;
use super::twiddles;
use super::twiddles::{cosine_at, TW_MASTER};
use vstd::prelude::*;

verus! {

/// Real part of a packed sample: the low half word, sign-extended.
pub open spec fn re_of(x: i32) -> int {
    (x + 32768) % 65536 - 32768
}

/// Imaginary part of a packed sample: the high half word, sign-extended.
pub open spec fn im_of(x: i32) -> int {
    x as int / 65536
}

/// The packed sample with the given parts.
pub open spec fn packed(re: int, im: int) -> i32 {
    (im * 65536 + re % 65536) as i32
}

/// Saturation to the range of a half word.
pub open spec fn saturated(v: int) -> int {
    if v < -32768 {
        -32768
    } else if v > 32767 {
        32767
    } else {
        v
    }
}

/// Complex product of packed samples, rounded down to Q15 and saturated.
#[verifier::opaque]
pub open spec fn product(x: i32, w: i32) -> i32 {
    packed(
        saturated((re_of(x) * re_of(w) - im_of(x) * im_of(w)) / 32768),
        saturated((re_of(x) * im_of(w) + im_of(x) * re_of(w)) / 32768),
    )
}

/// Half the sum of packed samples, each part rounded down.
#[verifier::opaque]
pub open spec fn half_sum(a: i32, b: i32) -> i32 {
    packed((re_of(a) + re_of(b)) / 2, (im_of(a) + im_of(b)) / 2)
}

/// Half the difference of packed samples, each part rounded down.
#[verifier::opaque]
pub open spec fn half_difference(a: i32, b: i32) -> i32 {
    packed((re_of(a) - re_of(b)) / 2, (im_of(a) - im_of(b)) / 2)
}

/// `exp(-j * 2 * pi * i / TW_MASTER)`, packed Q15.
#[verifier::opaque]
pub open spec fn master_root(i: int) -> i32 {
    packed(saturated(twiddles::cosine(i)), saturated(twiddles::cosine(i + 512)))
}

/// The root of unity `W_m^k`, for any `m` that divides the master length.
pub open spec fn root(k: int, m: int) -> i32 {
    master_root(k * (2048int / m))
}

/// Packs a complex Q15 sample into `[im:i16 high | re:i16 low]`.
pub fn pack(re: i16, im: i16) -> (x: i32)
    ensures
        x == packed(re as int, im as int),
        re_of(x) == re,
        im_of(x) == im,
{
    proof {
        let r = re as i32;
        let m = im as i32;
        assert(((m << 16) | (r & 0xffff)) == m * 65536 + (if r < 0 {
            r + 65536
        } else {
            r as int
        })) by (bit_vector)
            requires
                -32768 <= r < 32768,
                -32768 <= m < 32768,
        ;
    }
    ((im as i32) << 16) | ((re as i32) & 0xffff)
}

/// Low half word (real part), sign-extended.
pub fn lo(x: i32) -> (v: i32)
    ensures
        v == re_of(x),
        -32768 <= v <= 32767,
{
    let h = x as i16;
    proof {
        assert((x - (x as i16)) % 65536 == 0) by (bit_vector);
    }
    h as i32
}

/// High half word (imaginary part), sign-extended.
pub fn hi(x: i32) -> (v: i32)
    ensures
        v == im_of(x),
        -32768 <= v <= 32767,
{
    proof {
        assert((x >> 16) * 65536 <= x < (x >> 16) * 65536 + 65536) by (bit_vector);
    }
    x >> 16
}

/// Saturates a Q15-range integer to `i16`.
pub fn sat16(v: i32) -> (h: i16)
    ensures
        h == saturated(v as int),
{
    if v < -32768 {
        -32768
    } else if v > 32767 {
        32767
    } else {
        v as i16
    }
}

/// Arithmetic shift right by one: halving, rounded down.
fn halve(v: i32) -> (h: i32)
    ensures
        h == v as int / 2,
{
    proof {
        assert((v >> 1) * 2 <= v < (v >> 1) * 2 + 2) by (bit_vector);
    }
    v >> 1
}

/// Arithmetic shift right by fifteen: a Q30 product brought back to Q15.
/// `v` is at most two in Q30.
fn q30_to_q15(v: i64) -> (h: i32)
    requires
        -0x8000_0000 <= v <= 0x8000_0000,
    ensures
        h == v as int / 32768,
{
    proof {
        assert((v >> 15) * 32768 <= v < (v >> 15) * 32768 + 32768) by (bit_vector)
            requires
                -0x8000_0000 <= v <= 0x8000_0000,
        ;
    }
    (v >> 15) as i32
}

proof fn lemma_half_word_product(a: int, b: int)
    requires
        -32768 <= a <= 32767,
        -32768 <= b <= 32767,
    ensures
        -0x3fff_8000 <= a * b <= 0x4000_0000,
{
    assert(-0x3fff_8000 <= a * b <= 0x4000_0000) by (nonlinear_arith)
        requires
            -32768 <= a <= 32767,
            -32768 <= b <= 32767,
    ;
}

/// `SMUSD`: product of the low half words minus product of the high ones (Q30).
fn smusd(a: i32, b: i32) -> (r: i32)
    ensures
        r == re_of(a) * re_of(b) - im_of(a) * im_of(b),
{
    proof {
        lemma_half_word_product(re_of(a), re_of(b));
        lemma_half_word_product(im_of(a), im_of(b));
    }
    let (al, bl, ah, bh) = (lo(a), lo(b), hi(a), hi(b));
    al * bl - ah * bh
}

/// `SMUADX`: sum of the crosswise products (Q30). The sum is kept wide: where all
/// four half words are -32768 it is one more than 32 bits hold.
fn smuadx(a: i32, b: i32) -> (r: i64)
    ensures
        r == re_of(a) * im_of(b) + im_of(a) * re_of(b),
        -0x8000_0000 <= r <= 0x8000_0000,
{
    proof {
        lemma_half_word_product(re_of(a), im_of(b));
        lemma_half_word_product(im_of(a), re_of(b));
    }
    let (al, bl, ah, bh) = (lo(a), lo(b), hi(a), hi(b));
    (al * bh) as i64 + (ah * bl) as i64
}

/// `SHADD16`: signed halving add of each half word.
fn shadd16(a: i32, b: i32) -> (r: i32)
    ensures
        r == half_sum(a, b),
{
    reveal(half_sum);
    let (al, bl, ah, bh) = (lo(a), lo(b), hi(a), hi(b));
    pack(halve(al + bl) as i16, halve(ah + bh) as i16)
}

/// `SHSUB16`: signed halving subtract of each half word.
fn shsub16(a: i32, b: i32) -> (r: i32)
    ensures
        r == half_difference(a, b),
{
    reveal(half_difference);
    let (al, bl, ah, bh) = (lo(a), lo(b), hi(a), hi(b));
    pack(halve(al - bl) as i16, halve(ah - bh) as i16)
}

/// Complex Q15 multiply `x * w` (both packed), result packed Q15 (saturated).
pub fn cmul(x: i32, w: i32) -> (r: i32)
    ensures
        r == product(x, w),
{
    reveal(product);
    pack(sat16(q30_to_q15(smusd(x, w) as i64)), sat16(q30_to_q15(smuadx(x, w))))
}

/// `W_m^k` for `m = TW_MASTER / stride`.
fn tw(k: usize, stride: usize) -> (w: i32)
    requires
        k * stride < 2048,
    ensures
        w == master_root(k * stride),
{
    reveal(master_root);
    proof {
        twiddles::law_cosine_is_periodic(k * stride - 1536);
    }
    let i: usize = k * stride;
    let j: usize = if i < 1536 {
        i + 512
    } else {
        i - 1536
    };
    pack(sat16(cosine_at(i)), sat16(cosine_at(j)))
}

/// The samples at even places.
pub open spec fn evens(s: Seq<i32>) -> Seq<i32> {
    Seq::new(s.len() / 2, |i: int| s[2 * i])
}

/// The samples at odd places.
pub open spec fn odds(s: Seq<i32>) -> Seq<i32> {
    Seq::new(s.len() / 2, |i: int| s[2 * i + 1])
}

/// Joins the transforms of the even and of the odd samples: one butterfly per
/// pair of bins, halved.
pub open spec fn combine(e: Seq<i32>, o: Seq<i32>) -> Seq<i32> {
    let h = e.len() as int;
    Seq::new(
        2 * e.len(),
        |k: int|
            if k < h {
                half_sum(e[k], product(o[k], root(k, 2 * h)))
            } else {
                half_difference(e[k - h], product(o[k - h], root(k - h, 2 * h)))
            },
    )
}

/// The fixed-point transform by decimation in time: the transforms of the even
/// and of the odd samples, combined.
pub open spec fn transform(s: Seq<i32>) -> Seq<i32>
    decreases s.len(),
{
    if s.len() <= 1 {
        s
    } else {
        combine(transform(evens(s)), transform(odds(s)))
    }
}

/// A transform has as many bins as its input has samples.
pub proof fn law_transform_keeps_length(s: Seq<i32>)
    requires
        fft::is_pow2(s.len()),
    ensures
        transform(s).len() == s.len(),
    decreases s.len(),
{
    if s.len() > 1 {
        law_transform_keeps_length(evens(s));
        law_transform_keeps_length(odds(s));
    }
}

/// Silence has a silent spectrum.
pub proof fn law_silence_stays_silent(s: Seq<i32>, k: int)
    requires
        fft::is_pow2(s.len()),
        forall|i: int| 0 <= i < s.len() ==> s[i] == 0,
        0 <= k < s.len(),
    ensures
        transform(s)[k] == 0,
    decreases s.len(),
{
    if s.len() > 1 {
        let h = (s.len() / 2) as int;
        let e = transform(evens(s));
        let o = transform(odds(s));
        law_transform_keeps_length(evens(s));
        law_transform_keeps_length(odds(s));
        let j = if k < h {
            k
        } else {
            k - h
        };
        law_silence_stays_silent(evens(s), j);
        law_silence_stays_silent(odds(s), j);
        let w = root(j, 2 * h);
        assert(product(0, w) == 0) by {
            reveal(product);
            assert(re_of(0) == 0 && im_of(0) == 0);
            assert(0 * re_of(w) == 0 && 0 * im_of(w) == 0);
        }
        assert(half_sum(0, 0) == 0) by {
            reveal(half_sum);
        }
        assert(half_difference(0, 0) == 0) by {
            reveal(half_difference);
        }
        assert(e.len() == h);
    }
}

/// A packed sample is its two half words: the low one holds the real part, the
/// high one the imaginary part, both signed.
pub proof fn law_parts_are_the_half_words(x: i32)
    ensures
        -32768 <= re_of(x) <= 32767,
        -32768 <= im_of(x) <= 32767,
        x == im_of(x) * 65536 + re_of(x) + if re_of(x) < 0 {
            65536int
        } else {
            0
        },
{
}

/// Packing keeps both parts.
pub proof fn law_packing_keeps_the_parts(re: int, im: int)
    requires
        -32768 <= re <= 32767,
        -32768 <= im <= 32767,
    ensures
        re_of(packed(re, im)) == re,
        im_of(packed(re, im)) == im,
{
    assert(-0x8000_0000 <= im * 65536 + re % 65536 <= 0x7FFF_FFFF);
}

/// The two outputs of a butterfly are half the sum and half the difference of its
/// inputs, part by part, rounded down: twice an output is what goes in, or one
/// less.
pub proof fn law_butterfly_halves_sum_and_difference(a: i32, b: i32)
    ensures
        0 <= re_of(a) + re_of(b) - 2 * re_of(half_sum(a, b)) <= 1,
        0 <= im_of(a) + im_of(b) - 2 * im_of(half_sum(a, b)) <= 1,
        0 <= re_of(a) - re_of(b) - 2 * re_of(half_difference(a, b)) <= 1,
        0 <= im_of(a) - im_of(b) - 2 * im_of(half_difference(a, b)) <= 1,
{
    reveal(half_sum);
    reveal(half_difference);
    law_packing_keeps_the_parts((re_of(a) + re_of(b)) / 2, (im_of(a) + im_of(b)) / 2);
    law_packing_keeps_the_parts((re_of(a) - re_of(b)) / 2, (im_of(a) - im_of(b)) / 2);
}

/// `q` is `n / 32768` rounded down, or the end of the half word's range that it
/// lies beyond.
pub open spec fn q15_quotient(q: int, n: int) -> bool {
    &&& -32768 <= q <= 32767
    &&& q < 32767 ==> n < 32768 * q + 32768
    &&& q > -32768 ==> 32768 * q <= n
}

/// A product is the complex product of its factors, brought back to Q15 part by
/// part.
pub proof fn law_product_is_the_complex_product(x: i32, w: i32)
    ensures
        q15_quotient(re_of(product(x, w)), re_of(x) * re_of(w) - im_of(x) * im_of(w)),
        q15_quotient(im_of(product(x, w)), re_of(x) * im_of(w) + im_of(x) * re_of(w)),
{
    reveal(product);
    let r = re_of(x) * re_of(w) - im_of(x) * im_of(w);
    let i = re_of(x) * im_of(w) + im_of(x) * re_of(w);
    law_packing_keeps_the_parts(saturated(r / 32768), saturated(i / 32768));
}

/// The roots of unity run clockwise round the circle: the real part of root `i`
/// is the cosine of `i` steps, the imaginary part that of a quarter turn more,
/// which is minus the sine. The largest cosine is one more than a half word
/// holds.
pub proof fn law_roots_lie_on_the_circle(i: int)
    requires
        -32768 <= twiddles::cosine(i) <= 32768,
        -32768 <= twiddles::cosine(i + 512) <= 32768,
    ensures
        re_of(master_root(i)) == twiddles::cosine(i) || (twiddles::cosine(i) == 32768 && re_of(
            master_root(i),
        ) == 32767),
        im_of(master_root(i)) == twiddles::cosine(i + 512) || (twiddles::cosine(i + 512) == 32768
            && im_of(master_root(i)) == 32767),
{
    reveal(master_root);
    law_packing_keeps_the_parts(
        saturated(twiddles::cosine(i)),
        saturated(twiddles::cosine(i + 512)),
    );
}

/// How the transform of a signal follows from those of its even and of its odd
/// samples: bins `k` and `k + L / 2` are half the sum and half the difference of
/// bin `k` of the one and bin `k` of the other turned by `k / L` of the circle.
/// Every rounding is downwards, by less than a unit.
pub proof fn law_transform_splits_into_even_and_odd(
    s: Seq<i32>,
    even: Seq<i32>,
    odd: Seq<i32>,
    k: int,
) -> (t: i32)
    requires
        fft::is_pow2(s.len()),
        2 <= s.len() <= 2048,
        even.len() == odd.len(),
        s.len() == 2 * even.len(),
        forall|i: int| 0 <= i < even.len() ==> even[i] == s[2 * i],
        forall|i: int| 0 <= i < odd.len() ==> odd[i] == s[2 * i + 1],
        0 <= k < even.len(),
    ensures
        ({
            let h = even.len() as int;
            let e = transform(even)[k];
            let o = transform(odd)[k];
            let w = master_root(k * (2048int / (2 * h)));
            let low = transform(s)[k];
            let high = transform(s)[k + h];
            &&& q15_quotient(re_of(t), re_of(o) * re_of(w) - im_of(o) * im_of(w))
            &&& q15_quotient(im_of(t), re_of(o) * im_of(w) + im_of(o) * re_of(w))
            &&& 0 <= re_of(e) + re_of(t) - 2 * re_of(low) <= 1
            &&& 0 <= im_of(e) + im_of(t) - 2 * im_of(low) <= 1
            &&& 0 <= re_of(e) - re_of(t) - 2 * re_of(high) <= 1
            &&& 0 <= im_of(e) - im_of(t) - 2 * im_of(high) <= 1
        }),
{
    let h = even.len() as int;
    assert(evens(s) =~= even);
    assert(odds(s) =~= odd);
    law_transform_keeps_length(even);
    law_transform_keeps_length(odd);
    let e = transform(even)[k];
    let o = transform(odd)[k];
    let w = root(k, 2 * h);
    let t = product(o, w);
    law_product_is_the_complex_product(o, w);
    law_butterfly_halves_sum_and_difference(e, t);
    assert(transform(s)[k] == half_sum(e, t));
    assert(transform(s)[k + h] == half_difference(e, t));
    t
}

/// A single sample is its own spectrum.
pub proof fn law_single_sample_is_its_spectrum(s: Seq<i32>)
    requires
        s.len() == 1,
    ensures
        transform(s) == s,
{
}

/// `v` shrunk by the length of a transform, rounded down.
proof fn lemma_halved_quotient(v: int, n: int)
    requires
        n >= 1,
    ensures
        (v / n) / 2 == v / (2 * n),
{
    let q = v / n;
    let r = v % n;
    vstd::arithmetic::div_mod::lemma_fundamental_div_mod(v, n);
    let p = q / 2;
    let b = q % 2;
    assert(n * q == p * (2 * n) + n * b) by (nonlinear_arith)
        requires
            q == 2 * p + b,
    ;
    assert(0 <= n * b <= n) by (nonlinear_arith)
        requires
            0 <= b <= 1,
            n >= 1,
    ;
    vstd::arithmetic::div_mod::lemma_fundamental_div_mod_converse(v, 2 * n, p, n * b + r);
}

/// The spectrum of an impulse is flat: a single sample at place 0 is in every bin,
/// divided by the length and rounded down.
pub proof fn law_impulse_has_a_flat_spectrum(s: Seq<i32>, k: int)
    requires
        fft::is_pow2(s.len()),
        forall|i: int| 1 <= i < s.len() ==> s[i] == 0,
        0 <= k < s.len(),
    ensures
        re_of(transform(s)[k]) == re_of(s[0]) / (s.len() as int),
        im_of(transform(s)[k]) == im_of(s[0]) / (s.len() as int),
    decreases s.len(),
{
    if s.len() > 1 {
        let h = (s.len() / 2) as int;
        let ev = evens(s);
        let od = odds(s);
        let j = if k < h {
            k
        } else {
            k - h
        };
        law_transform_keeps_length(ev);
        law_transform_keeps_length(od);
        assert(ev.len() == h && od.len() == h);
        assert(ev[0] == s[0]);
        law_impulse_has_a_flat_spectrum(ev, j);
        law_silence_stays_silent(od, j);
        let e = transform(ev)[j];
        let w = root(j, 2 * h);
        assert(product(0, w) == 0) by {
            reveal(product);
            assert(re_of(0) == 0 && im_of(0) == 0);
            assert(0 * re_of(w) == 0 && 0 * im_of(w) == 0);
        }
        assert(transform(s)[k] == if k < h {
            half_sum(e, 0)
        } else {
            half_difference(e, 0)
        });
        law_butterfly_halves_sum_and_difference(e, 0);
        assert(re_of(0) == 0 && im_of(0) == 0);
        lemma_halved_quotient(re_of(s[0]), h);
        lemma_halved_quotient(im_of(s[0]), h);
    } else {
        assert(re_of(s[0]) / 1 == re_of(s[0]));
    }
}

/// `count` samples of `s` from `off` on, `step` apart.
spec fn strided(s: Seq<i32>, off: int, step: int, count: nat) -> Seq<i32> {
    Seq::new(count, |t: int| s[off + t * step])
}

/// The `b`-th block of `m` samples.
spec fn block(x: Seq<i32>, b: int, m: int) -> Seq<i32> {
    x.subrange(b * m, b * m + m)
}

/// Every block of `m` samples of `x` is the transform of the strided part of
/// `s` that the bit-reversed block number selects.
spec fn blocks_done(x: Seq<i32>, s: Seq<i32>, m: nat, c: nat) -> bool {
    forall|b: int|
        0 <= b < c ==> #[trigger] block(x, b, m as int) == transform(
            strided(s, fft::reversed(c, b as nat) as int, c as int, m),
        )
}

/// One block's butterflies: `x[base ..]` holds the transforms of the even and of
/// the odd samples, `half` bins each.
fn combine_block(x: &mut [i32], base: usize, half: usize)
    requires
        1 <= half,
        2 * half <= 2048,
        base + 2 * half <= old(x)@.len(),
    ensures
        final(x)@.len() == old(x)@.len(),
        final(x)@.subrange(base as int, base + 2 * half) == combine(
            old(x)@.subrange(base as int, base + half),
            old(x)@.subrange(base + half, base + 2 * half),
        ),
        forall|i: int|
            0 <= i < old(x)@.len() && !(base <= i < base + 2 * half) ==> final(x)@[i] == old(x)@[i],
{
    let n = x.len();
    let ghost s = x@;
    let ghost e = s.subrange(base as int, base + half);
    let ghost o = s.subrange(base + half, base + 2 * half);
    let stride: usize = TW_MASTER / (2 * half);
    let mut k: usize = 0;
    while k < half
        invariant
            1 <= half,
            2 * half <= 2048,
            base + 2 * half <= s.len(),
            n == x@.len() == s.len(),
            stride == 2048int / (2 * half),
            e == s.subrange(base as int, base + half),
            o == s.subrange(base + half, base + 2 * half),
            k <= half,
            forall|i: int|
                0 <= i < s.len() && !(base <= i < base + k) && !(base + half <= i < base + half + k)
                    ==> x@[i] == s[i],
            forall|i: int| 0 <= i < k ==> #[trigger] x@[base + i] == combine(e, o)[i],
            forall|i: int| 0 <= i < k ==> #[trigger] x@[base + half + i] == combine(e, o)[half + i],
        decreases half - k,
    {
        assert(k * stride < 2048) by (nonlinear_arith)
            requires
                k < half,
                1 <= half,
                stride == 2048int / (2 * half),
        ;
        let i: usize = base + k;
        let j: usize = i + half;
        let w = tw(k, stride);
        let t = cmul(x[j], w);
        let a = x[i];
        x[i] = shadd16(a, t);
        x[j] = shsub16(a, t);
        assert(a == e[k as int]);
        assert(w == root(k as int, 2 * half));
        assert(t == product(o[k as int], w));
        k = k + 1;
    }
    assert(x@.subrange(base as int, base + 2 * half) =~= combine(e, o)) by {
        assert forall|i: int| 0 <= i < 2 * half implies x@.subrange(
            base as int,
            base + 2 * half,
        )[i] == combine(e, o)[i] by {
            if i < half {
                assert(x@[base + i] == combine(e, o)[i]);
            } else {
                assert(x@[base + half + (i - half)] == combine(e, o)[half + (i - half)]);
            }
        }
    }
}

/// One stage: blocks of `half` bins become blocks of `2 * half`.
fn stage(x: &mut [i32], half: usize, Ghost(c): Ghost<nat>)
    requires
        1 <= half,
        2 * half <= 2048,
        c % 2 == 0,
        old(x)@.len() == half * c,
    ensures
        final(x)@.len() == old(x)@.len(),
        forall|b: int|
            0 <= b < c / 2 ==> #[trigger] block(final(x)@, b, 2 * half) == combine(
                block(old(x)@, 2 * b, half as int),
                block(old(x)@, 2 * b + 1, half as int),
            ),
{
    let ghost s = x@;
    let l = x.len();
    let ghost mut b: int = 0;
    let mut base: usize = 0;
    let ghost m: int = 2 * half;
    assert(l == m * (c / 2)) by (nonlinear_arith)
        requires
            l == half * c,
            c % 2 == 0,
            m == 2 * half,
    ;
    while base < l
        invariant
            1 <= half,
            2 * half <= 2048,
            m == 2 * half,
            c % 2 == 0,
            l == m * (c / 2),
            x@.len() == s.len() == l,
            0 <= b <= c / 2,
            base == b * m,
            forall|i: int| base <= i < l ==> x@[i] == s[i],
            forall|a: int|
                0 <= a < b ==> #[trigger] block(x@, a, m) == combine(
                    block(s, 2 * a, half as int),
                    block(s, 2 * a + 1, half as int),
                ),
        decreases l - base,
    {
        assert(base + m <= l && b < c / 2) by (nonlinear_arith)
            requires
                base < l,
                base == b * m,
                l == m * (c / 2),
                m > 0,
        ;
        let ghost before = x@;
        combine_block(x, base, half);
        proof {
            assert((2 * b) * half == b * m) by (nonlinear_arith)
                requires
                    m == 2 * half,
            ;
            assert((2 * b + 1) * half == b * m + half) by (nonlinear_arith)
                requires
                    m == 2 * half,
            ;
            assert(before.subrange(base as int, base + half) =~= block(s, 2 * b, half as int));
            assert(before.subrange(base + half, base + 2 * half) =~= block(
                s,
                2 * b + 1,
                half as int,
            ));
            assert forall|a: int| 0 <= a < b implies #[trigger] block(x@, a, m) == block(
                before,
                a,
                m,
            ) by {
                assert(0 <= a * m && a * m + m <= b * m) by (nonlinear_arith)
                    requires
                        0 <= a < b,
                        m > 0,
                ;
                assert(block(x@, a, m) =~= block(before, a, m));
            }
            assert((b + 1) * m == b * m + m) by (nonlinear_arith);
            b = b + 1;
        }
        base = base + 2 * half;
    }
    assert(b == c / 2) by (nonlinear_arith)
        requires
            b <= c / 2,
            b * m >= m * (c / 2),
            m > 0,
    ;
}

proof fn lemma_halves(s: Seq<i32>, off: int, c: int, m: nat)
    ensures
        evens(strided(s, off, c, 2 * m)) =~= strided(s, off, 2 * c, m),
        odds(strided(s, off, c, 2 * m)) =~= strided(s, off + c, 2 * c, m),
{
    assert forall|t: int| 0 <= t < m implies #[trigger] strided(s, off, 2 * c, m)[t] == evens(
        strided(s, off, c, 2 * m),
    )[t] by {
        assert((2 * t) * c == t * (2 * c)) by (nonlinear_arith);
    }
    assert forall|t: int| 0 <= t < m implies #[trigger] strided(s, off + c, 2 * c, m)[t] == odds(
        strided(s, off, c, 2 * m),
    )[t] by {
        assert((2 * t + 1) * c == t * (2 * c) + c) by (nonlinear_arith);
    }
}

/// A stage takes finished blocks of `m` to finished blocks of `2 * m`.
proof fn lemma_stage(x: Seq<i32>, y: Seq<i32>, s: Seq<i32>, m: nat, c: nat)
    requires
        m >= 1,
        c >= 2,
        fft::is_pow2(c),
        blocks_done(x, s, m, c),
        forall|b: int|
            0 <= b < c / 2 ==> #[trigger] block(y, b, (2 * m) as int) == combine(
                block(x, 2 * b, m as int),
                block(x, 2 * b + 1, m as int),
            ),
    ensures
        blocks_done(y, s, 2 * m, c / 2),
{
    let c2 = (c / 2) as nat;
    assert forall|b: int| 0 <= b < c2 implies #[trigger] block(y, b, (2 * m) as int) == transform(
        strided(s, fft::reversed(c2, b as nat) as int, c2 as int, 2 * m),
    ) by {
        let off = fft::reversed(c2, b as nat) as int;
        assert((2 * b) / 2 == b && (2 * b) % 2 == 0);
        assert((2 * b + 1) / 2 == b && (2 * b + 1) % 2 == 1);
        assert(0 * c2 == 0 && 1 * c2 == c2) by (nonlinear_arith);
        assert(fft::reversed(c, (2 * b) as nat) == off);
        assert(fft::reversed(c, (2 * b + 1) as nat) == off + c2);
        assert(2 * c2 == c);
        lemma_halves(s, off, c2 as int, m);
        let whole = strided(s, off, c2 as int, 2 * m);
        assert(block(x, 2 * b, m as int) == transform(evens(whole)));
        assert(block(x, 2 * b + 1, m as int) == transform(odds(whole)));
        assert(whole.len() > 1);
    }
}

/// In-place radix-2 complex FFT over packed Q15 (real part low, imaginary part
/// high). The output is the transform scaled by the inverse of the length, by a
/// halving in each stage. The length must be a power of two of at most
/// [`TW_MASTER`].
pub fn cfft_q15(x: &mut [i32])
    requires
        fft::is_pow2(old(x)@.len()),
        old(x)@.len() <= 2048,
    ensures
        final(x)@ == transform(old(x)@),
{
    let l = x.len();
    let ghost s = x@;
    if l <= 1 {
        return;
    }
    bit_reverse(x);
    let mut half: usize = 1;
    let ghost mut c: nat = l as nat;
    proof {
        assert forall|b: int| 0 <= b < c implies #[trigger] block(x@, b, 1) == transform(
            strided(s, fft::reversed(c, b as nat) as int, c as int, 1),
        ) by {
            fft::lemma_reversed_bound(c, b as nat);
            let off = fft::reversed(c, b as nat) as int;
            assert(b * 1 == b && 0 * c == 0) by (nonlinear_arith);
            assert(x@[b] == s[off]);
            assert(block(x@, b, 1) =~= strided(s, off, c as int, 1)) by {
                assert(strided(s, off, c as int, 1)[0] == s[off + 0 * (c as int)]);
            }
        }
        assert(l == half * c) by (nonlinear_arith)
            requires
                half == 1,
                c == l,
        ;
    }
    while 2 * half <= l
        invariant
            1 <= half <= l,
            2 <= l <= 2048,
            x@.len() == l == s.len(),
            fft::is_pow2(c),
            l == half * c,
            blocks_done(x@, s, half as nat, c),
        decreases l - half,
    {
        let ghost before = x@;
        assert(c >= 2) by (nonlinear_arith)
            requires
                2 * half <= l,
                l == half * c,
                half >= 1,
        ;
        stage(x, half, Ghost(c));
        proof {
            lemma_stage(before, x@, s, half as nat, c);
            assert(l == (2 * half) * (c / 2)) by (nonlinear_arith)
                requires
                    l == half * c,
                    c % 2 == 0,
            ;
            c = (c / 2) as nat;
        }
        half = 2 * half;
    }
    proof {
        assert(c == 1) by (nonlinear_arith)
            requires
                2 * half > l,
                l == half * c,
                half >= 1,
                l >= 2,
        ;
        assert(half == l) by (nonlinear_arith)
            requires
                c == 1,
                l == half * c,
        ;
        assert(block(x@, 0, half as int) == transform(
            strided(s, fft::reversed(c, 0) as int, c as int, half as nat),
        ));
        assert(block(x@, 0, half as int) =~= x@);
        assert(strided(s, 0, 1, half as nat) =~= s);
    }
}

} // verus!
