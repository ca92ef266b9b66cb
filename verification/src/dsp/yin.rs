//! Pitch detection: which lag of the normalised difference function is the
//! period.
//!
//! The values of the function are non-negative; they are given as integers in
//! their order, such as the bit patterns of their single-precision form.
use vstd::prelude::*;

verus! {

/// The first lag from `t` on, short of the last, whose value is below the
/// threshold; the last lag if there is none.
pub open spec fn first_dip(d: Seq<u32>, threshold: u32, t: int) -> int
    decreases d.len() - t,
{
    if t >= d.len() - 1 {
        d.len() - 1
    } else if d[t] < threshold {
        t
    } else {
        first_dip(d, threshold, t + 1)
    }
}

/// The lag at which the values stop falling, going up from `t`.
pub open spec fn descended(d: Seq<u32>, t: int) -> int
    decreases d.len() - t,
{
    if t + 1 < d.len() && d[t + 1] < d[t] {
        descended(d, t + 1)
    } else {
        t
    }
}

/// `k` is the first lag, zero left out, with the least value.
pub open spec fn is_least(d: Seq<u32>, k: int) -> bool {
    &&& 1 <= k < d.len()
    &&& forall|j: int| 1 <= j < k ==> #[trigger] d[j] > d[k]
    &&& forall|j: int| k <= j < d.len() ==> #[trigger] d[j] >= d[k]
}

/// `r` is the period of a difference function: the bottom of its first dip below
/// the threshold; without a dip the lag of the least value, unless that is above
/// the limit.
pub open spec fn is_period(d: Seq<u32>, threshold: u32, limit: u32, r: Option<usize>) -> bool {
    if d.len() < 2 {
        r is None
    } else if first_dip(d, threshold, 2) < d.len() - 1 {
        r == Some(descended(d, first_dip(d, threshold, 2)) as usize)
    } else {
        match r {
            Some(k) => is_least(d, k as int) && d[k as int] <= limit,
            None => exists|k: int| is_least(d, k) && d[k] > limit,
        }
    }
}

/// The period of a difference function, in samples.
pub fn period(d: &[u32], threshold: u32, limit: u32) -> (r: Option<usize>)
    ensures
        is_period(d@, threshold, limit, r),
{
    let w = d.len();
    if w < 2 {
        return None;
    }
    let mut t: usize = 2;
    while t < w - 1
        invariant
            2 <= t,
            w == d@.len(),
            w >= 2,
            t <= w - 1 || t == 2,
            first_dip(d@, threshold, 2) == first_dip(d@, threshold, t as int),
        decreases w - t,
    {
        if d[t] < threshold {
            let ghost dip = t as int;
            assert(first_dip(d@, threshold, 2) == dip);
            while t + 1 < w && d[t + 1] < d[t]
                invariant
                    t < w,
                    w == d@.len(),
                    descended(d@, dip) == descended(d@, t as int),
                decreases w - t,
            {
                t = t + 1;
            }
            return Some(t);
        }
        t = t + 1;
    }
    assert(first_dip(d@, threshold, 2) == w - 1);
    let mut best: usize = 1;
    let mut k: usize = 2;
    while k < w
        invariant
            2 <= k <= w || w == 2 && k == 2,
            w == d@.len(),
            1 <= best < w,
            best < k,
            forall|j: int| 1 <= j < best ==> #[trigger] d@[j] > d@[best as int],
            forall|j: int| best <= j < k ==> #[trigger] d@[j] >= d@[best as int],
        decreases w - k,
    {
        if d[k] < d[best] {
            best = k;
        }
        k = k + 1;
    }
    assert(is_least(d@, best as int));
    if d[best] > limit {
        None
    } else {
        Some(best)
    }
}

/// The lag after the period, or the last: with the one before it, the
/// neighbours that refine the estimate.
pub fn next_lag(lag: usize, w: usize) -> (n: usize)
    requires
        lag < w,
    ensures
        n == if lag + 1 < w {
            lag + 1
        } else {
            w - 1
        },
{
    if lag + 1 < w {
        lag + 1
    } else {
        w - 1
    }
}

proof fn lemma_descended(d: Seq<u32>, t: int)
    requires
        0 <= t < d.len(),
    ensures
        t <= descended(d, t) < d.len(),
        d[descended(d, t)] <= d[t],
        descended(d, t) + 1 < d.len() ==> d[descended(d, t) + 1] >= d[descended(d, t)],
    decreases d.len() - t,
{
    if t + 1 < d.len() && d[t + 1] < d[t] {
        lemma_descended(d, t + 1);
    }
}

proof fn lemma_first_dip(d: Seq<u32>, threshold: u32, t: int)
    requires
        2 <= t,
        d.len() >= 2,
        first_dip(d, threshold, t) < d.len() - 1,
    ensures
        t <= first_dip(d, threshold, t),
        d[first_dip(d, threshold, t)] < threshold,
        forall|j: int|
            t <= j < first_dip(d, threshold, t) ==> #[trigger] d[j] >= threshold,
    decreases d.len() - t,
{
    if d[t] >= threshold {
        lemma_first_dip(d, threshold, t + 1);
        assert forall|j: int| t <= j < first_dip(d, threshold, t) implies #[trigger] d[j]
            >= threshold by {
            if j > t {
                assert(d[j] >= threshold);
            }
        }
    }
}

/// A period is a lag within the function, never zero; it lies below the
/// threshold or does not exceed the limit; and where it comes from a dip, every
/// shorter lag but the first two is at or above the threshold, until the fall
/// begins.
pub proof fn law_periods_are_convincing(d: Seq<u32>, threshold: u32, limit: u32, r: Option<usize>)
    requires
        is_period(d, threshold, limit, r),
        d.len() <= usize::MAX,
    ensures
        r matches Some(k) ==> 1 <= k < d.len() && (d[k as int] < threshold || d[k as int] <= limit),
        d.len() >= 2 && first_dip(d, threshold, 2) < d.len() - 1 ==> {
            &&& r is Some
            &&& r->0 >= 2
            &&& forall|j: int|
                2 <= j < first_dip(d, threshold, 2) ==> #[trigger] d[j] >= threshold
            &&& r->0 + 1 < d.len() ==> d[r->0 + 1] >= d[r->0 as int]
        },
{
    if d.len() >= 2 && first_dip(d, threshold, 2) < d.len() - 1 {
        lemma_first_dip(d, threshold, 2);
        lemma_descended(d, first_dip(d, threshold, 2));
    }
}

proof fn lemma_falls(d: Seq<u32>, t: int, i: int)
    requires
        0 <= t < d.len(),
        t <= i < descended(d, t),
    ensures
        i + 1 < d.len(),
        d[i + 1] < d[i],
    decreases d.len() - t,
{
    if t + 1 < d.len() && d[t + 1] < d[t] {
        lemma_descended(d, t + 1);
        if i > t {
            lemma_falls(d, t + 1, i);
        }
    }
}

proof fn lemma_dip_is_found(d: Seq<u32>, threshold: u32, t: int, f: int)
    requires
        2 <= t <= f < d.len() - 1,
        d[f] < threshold,
        forall|j: int| t <= j < f ==> #[trigger] d[j] >= threshold,
    ensures
        first_dip(d, threshold, t) == f,
    decreases f - t,
{
    if t < f {
        assert(d[t] >= threshold);
        lemma_dip_is_found(d, threshold, t + 1, f);
    }
}

/// Where lag `f` is the first, from the third on and short of the last, with a
/// value below the threshold, the period lies at the foot of the fall that goes
/// on from there: every step down to it is a step down, and the next one is not.
pub proof fn law_period_is_the_foot_of_the_first_dip(
    d: Seq<u32>,
    threshold: u32,
    limit: u32,
    r: Option<usize>,
    f: int,
)
    requires
        is_period(d, threshold, limit, r),
        d.len() <= usize::MAX,
        2 <= f < d.len() - 1,
        d[f] < threshold,
        forall|j: int| 2 <= j < f ==> #[trigger] d[j] >= threshold,
    ensures
        r is Some,
        f <= r->0 < d.len(),
        forall|i: int| f <= i < r->0 ==> d[i + 1] < #[trigger] d[i],
        r->0 + 1 < d.len() ==> d[r->0 + 1] >= d[r->0 as int],
{
    lemma_dip_is_found(d, threshold, 2, f);
    lemma_descended(d, f);
    assert forall|i: int| f <= i < r->0 implies d[i + 1] < #[trigger] d[i] by {
        lemma_falls(d, f, i);
    }
}

/// Where no lag dips below the threshold, the period is the first of the lags
/// with the least value, zero left out; there is none where even that value is
/// above the limit.
pub proof fn law_without_a_dip_the_least_value_decides(
    d: Seq<u32>,
    threshold: u32,
    limit: u32,
    r: Option<usize>,
    j: int,
)
    requires
        is_period(d, threshold, limit, r),
        d.len() <= usize::MAX,
        forall|i: int| 2 <= i < d.len() - 1 ==> #[trigger] d[i] >= threshold,
        1 <= j < d.len(),
    ensures
        r is None ==> d[j] > limit,
        r is Some ==> 1 <= r->0 < d.len() && d[r->0 as int] <= limit && d[r->0 as int] <= d[j],
        r is Some && j < r->0 ==> d[r->0 as int] < d[j],
{
    if first_dip(d, threshold, 2) < d.len() - 1 {
        lemma_first_dip(d, threshold, 2);
    }
    if r is None {
        let k = choose|k: int| is_least(d, k) && d[k] > limit;
        if j < k {
            assert(d[j] > d[k]);
        } else {
            assert(d[j] >= d[k]);
        }
    }
}

} // verus!
