//! In-place operations on sample slices.
use vstd::prelude::*;

verus! {

/// Sets every sample to `v`.
pub fn fill<T: Copy>(buf: &mut [T], v: T)
    ensures
        final(buf)@ == Seq::new(old(buf)@.len(), |i: int| v),
{
    let n = buf.len();
    let mut i: usize = 0;
    while i < n
        invariant
            n == buf@.len(),
            i <= n,
            forall|j: int| 0 <= j < i ==> buf@[j] == v,
        decreases n - i,
    {
        buf[i] = v;
        i = i + 1;
    }
    assert(buf@ =~= Seq::new(n as nat, |i: int| v));
}

/// Reverses `buf[from..to]`, leaving the rest.
fn reverse_range<T: Copy>(buf: &mut [T], from: usize, to: usize)
    requires
        from <= to <= old(buf)@.len(),
    ensures
        final(buf)@.len() == old(buf)@.len(),
        forall|i: int|
            0 <= i < old(buf)@.len() ==> #[trigger] final(buf)@[i] == if from <= i < to {
                old(buf)@[from + to - 1 - i]
            } else {
                old(buf)@[i]
            },
{
    let ghost s = buf@;
    let mut a: usize = from;
    let mut b: usize = to;
    while a < b
        invariant
            from <= a,
            b <= to <= s.len(),
            a + b == from + to,
            buf@.len() == s.len(),
            a <= b + 1,
            forall|i: int|
                0 <= i < s.len() ==> #[trigger] buf@[i] == if from <= i < a || b <= i < to {
                    s[from + to - 1 - i]
                } else {
                    s[i]
                },
        decreases b + 1 - a,
    {
        b = b - 1;
        let x = buf[a];
        let y = buf[b];
        buf[a] = y;
        buf[b] = x;
        a = a + 1;
    }
}

/// Rotates the slice left by `k` places: sample `k` becomes the first.
pub fn rotate_left<T: Copy>(buf: &mut [T], k: usize)
    requires
        k <= old(buf)@.len(),
    ensures
        final(buf)@ == old(buf)@.skip(k as int) + old(buf)@.take(k as int),
{
    let ghost s = buf@;
    let n = buf.len();
    reverse_range(buf, 0, k);
    let ghost s1 = buf@;
    reverse_range(buf, k, n);
    let ghost s2 = buf@;
    reverse_range(buf, 0, n);
    assert(buf@ =~= s.skip(k as int) + s.take(k as int)) by {
        assert forall|i: int| 0 <= i < n implies buf@[i] == (s.skip(k as int) + s.take(
            k as int,
        ))[i] by {
            let j = n - 1 - i;
            assert(buf@[i] == s2[j]);
            if j >= k {
                assert(s2[j] == s1[k + n - 1 - j]);
            } else {
                assert(s2[j] == s1[j]);
            }
        }
    }
}

} // verus!
