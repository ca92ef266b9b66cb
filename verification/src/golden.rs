//! Golden-vector tests: raw sample blobs, stereo buffers, and the verdict on a
//! comparison.
use vstd::prelude::*;

verus! {

/// The words of a blob of little-endian 32-bit values.
pub open spec fn words(bytes: Seq<u8>) -> Seq<u32> {
    Seq::new(
        (bytes.len() / 4) as nat,
        |i: int|
            (bytes[4 * i] + 0x100 * bytes[4 * i + 1] + 0x1_0000 * bytes[4 * i + 2] + 0x100_0000
                * bytes[4 * i + 3]) as u32,
    )
}

/// Reads a blob of little-endian 32-bit values; `None` if its length is no
/// multiple of four.
pub fn read_words(bytes: &[u8]) -> (r: Option<Vec<u32>>)
    ensures
        r is Some <==> bytes@.len() % 4 == 0,
        r matches Some(w) ==> w@ == words(bytes@),
{
    let n = bytes.len();
    if n % 4 != 0 {
        return None;
    }
    let mut w: Vec<u32> = Vec::new();
    let mut i: usize = 0;
    while i < n / 4
        invariant
            n == bytes@.len(),
            n % 4 == 0,
            i <= n / 4,
            w@ == words(bytes@).take(i as int),
        decreases n / 4 - i,
    {
        let v: u32 = bytes[4 * i] as u32 + 0x100 * (bytes[4 * i + 1] as u32) + 0x1_0000 * (bytes[4
            * i + 2] as u32) + 0x100_0000 * (bytes[4 * i + 3] as u32);
        w.push(v);
        i = i + 1;
        assert(w@ =~= words(bytes@).take(i as int));
    }
    assert(words(bytes@).take(i as int) =~= words(bytes@));
    Some(w)
}

/// The bytes of a value, lowest first.
pub open spec fn word_bytes(v: u32) -> Seq<u8> {
    seq![
        (v % 0x100) as u8,
        (v / 0x100 % 0x100) as u8,
        (v / 0x1_0000 % 0x100) as u8,
        (v / 0x100_0000) as u8,
    ]
}

/// A value that is written lowest byte first is read back.
pub proof fn law_words_round_trip(v: u32)
    ensures
        words(word_bytes(v)) == seq![v],
{
    assert(words(word_bytes(v)) =~= seq![v]);
}

/// Splits an interleaved stereo buffer into its channels; a last odd sample is
/// dropped.
pub fn deinterleave<T: Copy>(lr: &[T]) -> (r: (Vec<T>, Vec<T>))
    ensures
        r.0@ == Seq::new((lr@.len() / 2) as nat, |i: int| lr@[2 * i]),
        r.1@ == Seq::new((lr@.len() / 2) as nat, |i: int| lr@[2 * i + 1]),
{
    let len = lr.len();
    let n = len / 2;
    let mut l: Vec<T> = Vec::new();
    let mut r: Vec<T> = Vec::new();
    let mut i: usize = 0;
    while i < n
        invariant
            len == lr@.len(),
            n == len / 2,
            i <= n,
            l@.len() == i,
            r@.len() == i,
            forall|j: int| 0 <= j < i ==> l@[j] == lr@[2 * j],
            forall|j: int| 0 <= j < i ==> r@[j] == lr@[2 * j + 1],
        decreases n - i,
    {
        l.push(lr[2 * i]);
        r.push(lr[2 * i + 1]);
        i = i + 1;
    }
    assert(l@ =~= Seq::new((lr@.len() / 2) as nat, |i: int| lr@[2 * i]));
    assert(r@ =~= Seq::new((lr@.len() / 2) as nat, |i: int| lr@[2 * i + 1]));
    (l, r)
}

/// The samples of the left channel that meet one of the right channel at lag
/// `d`, in channels of `n` samples: from the first to the one behind the last.
pub open spec fn overlap(n: int, d: int) -> (int, int) {
    (
        if d < 0 {
            -d
        } else {
            0
        },
        if d > 0 {
            n - d
        } else {
            n
        },
    )
}

/// The samples of the left channel that meet one of the right at lag `d`.
pub fn lag_range(n: i32, d: i32) -> (r: (i32, i32))
    requires
        n >= 0,
        d > i32::MIN,
    ensures
        (r.0 as int, r.1 as int) == overlap(n as int, d as int),
{
    (
        if d < 0 {
            -d
        } else {
            0
        },
        if d > 0 {
            n - d
        } else {
            n
        },
    )
}

/// Every sample in the range meets a sample of the other channel, and no other
/// does.
pub proof fn law_lag_range_is_the_overlap(n: int, d: int, i: int)
    requires
        n >= 0,
    ensures
        overlap(n, d).0 <= i < overlap(n, d).1 <==> 0 <= i < n && 0 <= i + d < n,
{
}

/// What came of a comparison.
#[derive(Debug, Clone, Copy, PartialEq, Eq, Structural)]
pub enum Comparison {
    /// Within every bound.
    Pass,
    /// The outputs differ in length.
    LengthMismatch,
    /// No bound is set.
    NoTolerance,
    /// A sample is off by more than is allowed.
    TooFarOff,
    /// There is too much error for the signal.
    TooNoisy,
}

/// The verdict on an output: its length first, then whether there is a bound at
/// all, then each bound. A bound is given as whether it holds, if it is set.
pub fn compare(actual: usize, expected: usize, max_abs: Option<bool>, snr: Option<bool>) -> (c:
    Comparison)
    ensures
        c == if actual != expected {
            Comparison::LengthMismatch
        } else if max_abs is None && snr is None {
            Comparison::NoTolerance
        } else if max_abs == Some(false) {
            Comparison::TooFarOff
        } else if snr == Some(false) {
            Comparison::TooNoisy
        } else {
            Comparison::Pass
        },
{
    if actual != expected {
        return Comparison::LengthMismatch;
    }
    if max_abs.is_none() && snr.is_none() {
        return Comparison::NoTolerance;
    }
    if let Some(ok) = max_abs {
        if !ok {
            return Comparison::TooFarOff;
        }
    }
    if let Some(ok) = snr {
        if !ok {
            return Comparison::TooNoisy;
        }
    }
    Comparison::Pass
}

/// Blobs are little-endian: byte `j` of a word counts 256 times byte `j - 1`.
pub proof fn law_words_are_little_endian(bytes: Seq<u8>, i: int)
    requires
        bytes.len() % 4 == 0,
        0 <= i < bytes.len() / 4,
    ensures
        words(bytes).len() == bytes.len() / 4,
        words(bytes)[i] == bytes[4 * i] + 256 * (bytes[4 * i + 1] + 256 * (bytes[4 * i + 2] + 256
            * bytes[4 * i + 3])),
{
}

} // verus!
