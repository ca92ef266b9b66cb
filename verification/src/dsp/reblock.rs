//! Block-size adaptation for streaming audio: a fixed-capacity mono sample
//! queue.
//!
//! The codec callback delivers a fixed chunk of frames (48) while a block
//! processor is driven a power-of-two block at a time (64). The queue takes the
//! callback's samples and hands out whole blocks once enough have accumulated;
//! the remainder carries over by itself. Until the pipeline is primed, `pop`
//! answers `false` and the caller emits silence.
use vstd::prelude::*;

verus! {

/// A fixed-capacity sample ring buffer for block-size adaptation.
#[derive(Debug)]
pub struct SampleFifo<T, const CAP: usize> {
    buf: [T; CAP],
    /// Index of the next sample to read.
    head: usize,
    /// Samples currently buffered.
    len: usize,
}

/// The place `i` samples on from `head` in a ring of `cap`.
spec fn place(head: int, i: int, cap: int) -> int {
    if head + i < cap {
        head + i
    } else {
        head + i - cap
    }
}

impl<T: Copy, const CAP: usize> SampleFifo<T, CAP> {
    /// Validity of a queue.
    pub closed spec fn wf(&self) -> bool {
        &&& self.len <= CAP
        &&& self.head < CAP || (CAP == 0 && self.head == 0)
    }

    /// The buffered samples, oldest first.
    pub closed spec fn view(&self) -> Seq<T> {
        Seq::new(
            self.len as nat,
            |i: int| self.buf@[place(self.head as int, i, CAP as int)],
        )
    }

    /// An empty queue. `silence` only initialises the storage.
    #[must_use]
    pub fn new(silence: T) -> (q: Self)
        ensures
            q.wf(),
            q@ == Seq::<T>::empty(),
    {
        let q = SampleFifo { buf: [silence; CAP], head: 0, len: 0 };
        assert(q@ =~= Seq::<T>::empty());
        q
    }

    /// Samples currently buffered.
    #[must_use]
    pub fn len(&self) -> (n: usize)
        ensures
            n == self@.len(),
    {
        self.len
    }

    /// Whether no samples are buffered.
    #[must_use]
    pub fn is_empty(&self) -> (b: bool)
        ensures
            b == (self@.len() == 0),
    {
        self.len == 0
    }

    /// Total capacity.
    #[must_use]
    pub fn capacity(&self) -> (n: usize)
        ensures
            n == CAP,
    {
        CAP
    }

    /// Free space remaining.
    #[must_use]
    pub fn free(&self) -> (n: usize)
        requires
            self.wf(),
        ensures
            n == CAP - self@.len(),
    {
        CAP - self.len
    }

    /// Pushes one sample. Returns `false`, dropping the sample, if the queue is
    /// full.
    pub fn push(&mut self, x: T) -> (accepted: bool)
        requires
            old(self).wf(),
        ensures
            final(self).wf(),
            accepted == (old(self)@.len() < CAP),
            final(self)@ == if accepted {
                old(self)@.push(x)
            } else {
                old(self)@
            },
    {
        if self.len == CAP {
            return false;
        }
        let ghost before = self@;
        let tail: usize = if self.len < CAP - self.head {
            self.head + self.len
        } else {
            self.len - (CAP - self.head)
        };
        self.buf[tail] = x;
        self.len = self.len + 1;
        assert(self@ =~= before.push(x));
        true
    }

    /// Pushes a slice, returning how many samples were accepted: all of them, or
    /// as many as fitted.
    pub fn extend(&mut self, xs: &[T]) -> (n: usize)
        requires
            old(self).wf(),
        ensures
            final(self).wf(),
            n == if xs@.len() <= CAP - old(self)@.len() {
                xs@.len() as int
            } else {
                CAP - old(self)@.len()
            },
            final(self)@ == old(self)@ + xs@.take(n as int),
    {
        let ghost before = self@;
        let mut n: usize = 0;
        assert(before + xs@.take(0) =~= before);
        while n < xs.len()
            invariant
                self.wf(),
                before == old(self)@,
                before.len() <= CAP,
                n <= xs@.len(),
                n <= CAP - before.len(),
                self@ == before + xs@.take(n as int),
            decreases xs@.len() - n,
        {
            if !self.push(xs[n]) {
                return n;
            }
            assert(before + xs@.take(n + 1) =~= (before + xs@.take(n as int)).push(xs@[n as int]));
            n = n + 1;
        }
        n
    }

    /// If at least `out.len()` samples are buffered, moves that many into `out`,
    /// oldest first, and returns `true`. Otherwise changes nothing and returns
    /// `false`.
    pub fn pop(&mut self, out: &mut [T]) -> (ready: bool)
        requires
            old(self).wf(),
        ensures
            final(self).wf(),
            ready == (old(self)@.len() >= old(out)@.len()),
            ready ==> final(out)@ == old(self)@.take(old(out)@.len() as int) && final(self)@ == old(
                self,
            )@.skip(old(out)@.len() as int),
            !ready ==> final(out)@ == old(out)@ && final(self)@ == old(self)@,
    {
        let n = out.len();
        if self.len < n {
            return false;
        }
        let ghost before = self@;
        let mut i: usize = 0;
        assert(before.skip(0) =~= before);
        while i < n
            invariant
                self.wf(),
                out@.len() == n,
                i <= n <= before.len(),
                self@ == before.skip(i as int),
                out@.take(i as int) == before.take(i as int),
            decreases n - i,
        {
            assert(self@.len() == before.len() - i);
            assert(self@[0] == before[i as int]);
            let ghost held = self@;
            let ghost was = self.head;
            out[i] = self.buf[self.head];
            self.head = if self.head + 1 == CAP {
                0
            } else {
                self.head + 1
            };
            self.len = self.len - 1;
            assert(self@ =~= held.skip(1)) by {
                assert forall|j: int| 0 <= j < self.len implies place(
                    self.head as int,
                    j,
                    CAP as int,
                ) == #[trigger] place(was as int, j + 1, CAP as int) by {}
            }
            assert(held.skip(1) =~= before.skip(i + 1));
            assert(out@.take(i + 1) =~= before.take(i + 1)) by {
                assert forall|j: int| 0 <= j < i implies out@[j] == before[j] by {
                    assert(before.take(i as int)[j] == before[j]);
                }
            }
            i = i + 1;
        }
        assert(out@ =~= out@.take(n as int));
        true
    }

    /// Drops all buffered samples.
    pub fn clear(&mut self)
        requires
            old(self).wf(),
        ensures
            final(self).wf(),
            final(self)@ == Seq::<T>::empty(),
    {
        self.head = 0;
        self.len = 0;
        assert(self@ =~= Seq::<T>::empty());
    }
}

/// Re-blocking is sample-exact: as long as no sample is refused, what has come
/// out followed by what is buffered is what went in, through any push of a chunk
/// and any pop of a block.
pub proof fn law_reblocking_is_sample_exact<T>(
    fed: Seq<T>,
    produced: Seq<T>,
    buffered: Seq<T>,
    chunk: Seq<T>,
    block: int,
)
    requires
        fed == produced + buffered,
        0 <= block <= buffered.len(),
    ensures
        fed + chunk == produced + (buffered + chunk),
        fed == (produced + buffered.take(block)) + buffered.skip(block),
        forall|i: int| 0 <= i < produced.len() + block ==> (produced + buffered.take(block))[i] == fed[i],
{
    assert(fed + chunk =~= produced + (buffered + chunk));
    assert(fed =~= (produced + buffered.take(block)) + buffered.skip(block));
}

} // verus!
