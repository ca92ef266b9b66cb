//! A delay line over caller-provided storage.
//!
//! The backing buffer is borrowed, so the same type works with a short stack
//! array or with seconds of external memory. The maximum delay is one sample
//! less than the buffer's length.
use super::slices::fill;
use vstd::prelude::*;

verus! {

/// A ring-buffer delay line. `read(0)` is the sample just written.
pub struct DelayLine<'a, T> {
    buf: &'a mut [T],
    write: usize,
}

/// What a delay line holds, newest first, when `buf[write]` is the next slot to
/// be written.
pub open spec fn ring_history<T>(buf: Seq<T>, write: int) -> Seq<T> {
    Seq::new(
        buf.len(),
        |d: int|
            if d < write {
                buf[write - 1 - d]
            } else {
                buf[buf.len() - 1 - (d - write)]
            },
    )
}

/// The history after one more sample, of a line that keeps `before.len()`.
pub open spec fn shifted<T>(before: Seq<T>, x: T) -> Seq<T> {
    seq![x] + before.drop_last()
}

impl<'a, T: Copy> DelayLine<'a, T> {
    /// Validity of a delay line.
    pub closed spec fn wf(&self) -> bool {
        self.write < self.buf@.len() || (self.buf@.len() == 0 && self.write == 0)
    }

    /// The samples held, newest first.
    pub closed spec fn view(&self) -> Seq<T> {
        ring_history(self.buf@, self.write as int)
    }

    /// Wraps `buf`, cleared to `silence`.
    pub fn new(buf: &'a mut [T], silence: T) -> (line: Self)
        ensures
            line.wf(),
            line@ == Seq::new(old(buf)@.len(), |i: int| silence),
    {
        fill(buf, silence);
        let line = DelayLine { buf, write: 0 };
        assert(line@ =~= Seq::new(line.buf@.len(), |i: int| silence));
        line
    }

    /// Length of the backing buffer (one more than the maximum delay).
    pub fn len(&self) -> (n: usize)
        ensures
            n == self@.len(),
    {
        self.buf.len()
    }

    /// Whether the backing buffer has no room at all.
    pub fn is_empty(&self) -> (b: bool)
        ensures
            b == (self@.len() == 0),
    {
        self.buf.len() == 0
    }

    /// Pushes a new sample; it becomes `read(0)` and the oldest one is lost.
    pub fn write(&mut self, x: T)
        requires
            old(self).wf(),
            old(self)@.len() > 0,
        ensures
            final(self).wf(),
            final(self)@ == shifted(old(self)@, x),
    {
        let ghost before = self@;
        let ghost b = self.buf@;
        let ghost w = self.write;
        self.buf[self.write] = x;
        self.write = if self.write + 1 == self.buf.len() {
            0
        } else {
            self.write + 1
        };
        assert(self@ =~= shifted(before, x));
    }

    /// Reads the sample written `delay` samples ago; `delay` is clamped to the
    /// oldest sample held.
    pub fn read(&self, delay: usize) -> (x: T)
        requires
            self.wf(),
            self@.len() > 0,
        ensures
            x == self@[if delay < self@.len() {
                delay as int
            } else {
                self@.len() - 1
            }],
    {
        let n = self.buf.len();
        let d: usize = if delay < n {
            delay
        } else {
            n - 1
        };
        let i: usize = if d < self.write {
            self.write - 1 - d
        } else {
            n - 1 - (d - self.write)
        };
        self.buf[i]
    }

    /// Pushes `x`, then returns the sample `delay` samples back.
    pub fn tick(&mut self, x: T, delay: usize) -> (y: T)
        requires
            old(self).wf(),
            old(self)@.len() > 0,
        ensures
            final(self).wf(),
            final(self)@ == shifted(old(self)@, x),
            y == final(self)@[if delay < old(self)@.len() {
                delay as int
            } else {
                old(self)@.len() - 1
            }],
    {
        self.write(x);
        self.read(delay)
    }

    /// Clears the buffer to `silence` and resets the write head.
    pub fn reset(&mut self, silence: T)
        ensures
            final(self).wf(),
            final(self)@ == Seq::new(old(self)@.len(), |i: int| silence),
    {
        fill(self.buf, silence);
        self.write = 0;
        assert(self@ =~= Seq::new(self.buf@.len(), |i: int| silence));
    }
}

/// The history after a run of writes, oldest write first.
pub open spec fn history_after<T>(before: Seq<T>, xs: Seq<T>) -> Seq<T>
    decreases xs.len(),
{
    if xs.len() == 0 {
        before
    } else {
        shifted(history_after(before, xs.drop_last()), xs.last())
    }
}

/// A read gives back what was written: `d` back is the write made `d` writes
/// ago, as long as the line is longer than that.
pub proof fn law_read_returns_the_write<T>(before: Seq<T>, xs: Seq<T>, d: int)
    requires
        0 <= d < before.len(),
    ensures
        history_after(before, xs).len() == before.len(),
        d < xs.len() ==> history_after(before, xs)[d] == xs[xs.len() - 1 - d],
        d >= xs.len() ==> history_after(before, xs)[d] == before[d - xs.len()],
    decreases xs.len(),
{
    if xs.len() > 0 {
        law_read_returns_the_write(before, xs.drop_last(), d);
        if d > 0 {
            law_read_returns_the_write(before, xs.drop_last(), d - 1);
        }
    }
}

/// A write moves every sample held one place back, and the oldest falls out.
pub proof fn law_writes_move_the_samples_back<T>(before: Seq<T>, x: T, d: int)
    requires
        before.len() > 0,
    ensures
        shifted(before, x).len() == before.len(),
        shifted(before, x)[0] == x,
        0 <= d < before.len() - 1 ==> shifted(before, x)[d + 1] == before[d],
{
}

} // verus!
