//! A spatialised voice: the queues that carry samples between the codec's
//! callbacks of 48 frames and a convolver's blocks of 64.
use crate::dsp::reblock::SampleFifo;
use vstd::prelude::*;

verus! {

/// Frames of a codec callback.
pub const FRAMES: usize = 48;

/// Samples of a convolver block.
pub const B: usize = 64;

/// The samples that a queue with room for `room` accepts.
pub open spec fn accepted<T>(samples: Seq<T>, room: int) -> Seq<T> {
    samples.take(
        if samples.len() <= room {
            samples.len() as int
        } else {
            room
        },
    )
}

/// The queues around a voice's convolver.
#[derive(Debug)]
pub struct Voice<T> {
    in_fifo: SampleFifo<T, 128>,
    out_l: SampleFifo<T, 256>,
    out_r: SampleFifo<T, 256>,
}

impl<T: Copy> Voice<T> {
    /// Samples that wait for the convolver, oldest first.
    pub closed spec fn waiting(&self) -> Seq<T> {
        self.in_fifo@
    }

    /// Convolved samples of the left ear, oldest first.
    pub closed spec fn left(&self) -> Seq<T> {
        self.out_l@
    }

    /// Convolved samples of the right ear, oldest first.
    pub closed spec fn right(&self) -> Seq<T> {
        self.out_r@
    }

    /// Validity of the queues.
    pub closed spec fn wf(&self) -> bool {
        &&& self.in_fifo.wf()
        &&& self.out_l.wf()
        &&& self.out_r.wf()
        &&& self.out_l@.len() == self.out_r@.len()
    }

    /// Lengths of the queues.
    pub open spec fn lengths(&self) -> Lengths {
        Lengths { waiting: self.waiting().len() as int, ready: self.left().len() as int }
    }

    /// From `self`, taking a callback's samples leads to `after`.
    pub open spec fn took(&self, mono: Seq<T>, after: Self) -> bool {
        &&& after.waiting() == self.waiting() + accepted(mono, 128 - self.waiting().len())
        &&& after.left() == self.left()
        &&& after.right() == self.right()
    }

    /// From `self`, handing out a complete block leads to `after`.
    pub open spec fn handed_out(&self, block: Seq<T>, after: Self) -> bool {
        &&& self.waiting().len() >= 64
        &&& block == self.waiting().take(64)
        &&& after.waiting() == self.waiting().skip(64)
        &&& after.left() == self.left()
        &&& after.right() == self.right()
    }

    /// From `self`, taking a convolved block leads to `after`.
    pub open spec fn took_back(&self, l: Seq<T>, r: Seq<T>, after: Self) -> bool {
        &&& after.waiting() == self.waiting()
        &&& after.left() == self.left() + accepted(l, 256 - self.left().len())
        &&& after.right() == self.right() + accepted(r, 256 - self.left().len())
    }

    /// From `self`, ending a callback leads to `after`: its output leaves, if
    /// there is enough for one.
    pub open spec fn ended(&self, after: Self) -> bool {
        &&& after.waiting() == self.waiting()
        &&& if self.left().len() >= 48 {
            after.left() == self.left().skip(48) && after.right() == self.right().skip(48)
        } else {
            after.left() == self.left() && after.right() == self.right()
        }
    }

    /// Empty queues.
    pub fn new(silence: T) -> (v: Self)
        ensures
            v.wf(),
            v.waiting() == Seq::<T>::empty(),
            v.left() == Seq::<T>::empty(),
            v.right() == Seq::<T>::empty(),
    {
        Voice {
            in_fifo: SampleFifo::new(silence),
            out_l: SampleFifo::new(silence),
            out_r: SampleFifo::new(silence),
        }
    }

    /// Takes a callback's samples, as far as there is room.
    pub fn take(&mut self, mono: &[T])
        requires
            old(self).wf(),
        ensures
            final(self).wf(),
            old(self).took(mono@, *final(self)),
    {
        self.in_fifo.extend(mono);
    }

    /// Hands out the next block for the convolver, if it is complete.
    pub fn next_block(&mut self, block: &mut [T; 64]) -> (b: bool)
        requires
            old(self).wf(),
        ensures
            final(self).wf(),
            b == (old(self).waiting().len() >= 64),
            b ==> old(self).handed_out(final(block)@, *final(self)),
            !b ==> {
                &&& final(block)@ == old(block)@
                &&& final(self).waiting() == old(self).waiting()
                &&& final(self).left() == old(self).left()
                &&& final(self).right() == old(self).right()
            },
    {
        self.in_fifo.pop(block)
    }

    /// Takes a convolved block, as far as there is room.
    pub fn put(&mut self, l: &[T; 64], r: &[T; 64])
        requires
            old(self).wf(),
        ensures
            final(self).wf(),
            old(self).took_back(l@, r@, *final(self)),
    {
        self.out_l.extend(l);
        self.out_r.extend(r);
    }

    /// Fills a callback's output once enough has been convolved; otherwise leaves
    /// it as it is.
    pub fn emit(&mut self, dl: &mut [T; 48], dr: &mut [T; 48]) -> (b: bool)
        requires
            old(self).wf(),
        ensures
            final(self).wf(),
            old(self).ended(*final(self)),
            b == (old(self).left().len() >= 48),
            b ==> final(dl)@ == old(self).left().take(48) && final(dr)@ == old(
                self,
            ).right().take(48),
            !b ==> final(dl)@ == old(dl)@ && final(dr)@ == old(dr)@,
    {
        if self.out_l.len() < FRAMES {
            return false;
        }
        self.out_l.pop(dl);
        self.out_r.pop(dr);
        true
    }
}

/// Lengths of a voice's queues: samples that wait, and convolved samples.
pub struct Lengths {
    pub waiting: int,
    pub ready: int,
}

/// The lengths while a callback is under way: 48 samples taken, every complete
/// block convolved, nothing put out yet.
pub open spec fn convolved(l: Lengths) -> Lengths {
    Lengths { waiting: (l.waiting + 48) % 64, ready: l.ready + (l.waiting + 48) / 64 * 64 }
}

/// The lengths after a callback.
pub open spec fn called_back(l: Lengths) -> Lengths {
    let c = convolved(l);
    Lengths {
        ready: if c.ready >= 48 {
            c.ready - 48
        } else {
            c.ready
        },
        ..c
    }
}

/// The lengths after `n` callbacks from empty queues.
pub open spec fn lengths_after(n: nat) -> Lengths
    decreases n,
{
    if n == 0 {
        Lengths { waiting: 0, ready: 0 }
    } else {
        called_back(lengths_after((n - 1) as nat))
    }
}

/// One block on its way through the convolver: from the voice before it is handed
/// out to the voice after it is taken back.
pub open spec fn turned<T: Copy>(before: Voice<T>, after: Voice<T>) -> bool {
    exists|block: Seq<T>, l: Seq<T>, r: Seq<T>, between: Voice<T>|
        l.len() == 64 && r.len() == 64 && #[trigger] before.handed_out(block, between)
            && #[trigger] between.took_back(l, r, after)
}

/// A voice in the course of a callback: `steps[0]` after the samples were taken,
/// each further one after one more block, the last when no block is complete.
pub open spec fn callback<T: Copy>(before: Voice<T>, steps: Seq<Voice<T>>, after: Voice<T>) -> bool {
    &&& steps.len() >= 1
    &&& exists|mono: Seq<T>| mono.len() == 48 && #[trigger] before.took(mono, steps[0])
    &&& forall|i: int|
        #![trigger steps[i]]
        0 <= i < steps.len() - 1 ==> turned(steps[i], steps[i + 1])
    &&& steps.last().waiting().len() < 64
    &&& steps.last().ended(after)
}

proof fn lemma_steps<T: Copy>(before: Voice<T>, steps: Seq<Voice<T>>, after: Voice<T>, i: int)
    requires
        callback(before, steps, after),
        before.waiting().len() + 48 <= 128,
        convolved(before.lengths()).ready <= 256,
        0 <= i < steps.len(),
    ensures
        steps[i].waiting().len() == before.waiting().len() + 48 - 64 * i,
        steps[i].left().len() == before.left().len() + 64 * i,
    decreases i,
{
    if i > 0 {
        lemma_steps(before, steps, after, i - 1);
        assert(turned(steps[i - 1], steps[i - 1 + 1]));
    }
}

/// A callback turns the lengths of a voice's queues as [`convolved`] and
/// [`called_back`] say, as long as there is room.
pub proof fn law_callback_turns_the_lengths<T: Copy>(
    before: Voice<T>,
    steps: Seq<Voice<T>>,
    after: Voice<T>,
)
    requires
        callback(before, steps, after),
        before.waiting().len() + 48 <= 128,
        convolved(before.lengths()).ready <= 256,
    ensures
        steps.last().lengths() == convolved(before.lengths()),
        after.lengths() == called_back(before.lengths()),
{
    lemma_steps(before, steps, after, steps.len() - 1);
    if steps.len() >= 2 {
        lemma_steps(before, steps, after, steps.len() - 2);
        assert(turned(steps[steps.len() - 2], steps[steps.len() - 2 + 1]));
    }
}

/// A voice is silent in its first callback and then never again, and its queues
/// never overflow: after the first, every callback finds a full output.
pub proof fn law_voice_primes_in_one_callback(n: nat)
    ensures
        ({
            let l = lengths_after(n);
            let c = convolved(l);
            &&& l.waiting + 48 <= 128
            &&& c.ready <= 256
            &&& c.ready >= 48 <==> n >= 1
            &&& l.waiting == (48 * n) % 64
            &&& n >= 1 ==> l.ready == 48 - l.waiting
            &&& n == 0 ==> l.ready == 0
        }),
    decreases n,
{
    if n > 0 {
        law_voice_primes_in_one_callback((n - 1) as nat);
    }
}

/// The lengths of an actual voice: from empty queues, `n` callbacks lead to
/// [`lengths_after`]. `voices[k]` is the voice after `k` callbacks and `steps[k]`
/// what it went through in the next.
pub proof fn law_voices_follow_the_lengths<T: Copy>(
    voices: Seq<Voice<T>>,
    steps: Seq<Seq<Voice<T>>>,
    n: nat,
)
    requires
        n < voices.len(),
        n <= steps.len(),
        voices[0].lengths() == (Lengths { waiting: 0, ready: 0 }),
        forall|k: int|
            #![trigger steps[k]]
            0 <= k < n ==> callback(voices[k], steps[k], voices[k + 1]),
    ensures
        voices[n as int].lengths() == lengths_after(n),
    decreases n,
{
    if n > 0 {
        let k = n - 1;
        law_voices_follow_the_lengths(voices, steps, k as nat);
        law_voice_primes_in_one_callback(k as nat);
        assert(callback(voices[k], steps[k], voices[k + 1]));
        law_callback_turns_the_lengths(voices[k], steps[k], voices[k + 1]);
    }
}

/// What a queue takes is the front of what is offered: all of it if there is
/// room, and otherwise as much as there is room for.
pub proof fn law_queues_take_the_front<T>(samples: Seq<T>, room: int)
    requires
        room >= 0,
    ensures
        samples.len() <= room ==> accepted(samples, room) == samples,
        samples.len() > room ==> accepted(samples, room).len() == room,
        forall|i: int|
            0 <= i < accepted(samples, room).len() ==> #[trigger] accepted(samples, room)[i]
                == samples[i],
{
    if samples.len() <= room {
        assert(accepted(samples, room) =~= samples);
    }
}

/// A callback's samples queue up behind those that wait; a block handed out is
/// the oldest sixty-four of them; and a block taken back queues up behind what
/// each ear has, the left with the left.
pub proof fn law_voice_keeps_the_order<T: Copy>(v: Voice<T>, mono: Seq<T>, block: Seq<T>, l: Seq<T>, r: Seq<T>, after: Voice<T>)
    ensures
        v.took(mono, after) && v.waiting().len() + mono.len() <= 128 ==> after.waiting()
            == v.waiting() + mono && after.left() == v.left() && after.right() == v.right(),
        v.handed_out(block, after) ==> block.len() == 64 && block + after.waiting() == v.waiting()
            && after.left() == v.left() && after.right() == v.right(),
        v.took_back(l, r, after) && v.left().len() == v.right().len() && l.len() == r.len()
            && v.left().len() + l.len() <= 256 ==> after.left() == v.left() + l && after.right()
            == v.right() + r && after.waiting() == v.waiting(),
        v.ended(after) && v.left().len() >= 48 && v.left().len() == v.right().len() ==> {
            &&& v.left().take(48) + after.left() == v.left()
            &&& v.right().take(48) + after.right() == v.right()
        },
        v.ended(after) && v.left().len() < 48 ==> after.left() == v.left() && after.right()
            == v.right(),
{
    if v.waiting().len() + mono.len() <= 128 {
        law_queues_take_the_front(mono, 128 - v.waiting().len());
    }
    if v.left().len() + l.len() <= 256 {
        law_queues_take_the_front(l, 256 - v.left().len());
        if l.len() == r.len() {
            law_queues_take_the_front(r, 256 - v.left().len());
        }
    }
    if v.handed_out(block, after) {
        assert(block + after.waiting() =~= v.waiting());
    }
    if v.ended(after) && v.left().len() >= 48 && v.left().len() == v.right().len() {
        assert(v.left().take(48) + after.left() =~= v.left());
        assert(v.right().take(48) + after.right() =~= v.right());
    }
}

/// Convolving loses no sample: as many as came in are waiting or ready, less
/// than a block is left waiting, and what got ready came in whole blocks.
pub proof fn law_convolving_loses_no_sample(l: Lengths)
    requires
        l.waiting >= 0,
        l.ready >= 0,
    ensures
        convolved(l).waiting + convolved(l).ready == l.waiting + l.ready + 48,
        0 <= convolved(l).waiting < 64,
        (convolved(l).ready - l.ready) % 64 == 0,
        called_back(l).waiting == convolved(l).waiting,
        convolved(l).ready >= 48 ==> called_back(l).ready == convolved(l).ready - 48,
        convolved(l).ready < 48 ==> called_back(l).ready == convolved(l).ready,
{
}

} // verus!
