//! The integer half of the dynamics processors: how long a gate stays open, and
//! the look-ahead of the limiter.
use vstd::prelude::*;

verus! {

/// The hold of a noise gate: how many samples it stays open for after the signal
/// has fallen below the threshold.
#[derive(Debug, Clone, Copy, PartialEq, Eq, Structural)]
pub struct Hold {
    pub hold_samples: u32,
    pub held: u32,
}

/// The count after a sample above or below the threshold.
pub open spec fn held_after(h: Hold, above: bool) -> Hold {
    Hold {
        held: if above {
            h.hold_samples
        } else if h.held > 0 {
            (h.held - 1) as u32
        } else {
            0
        },
        ..h
    }
}

impl Hold {
    /// A gate at rest.
    pub fn new(hold_samples: u32) -> (h: Self)
        ensures
            h == (Hold { hold_samples, held: 0 }),
    {
        Hold { hold_samples, held: 0 }
    }

    /// Counts one sample; tells whether the signal passes.
    pub fn tick(&mut self, above: bool) -> (open: bool)
        ensures
            *final(self) == held_after(*old(self), above),
            open == (above || final(self).held > 0),
    {
        if above {
            self.held = self.hold_samples;
        } else if self.held > 0 {
            self.held = self.held - 1;
        }
        above || self.held > 0
    }

    /// Back to rest.
    pub fn reset(&mut self)
        ensures
            *final(self) == (Hold { held: 0, ..*old(self) }),
    {
        self.held = 0;
    }
}

/// The count after `n` samples below the threshold.
pub open spec fn quiet(h: Hold, n: nat) -> Hold
    decreases n,
{
    if n == 0 {
        h
    } else {
        held_after(quiet(h, (n - 1) as nat), false)
    }
}

/// After a sample above the threshold the signal passes for the samples that
/// follow until the hold has run out, and then no longer.
pub proof fn law_gate_holds(h: Hold, n: nat)
    ensures
        quiet(held_after(h, true), n).held == if n < h.hold_samples {
            h.hold_samples - n
        } else {
            0
        },
        quiet(held_after(h, true), n).hold_samples == h.hold_samples,
    decreases n,
{
    if n > 0 {
        law_gate_holds(h, (n - 1) as nat);
    }
}

/// Bit pattern of infinity; above it, sign left out, are the patterns that stand
/// for no number.
pub const INFINITY_BITS: u32 = 0x7F80_0000;

/// The magnitude of a single-precision sample, given as its bit pattern: the
/// order of magnitudes is the order of these numbers. A sample that is no number
/// has none.
pub open spec fn magnitude(bits: u32) -> int {
    let m = bits as int % 0x8000_0000;
    if m > INFINITY_BITS {
        0
    } else {
        m
    }
}

fn magnitude_of(bits: u32) -> (m: u32)
    ensures
        m == magnitude(bits),
{
    let m: u32 = bits % 0x8000_0000;
    if m > INFINITY_BITS {
        0
    } else {
        m
    }
}

/// The largest magnitude of some samples.
pub open spec fn peak(samples: Seq<u32>) -> int
    decreases samples.len(),
{
    if samples.len() == 0 {
        0
    } else {
        let rest = peak(samples.drop_last());
        if magnitude(samples.last()) > rest {
            magnitude(samples.last())
        } else {
            rest
        }
    }
}

/// The look-ahead of a limiter: the signal is delayed by `LA` samples, and the
/// gain follows the peak of everything from the sample that is put out to the
/// newest. Samples are bit patterns of single-precision numbers; one that is no
/// number passes through and does not count towards the peak.
#[derive(Debug, Clone, Copy)]
pub struct Limiter<const LA: usize> {
    ring: [u32; LA],
    pos: usize,
}

impl<const LA: usize> Limiter<LA> {
    /// Validity of a look-ahead.
    pub closed spec fn wf(&self) -> bool {
        self.pos < LA
    }

    /// The samples under way, oldest first.
    pub closed spec fn view(&self) -> Seq<u32> {
        Seq::new(
            LA as nat,
            |i: int|
                self.ring@[if self.pos + i < LA {
                    self.pos + i
                } else {
                    self.pos + i - LA
                }],
        )
    }

    /// Silence under way.
    pub fn new() -> (l: Self)
        requires
            LA > 0,
        ensures
            l.wf(),
            l@ == Seq::new(LA as nat, |i: int| 0u32),
    {
        let l = Limiter { ring: [0; LA], pos: 0 };
        assert(l@ =~= Seq::new(LA as nat, |i: int| 0u32));
        l
    }

    /// Takes a sample; hands out the oldest and the peak of all samples from that
    /// one to the newest.
    pub fn tick(&mut self, x: u32) -> (r: (u32, u32))
        requires
            old(self).wf(),
        ensures
            final(self).wf(),
            r.0 == old(self)@[0],
            r.1 == peak(old(self)@.push(x)),
            final(self)@ == old(self)@.skip(1).push(x),
    {
        let ghost before = self@;
        let out = self.ring[self.pos];
        let p = self.peak_under_way();
        let m: u32 = magnitude_of(x);
        let p: u32 = if m > p {
            m
        } else {
            p
        };
        assert(before.push(x).drop_last() =~= before);
        self.ring[self.pos] = x;
        self.pos = if self.pos + 1 == LA {
            0
        } else {
            self.pos + 1
        };
        assert(self@ =~= before.skip(1).push(x));
        (out, p)
    }

    /// The peak of the samples under way.
    fn peak_under_way(&self) -> (p: u32)
        requires
            self.wf(),
        ensures
            p == peak(self@),
    {
        let mut p: u32 = 0;
        let mut i: usize = 0;
        assert(self@.take(0) =~= Seq::empty());
        while i < LA
            invariant
                self.wf(),
                i <= LA,
                p == peak(self@.take(i as int)),
            decreases LA - i,
        {
            let at: usize = if i < LA - self.pos {
                self.pos + i
            } else {
                i - (LA - self.pos)
            };
            let m: u32 = magnitude_of(self.ring[at]);
            proof {
                let t = self@.take(i + 1);
                assert(t.drop_last() =~= self@.take(i as int));
                assert(t.last() == self.ring@[at as int]);
            }
            if m > p {
                p = m;
            }
            i = i + 1;
        }
        assert(self@.take(LA as int) =~= self@);
        p
    }

    /// Samples by which the signal is delayed.
    pub fn latency(&self) -> (n: usize)
        ensures
            n == LA,
    {
        LA
    }

    /// Silence under way.
    pub fn reset(&mut self)
        requires
            LA > 0,
        ensures
            final(self).wf(),
            final(self)@ == Seq::new(LA as nat, |i: int| 0u32),
    {
        *self = Limiter::new();
    }
}

/// The magnitude of a number is its absolute value: the sign does not count, and
/// a pattern without sign is its own magnitude.
pub proof fn law_magnitude_is_the_absolute_value(b: u32)
    requires
        b <= 0x7F80_0000,
    ensures
        magnitude(b) == b,
        magnitude((b + 0x8000_0000) as u32) == b,
{
}

/// In the patterns alone: no number in the window, taken without its sign, is
/// above the peak, and the peak is one of them, or silence if there is none.
pub proof fn law_peak_is_the_loudest_number(samples: Seq<u32>)
    ensures
        forall|i: int|
            0 <= i < samples.len() && #[trigger] samples[i] <= 0x7F80_0000 ==> samples[i] <= peak(
                samples,
            ),
        forall|i: int|
            0 <= i < samples.len() && 0x8000_0000 <= #[trigger] samples[i] <= 0xFF80_0000
                ==> samples[i] - 0x8000_0000 <= peak(samples),
        peak(samples) == 0 || exists|i: int|
            0 <= i < samples.len() && (#[trigger] samples[i] == peak(samples) || samples[i]
                == peak(samples) + 0x8000_0000),
        0 <= peak(samples) <= 0x7F80_0000,
    decreases samples.len(),
{
    if samples.len() > 0 {
        let front = samples.drop_last();
        law_peak_is_the_loudest_number(front);
        assert forall|i: int| 0 <= i < samples.len() && #[trigger] samples[i] <= 0x7F80_0000 implies
            samples[i] <= peak(samples) by {
            if i < front.len() {
                assert(front[i] == samples[i]);
            }
        }
        assert forall|i: int|
            0 <= i < samples.len() && 0x8000_0000 <= #[trigger] samples[i] <= 0xFF80_0000 implies
            samples[i] - 0x8000_0000 <= peak(samples) by {
            if i < front.len() {
                assert(front[i] == samples[i]);
            }
        }
        if peak(samples) != 0 {
            if magnitude(samples.last()) > peak(front) {
                let last = samples.len() - 1;
                assert(samples[last] == peak(samples) || samples[last] == peak(samples)
                    + 0x8000_0000);
            } else {
                let i = choose|i: int|
                    0 <= i < front.len() && (#[trigger] front[i] == peak(front) || front[i]
                        == peak(front) + 0x8000_0000);
                assert(samples[i] == front[i]);
            }
        }
    }
}

/// No sample is louder than the peak: the sample that is put out, being one of
/// those that the peak is taken over, never exceeds it.
pub proof fn law_peak_bounds_every_sample(samples: Seq<u32>, i: int)
    requires
        0 <= i < samples.len(),
    ensures
        magnitude(samples[i]) <= peak(samples),
        exists|j: int| 0 <= j < samples.len() && magnitude(#[trigger] samples[j]) == peak(samples),
    decreases samples.len(),
{
    let front = samples.drop_last();
    if front.len() == 0 {
        assert(peak(front) == 0);
        assert(magnitude(samples[0]) == peak(samples));
    } else {
        let k = if i < front.len() {
            i
        } else {
            0
        };
        law_peak_bounds_every_sample(front, k);
        let j = choose|j: int|
            0 <= j < front.len() && magnitude(#[trigger] front[j]) == peak(front);
        assert(samples[j] == front[j]);
        if magnitude(samples.last()) > peak(front) {
            assert(magnitude(samples[samples.len() - 1]) == peak(samples));
        }
        if i < front.len() {
            assert(samples[i] == front[i]);
        }
    }
}

/// A sample that is no number leaves the peak of the others alone.
pub proof fn law_peak_ignores_no_number(before: Seq<u32>, bits: u32, after: Seq<u32>)
    requires
        bits as int % 0x8000_0000 > INFINITY_BITS,
    ensures
        peak(before.push(bits) + after) == peak(before + after),
    decreases after.len(),
{
    if after.len() == 0 {
        assert(before.push(bits) + after =~= before.push(bits));
        assert(before + after =~= before);
        assert(before.push(bits).drop_last() =~= before);
        lemma_peak_is_no_less(before);
    } else {
        let rest = after.drop_last();
        law_peak_ignores_no_number(before, bits, rest);
        assert((before.push(bits) + after).drop_last() =~= before.push(bits) + rest);
        assert((before + after).drop_last() =~= before + rest);
    }
}

proof fn lemma_peak_is_no_less(samples: Seq<u32>)
    ensures
        peak(samples) >= 0,
    decreases samples.len(),
{
    if samples.len() > 0 {
        lemma_peak_is_no_less(samples.drop_last());
    }
}

/// What is put out after `LA` further samples is what was taken then.
pub proof fn law_lookahead_delays(window: Seq<u32>, inputs: Seq<u32>)
    requires
        inputs.len() == window.len(),
    ensures
        pushed(window, inputs) == inputs,
{
    lemma_pushed(window, inputs, inputs.len());
    assert(inputs.take(inputs.len() as int) =~= inputs);
    assert(window.skip(inputs.len() as int) + inputs =~= inputs);
}

/// The samples under way after some inputs.
pub open spec fn pushed(window: Seq<u32>, inputs: Seq<u32>) -> Seq<u32>
    decreases inputs.len(),
{
    if inputs.len() == 0 {
        window
    } else {
        pushed(window, inputs.drop_last()).skip(1).push(inputs.last())
    }
}

proof fn lemma_pushed(window: Seq<u32>, inputs: Seq<u32>, n: nat)
    requires
        n <= inputs.len(),
        inputs.len() == window.len(),
    ensures
        pushed(window, inputs.take(n as int)) == window.skip(n as int) + inputs.take(n as int),
    decreases n,
{
    if n == 0 {
        assert(inputs.take(0) =~= Seq::empty());
        assert(window.skip(0) + Seq::<u32>::empty() =~= window);
    } else {
        lemma_pushed(window, inputs, (n - 1) as nat);
        let t = inputs.take(n as int);
        assert(t.drop_last() =~= inputs.take(n - 1));
        assert(pushed(window, t) =~= window.skip(n as int) + t);
    }
}

} // verus!
