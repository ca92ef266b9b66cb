//! The flip-flop of the octaver: a square wave at half the input's frequency.
use vstd::prelude::*;

verus! {

/// A flip-flop that toggles on every rising zero crossing.
#[derive(Debug, Clone, Copy, PartialEq, Eq, Structural)]
pub struct FlipFlop {
    /// The output is positive.
    pub up: bool,
    /// The last sample was above zero.
    pub above: bool,
}

/// The flip-flop after a sample that is or is not above zero.
pub open spec fn flipped(f: FlipFlop, above: bool) -> FlipFlop {
    FlipFlop { up: f.up != (above && !f.above), above }
}

impl FlipFlop {
    /// Up, after silence.
    pub fn new() -> (f: Self)
        ensures
            f == (FlipFlop { up: true, above: false }),
    {
        FlipFlop { up: true, above: false }
    }

    /// Takes a sample; tells whether the output is positive.
    pub fn tick(&mut self, above: bool) -> (up: bool)
        ensures
            *final(self) == flipped(*old(self), above),
            up == final(self).up,
    {
        if above && !self.above {
            self.up = !self.up;
        }
        self.above = above;
        self.up
    }
}

/// The flip-flop after some samples.
pub open spec fn flipped_by(f: FlipFlop, samples: Seq<bool>) -> FlipFlop
    decreases samples.len(),
{
    if samples.len() == 0 {
        f
    } else {
        flipped(flipped_by(f, samples.drop_last()), samples.last())
    }
}

/// Rising zero crossings among some samples, after one that was `above` or not.
pub open spec fn crossings(above: bool, samples: Seq<bool>) -> int
    decreases samples.len(),
{
    if samples.len() == 0 {
        0
    } else {
        let before = if samples.len() == 1 {
            above
        } else {
            samples[samples.len() - 2]
        };
        crossings(above, samples.drop_last()) + if samples.last() && !before {
            1int
        } else {
            0
        }
    }
}

/// The output changes sign once for every rising crossing, so that it takes two
/// periods of the input for one of the output.
pub proof fn law_output_is_an_octave_down(f: FlipFlop, samples: Seq<bool>)
    ensures
        crossings(f.above, samples) >= 0,
        (flipped_by(f, samples).up == f.up) == (crossings(f.above, samples) % 2 == 0),
        flipped_by(f, samples).above == if samples.len() == 0 {
            f.above
        } else {
            samples.last()
        },
    decreases samples.len(),
{
    if samples.len() > 0 {
        law_output_is_an_octave_down(f, samples.drop_last());
    }
}

/// The output turns over where the signal rises above zero, and nowhere else.
pub proof fn law_output_turns_over_where_the_signal_rises(f: FlipFlop, above: bool)
    ensures
        above && !f.above ==> flipped(f, above).up == !f.up,
        !above || f.above ==> flipped(f, above).up == f.up,
        flipped(f, above).above == above,
{
}

} // verus!
