//! Switch debouncing by sample history.
use vstd::prelude::*;

verus! {

/// Eight samples, oldest first, from their packed form: the newest is the lowest
/// bit.
pub open spec fn unpacked(state: u8) -> Seq<bool> {
    seq![
        state & 0x80 != 0,
        state & 0x40 != 0,
        state & 0x20 != 0,
        state & 0x10 != 0,
        state & 0x08 != 0,
        state & 0x04 != 0,
        state & 0x02 != 0,
        state & 0x01 != 0,
    ]
}

/// A debounced switch: a shift register of its last eight samples.
#[derive(Copy, Clone, Debug)]
pub struct Debouncer {
    state: u8,
}

impl Default for Debouncer {
    fn default() -> (d: Self)
        ensures
            d@ == Seq::new(8, |i: int| false),
    {
        Debouncer::new()
    }
}

impl Debouncer {
    /// The last eight samples, oldest first; `true` is engaged.
    pub closed spec fn view(&self) -> Seq<bool> {
        unpacked(self.state)
    }

    /// A switch that has never been engaged.
    pub fn new() -> (d: Self)
        ensures
            d@ == Seq::new(8, |i: int| false),
    {
        let d = Debouncer { state: 0 };
        proof {
            lemma_patterns(0);
        }
        assert(d@ =~= Seq::new(8, |i: int| false));
        d
    }

    /// Takes one sample.
    pub fn update(&mut self, engaged: bool)
        ensures
            final(self)@ == old(self)@.skip(1).push(engaged),
    {
        let ghost s = self.state;
        let e: u8 = if engaged {
            1
        } else {
            0
        };
        self.state = (self.state << 1) | e;
        proof {
            lemma_shift(s, e);
        }
        assert(self@ =~= unpacked(s).skip(1).push(engaged));
    }

    /// Held down: engaged in all eight samples.
    pub fn pressed(&self) -> (b: bool)
        ensures
            b == forall|i: int| 0 <= i < 8 ==> #[trigger] self@[i],
    {
        proof {
            lemma_patterns(self.state);
            let u = self@;
            let all = u[0] && u[1] && u[2] && u[3] && u[4] && u[5] && u[6] && u[7];
            assert(all == (self.state == 0xff));
            assert(all ==> forall|i: int| 0 <= i < 8 ==> #[trigger] u[i]);
        }
        self.state == 0xff
    }

    /// Just pressed: engaged in the last seven samples, not in the one before.
    pub fn rising_edge(&self) -> (b: bool)
        ensures
            b == (!self@[0] && forall|i: int| 1 <= i < 8 ==> #[trigger] self@[i]),
    {
        proof {
            lemma_patterns(self.state);
        }
        self.state == 0x7f
    }

    /// Just released: not engaged in the last seven samples, but in the one
    /// before.
    pub fn falling_edge(&self) -> (b: bool)
        ensures
            b == (self@[0] && forall|i: int| 1 <= i < 8 ==> !#[trigger] self@[i]),
    {
        proof {
            lemma_patterns(self.state);
        }
        self.state == 0x80
    }
}

proof fn lemma_shift(s: u8, e: u8)
    requires
        e <= 1,
    ensures
        ({
            let t = (s << 1) | e;
            &&& (t & 0x80 != 0) == (s & 0x40 != 0)
            &&& (t & 0x40 != 0) == (s & 0x20 != 0)
            &&& (t & 0x20 != 0) == (s & 0x10 != 0)
            &&& (t & 0x10 != 0) == (s & 0x08 != 0)
            &&& (t & 0x08 != 0) == (s & 0x04 != 0)
            &&& (t & 0x04 != 0) == (s & 0x02 != 0)
            &&& (t & 0x02 != 0) == (s & 0x01 != 0)
            &&& (t & 0x01 != 0) == (e == 1)
        }),
{
    let t = (s << 1) | e;
    assert((t & 0x80 != 0) == (s & 0x40 != 0) && (t & 0x40 != 0) == (s & 0x20 != 0) && (t & 0x20
        != 0) == (s & 0x10 != 0) && (t & 0x10 != 0) == (s & 0x08 != 0) && (t & 0x08 != 0) == (s
        & 0x04 != 0) && (t & 0x04 != 0) == (s & 0x02 != 0) && (t & 0x02 != 0) == (s & 0x01 != 0)
        && (t & 0x01 != 0) == (e == 1)) by (bit_vector)
        requires
            e <= 1,
            t == (s << 1) | e,
    ;
}

/// The packed forms of a press, a rising and a falling edge.
proof fn lemma_patterns(s: u8)
    ensures
        ({
            let u = unpacked(s);
            let rest = u[1] && u[2] && u[3] && u[4] && u[5] && u[6] && u[7];
            let none = !u[1] && !u[2] && !u[3] && !u[4] && !u[5] && !u[6] && !u[7];
            &&& (s == 0xff) == (u[0] && rest)
            &&& (s == 0x7f) == (!u[0] && rest)
            &&& (s == 0x80) == (u[0] && none)
            &&& (s == 0) == (!u[0] && none)
        }),
{
    let rest = s & 0x40 != 0 && s & 0x20 != 0 && s & 0x10 != 0 && s & 0x08 != 0 && s & 0x04 != 0
        && s & 0x02 != 0 && s & 0x01 != 0;
    let none = s & 0x40 == 0 && s & 0x20 == 0 && s & 0x10 == 0 && s & 0x08 == 0 && s & 0x04 == 0
        && s & 0x02 == 0 && s & 0x01 == 0;
    assert((s == 0xff) == (s & 0x80 != 0 && rest) && (s == 0x7f) == (s & 0x80 == 0 && rest) && (s
        == 0x80) == (s & 0x80 != 0 && none) && (s == 0) == (s & 0x80 == 0 && none)) by (bit_vector)
        requires
            rest == (s & 0x40 != 0 && s & 0x20 != 0 && s & 0x10 != 0 && s & 0x08 != 0 && s & 0x04
                != 0 && s & 0x02 != 0 && s & 0x01 != 0),
            none == (s & 0x40 == 0 && s & 0x20 == 0 && s & 0x10 == 0 && s & 0x08 == 0 && s & 0x04
                == 0 && s & 0x02 == 0 && s & 0x01 == 0),
    ;
}

/// The samples after a run of updates.
pub open spec fn samples_after(before: Seq<bool>, run: Seq<bool>) -> Seq<bool>
    decreases run.len(),
{
    if run.len() == 0 {
        before
    } else {
        samples_after(before, run.drop_last()).skip(1).push(run.last())
    }
}

/// The history is the last eight of everything that was ever sampled.
pub proof fn law_history_is_the_last_eight(before: Seq<bool>, run: Seq<bool>)
    requires
        before.len() == 8,
    ensures
        samples_after(before, run) == (before + run).skip(run.len() as int),
    decreases run.len(),
{
    if run.len() == 0 {
        assert((before + run).skip(0) =~= before);
    } else {
        law_history_is_the_last_eight(before, run.drop_last());
        assert(samples_after(before, run) =~= (before + run).skip(run.len() as int));
    }
}

/// A press needs eight engaged samples in a row: one release among the last
/// eight and the switch is not pressed.
pub proof fn law_bounce_is_rejected(before: Seq<bool>, run: Seq<bool>, k: int)
    requires
        before.len() == 8,
        0 <= k < run.len(),
        run.len() - k <= 8,
        !run[k],
    ensures
        exists|i: int| 0 <= i < 8 && !(#[trigger] samples_after(before, run)[i]),
{
    law_history_is_the_last_eight(before, run);
    let i = 8 + k - run.len();
    assert(!samples_after(before, run)[i]);
}

} // verus!
