//! The Hothouse pedal: six knobs, three toggle switches, two footswitches and
//! two indicators around a Daisy Seed.
//!
//! Switch inputs have pull-ups, so a contact is engaged when its pin is low.
use crate::board::Pin;
pub use crate::debounce::Debouncer;
use vstd::prelude::*;

verus! {

/// Position of a three-way toggle switch.
#[derive(Copy, Clone, PartialEq, Eq, Debug, Structural)]
pub enum ToggleswitchPosition {
    Up,
    Middle,
    Down,
}

/// Decodes the two contacts of a toggle switch; the upper one wins.
pub fn decode_toggle(up_pressed: bool, down_pressed: bool) -> (p: ToggleswitchPosition)
    ensures
        p == toggle_position(up_pressed, down_pressed),
{
    if up_pressed {
        ToggleswitchPosition::Up
    } else if down_pressed {
        ToggleswitchPosition::Down
    } else {
        ToggleswitchPosition::Middle
    }
}

/// The position that two contacts stand for.
pub open spec fn toggle_position(up: bool, down: bool) -> ToggleswitchPosition {
    if up {
        ToggleswitchPosition::Up
    } else if down {
        ToggleswitchPosition::Down
    } else {
        ToggleswitchPosition::Middle
    }
}

/// The toggle switches, left to right.
#[derive(Copy, Clone, PartialEq, Eq, Debug, Structural)]
pub enum Toggle {
    One,
    Two,
    Three,
}

/// The footswitches.
#[derive(Copy, Clone, PartialEq, Eq, Debug, Structural)]
pub enum Footswitch {
    One,
    Two,
}

/// The knobs.
#[derive(Copy, Clone, PartialEq, Eq, Debug, Structural)]
pub enum Knob {
    One,
    Two,
    Three,
    Four,
    Five,
    Six,
}

/// The indicators.
#[derive(Copy, Clone, PartialEq, Eq, Debug, Structural)]
pub enum LedId {
    One,
    Two,
}

/// Place of the first footswitch among the contacts.
pub const FSW1: usize = 6;

/// Place of the second footswitch among the contacts.
pub const FSW2: usize = 7;

/// Place of a footswitch among the contacts.
pub open spec fn footswitch_place(f: Footswitch) -> int {
    match f {
        Footswitch::One => 6,
        Footswitch::Two => 7,
    }
}

/// Place of the upper contact of a toggle switch; the lower one follows it.
pub open spec fn toggle_place(t: Toggle) -> int {
    match t {
        Toggle::One => 0,
        Toggle::Two => 2,
        Toggle::Three => 4,
    }
}

/// Eight samples that are all engaged.
pub open spec fn held(samples: Seq<bool>) -> bool {
    forall|i: int| 0 <= i < 8 ==> #[trigger] samples[i]
}

/// All contacts, debounced: upper and lower contact of each toggle switch, then
/// the footswitches.
#[derive(Debug, Clone, Copy)]
pub struct Switches {
    debouncers: [Debouncer; 8],
}

impl Switches {
    /// The sample histories of the contacts.
    pub closed spec fn view(&self) -> Seq<Seq<bool>> {
        Seq::new(8, |i: int| self.debouncers@[i]@)
    }

    /// No contact has ever been engaged.
    pub fn new() -> (s: Self)
        ensures
            s@ == Seq::new(8, |i: int| Seq::new(8, |j: int| false)),
    {
        let s = Switches { debouncers: [Debouncer::new(); 8] };
        assert(s@ =~= Seq::new(8, |i: int| Seq::new(8, |j: int| false)));
        s
    }

    /// Takes one sample of every contact; `low[i]` tells that pin `i` reads low.
    pub fn update(&mut self, low: &[bool; 8])
        ensures
            final(self)@ == Seq::new(8, |i: int| old(self)@[i].skip(1).push(low@[i])),
    {
        let ghost before = self@;
        let mut i: usize = 0;
        while i < 8
            invariant
                i <= 8,
                before == old(self)@,
                before.len() == 8,
                forall|j: int|
                    0 <= j < i ==> (#[trigger] self.debouncers@[j])@ == before[j].skip(1).push(
                        low@[j],
                    ),
                forall|j: int| i <= j < 8 ==> (#[trigger] self.debouncers@[j])@ == before[j],
            decreases 8 - i,
        {
            let mut d = self.debouncers[i];
            d.update(low[i]);
            self.debouncers[i] = d;
            i = i + 1;
        }
        assert(self@ =~= Seq::new(8, |i: int| before[i].skip(1).push(low@[i])));
    }

    /// Position of a toggle switch.
    pub fn toggle(&self, t: Toggle) -> (p: ToggleswitchPosition)
        ensures
            p == toggle_position(held(self@[toggle_place(t)]), held(self@[toggle_place(t) + 1])),
    {
        let up: usize = match t {
            Toggle::One => 0,
            Toggle::Two => 2,
            Toggle::Three => 4,
        };
        decode_toggle(self.debouncers[up].pressed(), self.debouncers[up + 1].pressed())
    }

    fn fsw_index(f: Footswitch) -> (i: usize)
        ensures
            i == footswitch_place(f),
    {
        match f {
            Footswitch::One => FSW1,
            Footswitch::Two => FSW2,
        }
    }

    /// Whether a footswitch is held down.
    pub fn footswitch_pressed(&self, f: Footswitch) -> (b: bool)
        ensures
            b == held(self@[footswitch_place(f)]),
    {
        self.debouncers[Self::fsw_index(f)].pressed()
    }

    /// Whether a footswitch has just been pressed.
    pub fn footswitch_rising(&self, f: Footswitch) -> (b: bool)
        ensures
            b == (!self@[footswitch_place(f)][0] && forall|i: int|
                1 <= i < 8 ==> #[trigger] self@[footswitch_place(f)][i]),
    {
        self.debouncers[Self::fsw_index(f)].rising_edge()
    }

    /// Whether a footswitch has just been released.
    pub fn footswitch_falling(&self, f: Footswitch) -> (b: bool)
        ensures
            b == (self@[footswitch_place(f)][0] && forall|i: int|
                1 <= i < 8 ==> !#[trigger] self@[footswitch_place(f)][i]),
    {
        self.debouncers[Self::fsw_index(f)].falling_edge()
    }

    /// Both footswitches held down together: the way into the bootloader.
    pub fn dfu_gesture(&self) -> (b: bool)
        ensures
            b == (held(self@[6]) && held(self@[7])),
    {
        self.footswitch_pressed(Footswitch::One) && self.footswitch_pressed(Footswitch::Two)
    }
}

/// The indicators' pin levels; an indicator is lit when its pin is high.
#[derive(Debug, Clone, Copy, PartialEq, Eq, Structural)]
pub struct Leds {
    pub led1: bool,
    pub led2: bool,
}

impl Leds {
    /// Both dark.
    pub fn new() -> (l: Self)
        ensures
            l == (Leds { led1: false, led2: false }),
    {
        Leds { led1: false, led2: false }
    }

    /// Lights or darkens an indicator.
    pub fn set(&mut self, led: LedId, on: bool)
        ensures
            *final(self) == match led {
                LedId::One => Leds { led1: on, led2: old(self).led2 },
                LedId::Two => Leds { led1: old(self).led1, led2: on },
            },
    {
        match led {
            LedId::One => {
                self.led1 = on;
            },
            LedId::Two => {
                self.led2 = on;
            },
        }
    }
}

/// The knobs' analog inputs, all on the first converter.
#[derive(Debug, Clone, Copy)]
pub struct Knobs {
    pub pins: [Pin; 6],
}

/// The analog input of a knob.
pub open spec fn knob_pin(k: Knob) -> Pin {
    match k {
        Knob::One => Pin { port: 'A', pin: 3 },
        Knob::Two => Pin { port: 'B', pin: 1 },
        Knob::Three => Pin { port: 'A', pin: 7 },
        Knob::Four => Pin { port: 'A', pin: 6 },
        Knob::Five => Pin { port: 'C', pin: 1 },
        Knob::Six => Pin { port: 'C', pin: 4 },
    }
}

/// Place of a knob.
pub open spec fn knob_place(k: Knob) -> int {
    match k {
        Knob::One => 0,
        Knob::Two => 1,
        Knob::Three => 2,
        Knob::Four => 3,
        Knob::Five => 4,
        Knob::Six => 5,
    }
}

impl Knobs {
    /// The board's assignment.
    pub fn new() -> (k: Self)
        ensures
            forall|n: Knob| k.pins@[#[trigger] knob_place(n)] == knob_pin(n),
    {
        Knobs {
            pins: [
                Pin { port: 'A', pin: 3 },
                Pin { port: 'B', pin: 1 },
                Pin { port: 'A', pin: 7 },
                Pin { port: 'A', pin: 6 },
                Pin { port: 'C', pin: 1 },
                Pin { port: 'C', pin: 4 },
            ],
        }
    }
}

/// The whole panel.
#[derive(Debug, Clone, Copy)]
pub struct Hothouse {
    pub switches: Switches,
    pub leds: Leds,
    pub knobs: Knobs,
}

impl Hothouse {
    /// Puts the panel together.
    pub fn new(switches: Switches, leds: Leds, knobs: Knobs) -> (h: Self)
        ensures
            h == (Hothouse { switches, leds, knobs }),
    {
        Hothouse { switches, leds, knobs }
    }
}

/// The upper contact wins over the lower one; with neither the lever is in the
/// middle.
pub proof fn law_toggle_reads_its_contacts(up: bool, down: bool)
    ensures
        toggle_position(up, down) == ToggleswitchPosition::Up <==> up,
        toggle_position(up, down) == ToggleswitchPosition::Down <==> !up && down,
        toggle_position(up, down) == ToggleswitchPosition::Middle <==> !up && !down,
{
}

/// Every contact has a place of its own: the two of each toggle switch side by
/// side, from the first switch on, then the two footswitches.
pub proof fn law_contacts_have_their_places()
    ensures
        toggle_place(Toggle::One) == 0 && toggle_place(Toggle::Two) == 2 && toggle_place(
            Toggle::Three,
        ) == 4,
        footswitch_place(Footswitch::One) == 6 && footswitch_place(Footswitch::Two) == 7,
        knob_place(Knob::One) == 0 && knob_place(Knob::Two) == 1 && knob_place(Knob::Three) == 2,
        knob_place(Knob::Four) == 3 && knob_place(Knob::Five) == 4 && knob_place(Knob::Six) == 5,
{
}

/// The knobs' pins.
pub proof fn law_knobs_have_their_pins()
    ensures
        knob_pin(Knob::One) == (Pin { port: 'A', pin: 3 }),
        knob_pin(Knob::Two) == (Pin { port: 'B', pin: 1 }),
        knob_pin(Knob::Three) == (Pin { port: 'A', pin: 7 }),
        knob_pin(Knob::Four) == (Pin { port: 'A', pin: 6 }),
        knob_pin(Knob::Five) == (Pin { port: 'C', pin: 1 }),
        knob_pin(Knob::Six) == (Pin { port: 'C', pin: 4 }),
{
}

/// A contact is held exactly if none of its last eight samples was released.
pub proof fn law_held_means_all_eight(samples: Seq<bool>)
    requires
        samples.len() == 8,
    ensures
        held(samples) <==> samples == Seq::new(8, |i: int| true),
        held(samples) <==> !(exists|i: int| 0 <= i < 8 && !(#[trigger] samples[i])),
{
    if held(samples) {
        assert(samples =~= Seq::new(8, |i: int| true));
    }
}

} // verus!
