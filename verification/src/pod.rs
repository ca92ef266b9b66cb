//! The Daisy Pod: two knobs, two buttons, a clickable encoder and two colour
//! indicators around a Daisy Seed.
//!
//! Inputs have pull-ups, so a contact is engaged when its pin is low; the
//! indicators light when their pins are low.
use crate::board::Pin;
pub use crate::debounce::Debouncer;
use crate::hothouse;
use vstd::prelude::*;

verus! {

/// Baud rate of the serial MIDI port.
pub const MIDI_BAUD: u32 = 31_250;

/// Quadrature decoder over the sample histories of its two channels.
#[derive(Copy, Clone, Debug)]
pub struct EncoderDecoder {
    a: u8,
    b: u8,
    inc: i32,
}

/// The last two samples of a channel, older first.
pub open spec fn last_two(history: u8) -> (bool, bool) {
    ((history / 2) % 2 == 1, history % 2 == 1)
}

/// A step of the encoder: up when channel A falls while B has been low, down
/// when B falls while A has been low.
pub open spec fn encoder_step(a: (bool, bool), b: (bool, bool)) -> int {
    if a == (true, false) && b == (false, false) {
        1
    } else if b == (true, false) && a == (false, false) {
        -1
    } else {
        0
    }
}

impl Default for EncoderDecoder {
    fn default() -> (e: Self)
        ensures
            e.channels() == ((true, true), (true, true)),
            e.step() == 0,
    {
        EncoderDecoder::new()
    }
}

fn shifted_in(history: u8, high: bool) -> (h: u8)
    ensures
        last_two(h) == (last_two(history).1, high),
{
    (history % 128) * 2 + if high {
        1
    } else {
        0
    }
}

impl EncoderDecoder {
    /// The last two samples of each channel.
    pub closed spec fn channels(&self) -> ((bool, bool), (bool, bool)) {
        (last_two(self.a), last_two(self.b))
    }

    /// The last step.
    pub closed spec fn step(&self) -> int {
        self.inc as int
    }

    /// A decoder at rest, both channels high.
    pub fn new() -> (e: Self)
        ensures
            e.channels() == ((true, true), (true, true)),
            e.step() == 0,
    {
        EncoderDecoder { a: 0xff, b: 0xff, inc: 0 }
    }

    /// Takes one sample of each channel; returns the step that it completes.
    pub fn update(&mut self, a_high: bool, b_high: bool) -> (inc: i32)
        ensures
            final(self).channels() == (
                (old(self).channels().0.1, a_high),
                (old(self).channels().1.1, b_high),
            ),
            inc == encoder_step(final(self).channels().0, final(self).channels().1),
            final(self).step() == inc,
    {
        self.a = shifted_in(self.a, a_high);
        self.b = shifted_in(self.b, b_high);
        self.inc = 0;
        if self.a % 4 == 2 && self.b % 4 == 0 {
            self.inc = 1;
        } else if self.b % 4 == 2 && self.a % 4 == 0 {
            self.inc = -1;
        }
        self.inc
    }

    /// The last step.
    pub fn increment(&self) -> (inc: i32)
        ensures
            inc == self.step(),
    {
        self.inc
    }
}

/// Turning back undoes a step: exchanging the channels negates it.
pub proof fn law_direction_is_symmetric(a: (bool, bool), b: (bool, bool))
    ensures
        encoder_step(b, a) == -encoder_step(a, b),
{
}

/// An encoder at rest does not count.
pub proof fn law_rest_counts_nothing(a: bool, b: bool)
    ensures
        encoder_step((a, a), (b, b)) == 0,
{
}

/// The knobs.
#[derive(Copy, Clone, PartialEq, Eq, Debug, Structural)]
pub enum Knob {
    One,
    Two,
}

/// The buttons.
#[derive(Copy, Clone, PartialEq, Eq, Debug, Structural)]
pub enum Button {
    One,
    Two,
}

/// The colour indicators.
#[derive(Copy, Clone, PartialEq, Eq, Debug, Structural)]
pub enum Led {
    One,
    Two,
}

/// The knobs' analog inputs, both on the first converter.
#[derive(Debug, Clone, Copy, PartialEq, Eq, Structural)]
pub struct Knobs {
    pub k1: Pin,
    pub k2: Pin,
}

impl Knobs {
    /// The board's assignment.
    pub fn new() -> (k: Self)
        ensures
            k == (Knobs { k1: Pin { port: 'C', pin: 4 }, k2: Pin { port: 'C', pin: 0 } }),
    {
        Knobs { k1: Pin { port: 'C', pin: 4 }, k2: Pin { port: 'C', pin: 0 } }
    }

    /// The input of a knob.
    pub fn pin(&self, knob: Knob) -> (p: Pin)
        ensures
            p == match knob {
                Knob::One => self.k1,
                Knob::Two => self.k2,
            },
    {
        match knob {
            Knob::One => self.k1,
            Knob::Two => self.k2,
        }
    }
}

/// Place of a button.
pub open spec fn button_place(b: Button) -> int {
    match b {
        Button::One => 0,
        Button::Two => 1,
    }
}

/// The buttons, debounced.
#[derive(Debug, Clone, Copy)]
pub struct Buttons {
    debouncers: [Debouncer; 2],
}

impl Buttons {
    /// The sample histories of the buttons.
    pub closed spec fn view(&self) -> Seq<Seq<bool>> {
        Seq::new(2, |i: int| self.debouncers@[i]@)
    }

    /// No button has ever been engaged.
    pub fn new() -> (b: Self)
        ensures
            b@ == Seq::new(2, |i: int| Seq::new(8, |j: int| false)),
    {
        let b = Buttons { debouncers: [Debouncer::new(); 2] };
        assert(b@ =~= Seq::new(2, |i: int| Seq::new(8, |j: int| false)));
        b
    }

    /// Takes one sample of each button; `low[i]` tells that pin `i` reads low.
    pub fn update(&mut self, low: &[bool; 2])
        ensures
            final(self)@ == Seq::new(2, |i: int| old(self)@[i].skip(1).push(low@[i])),
    {
        let ghost before = self@;
        let mut d0 = self.debouncers[0];
        let mut d1 = self.debouncers[1];
        d0.update(low[0]);
        d1.update(low[1]);
        self.debouncers[0] = d0;
        self.debouncers[1] = d1;
        assert(self@ =~= Seq::new(2, |i: int| before[i].skip(1).push(low@[i])));
    }

    fn index(b: Button) -> (i: usize)
        ensures
            i == button_place(b),
    {
        match b {
            Button::One => 0,
            Button::Two => 1,
        }
    }

    /// Whether a button is held down.
    pub fn pressed(&self, b: Button) -> (r: bool)
        ensures
            r == hothouse::held(self@[button_place(b)]),
    {
        self.debouncers[Self::index(b)].pressed()
    }

    /// Whether a button has just been pressed.
    pub fn rising(&self, b: Button) -> (r: bool)
        ensures
            r == (!self@[button_place(b)][0] && forall|i: int|
                1 <= i < 8 ==> #[trigger] self@[button_place(b)][i]),
    {
        self.debouncers[Self::index(b)].rising_edge()
    }

    /// Whether a button has just been released.
    pub fn falling(&self, b: Button) -> (r: bool)
        ensures
            r == (self@[button_place(b)][0] && forall|i: int|
                1 <= i < 8 ==> !#[trigger] self@[button_place(b)][i]),
    {
        self.debouncers[Self::index(b)].falling_edge()
    }
}

/// The encoder: its decoder and its debounced click.
#[derive(Debug, Clone, Copy)]
pub struct Encoder {
    decoder: EncoderDecoder,
    click_deb: Debouncer,
}

impl Encoder {
    /// The quadrature decoder.
    pub closed spec fn decoder(&self) -> EncoderDecoder {
        self.decoder
    }

    /// The sample history of the click.
    pub closed spec fn click(&self) -> Seq<bool> {
        self.click_deb@
    }

    /// An encoder at rest.
    pub fn new() -> (e: Self)
        ensures
            e.decoder().channels() == ((true, true), (true, true)),
            e.decoder().step() == 0,
            e.click() == Seq::new(8, |i: int| false),
    {
        Encoder { decoder: EncoderDecoder::new(), click_deb: Debouncer::new() }
    }

    /// Takes one sample of the pins; returns the step that it completes.
    pub fn update(&mut self, a_high: bool, b_high: bool, click_low: bool) -> (inc: i32)
        ensures
            final(self).click() == old(self).click().skip(1).push(click_low),
            final(self).decoder().channels() == (
                (old(self).decoder().channels().0.1, a_high),
                (old(self).decoder().channels().1.1, b_high),
            ),
            inc == encoder_step(
                final(self).decoder().channels().0,
                final(self).decoder().channels().1,
            ),
            final(self).decoder().step() == inc,
    {
        self.click_deb.update(click_low);
        self.decoder.update(a_high, b_high)
    }

    /// The last step.
    pub fn increment(&self) -> (inc: i32)
        ensures
            inc == self.decoder().step(),
    {
        self.decoder.increment()
    }

    /// Whether the click is held down.
    pub fn pressed(&self) -> (b: bool)
        ensures
            b == hothouse::held(self.click()),
    {
        self.click_deb.pressed()
    }

    /// Whether the click has just been pressed.
    pub fn rising(&self) -> (b: bool)
        ensures
            b == (!self.click()[0] && forall|i: int| 1 <= i < 8 ==> #[trigger] self.click()[i]),
    {
        self.click_deb.rising_edge()
    }

    /// Whether the click has just been released.
    pub fn falling(&self) -> (b: bool)
        ensures
            b == (self.click()[0] && forall|i: int| 1 <= i < 8 ==> !#[trigger] self.click()[i]),
    {
        self.click_deb.falling_edge()
    }
}

/// Pin levels of a colour indicator: red, green, blue.
#[derive(Debug, Clone, Copy, PartialEq, Eq, Structural)]
pub struct RgbPins {
    pub r: bool,
    pub g: bool,
    pub b: bool,
}

/// The colour indicators' pin levels; a colour is lit when its pin is low.
#[derive(Debug, Clone, Copy, PartialEq, Eq, Structural)]
pub struct RgbLeds {
    pub led1: RgbPins,
    pub led2: RgbPins,
}

impl RgbLeds {
    /// Both dark: all pins high.
    pub fn new() -> (l: Self)
        ensures
            l.led1 == (RgbPins { r: true, g: true, b: true }),
            l.led2 == (RgbPins { r: true, g: true, b: true }),
    {
        let mut leds = RgbLeds {
            led1: RgbPins { r: false, g: false, b: false },
            led2: RgbPins { r: false, g: false, b: false },
        };
        leds.set(Led::One, false, false, false);
        leds.set(Led::Two, false, false, false);
        leds
    }

    /// Lights the given colours of an indicator and darkens the others.
    pub fn set(&mut self, led: Led, r: bool, g: bool, b: bool)
        ensures
            *final(self) == match led {
                Led::One => RgbLeds {
                    led1: RgbPins { r: !r, g: !g, b: !b },
                    led2: old(self).led2,
                },
                Led::Two => RgbLeds {
                    led1: old(self).led1,
                    led2: RgbPins { r: !r, g: !g, b: !b },
                },
            },
    {
        let pins = RgbPins { r: !r, g: !g, b: !b };
        match led {
            Led::One => {
                self.led1 = pins;
            },
            Led::Two => {
                self.led2 = pins;
            },
        }
    }
}

/// The whole board.
#[derive(Debug, Clone, Copy)]
pub struct DaisyPod {
    pub knobs: Knobs,
    pub buttons: Buttons,
    pub encoder: Encoder,
    pub leds: RgbLeds,
}

impl DaisyPod {
    /// Puts the board together.
    pub fn new(knobs: Knobs, buttons: Buttons, encoder: Encoder, leds: RgbLeds) -> (p: Self)
        ensures
            p == (DaisyPod { knobs, buttons, encoder, leds }),
    {
        DaisyPod { knobs, buttons, encoder, leds }
    }
}

/// The encoder counts up exactly when channel A has just fallen while B has been
/// low, and down exactly when B has just fallen while A has been low.
pub proof fn law_encoder_counts_falling_edges(a0: bool, a1: bool, b0: bool, b1: bool)
    ensures
        encoder_step((a0, a1), (b0, b1)) == 1 <==> a0 && !a1 && !b0 && !b1,
        encoder_step((a0, a1), (b0, b1)) == -1 <==> b0 && !b1 && !a0 && !a1,
        -1 <= encoder_step((a0, a1), (b0, b1)) <= 1,
{
}

/// The buttons' places.
pub proof fn law_buttons_have_their_places()
    ensures
        button_place(Button::One) == 0,
        button_place(Button::Two) == 1,
{
}

/// A sample shifted into a channel's history is its newest, and what was the
/// newest before it is the older of the two.
pub proof fn law_samples_shift_in(history: u8, high: bool)
    ensures
        ({
            let shifted = (history as int * 2 + if high { 1int } else { 0 }) % 256;
            &&& last_two(shifted as u8).1 == high
            &&& last_two(shifted as u8).0 == last_two(history).1
        }),
{
}

} // verus!
