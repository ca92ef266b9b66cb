//! Pins of the Daisy Seed, and its on-board indicator.
use vstd::prelude::*;

verus! {

/// A microcontroller pin.
#[derive(Debug, Clone, Copy, PartialEq, Eq, Structural)]
pub struct Pin {
    pub port: char,
    pub pin: u8,
}

/// The on-board indicator's pin, a push-pull output, lit when high.
pub fn user_led() -> (p: Pin)
    ensures
        p == (Pin { port: 'C', pin: 7 }),
{
    Pin { port: 'C', pin: 7 }
}

/// Mode register of port C with pin 7 made a general-purpose output, all other
/// pins as they were.
pub open spec fn led_output_mode(moder: int) -> int {
    moder - ((moder / 0x4000) % 4) * 0x4000 + 0x4000
}

/// Makes pin 7 of port C an output in its mode register's value.
pub fn led_output(moder: u32) -> (m: u32)
    ensures
        m == led_output_mode(moder as int),
{
    moder - ((moder / 0x4000) % 4) * 0x4000 + 0x4000
}

/// The set/reset word that lights or darkens the indicator.
pub fn led_set(on: bool) -> (bsrr: u32)
    ensures
        bsrr == if on {
            0x80u32
        } else {
            0x80_0000u32
        },
{
    if on {
        0x80
    } else {
        0x80_0000
    }
}

/// The heartbeat: the indicator follows one bit of a free-running loop counter.
pub fn heartbeat(count: u32) -> (r: (u32, bool))
    ensures
        r.0 == (count + 1) % 0x1_0000_0000,
        r.1 == ((r.0 as int / 0x8_0000) % 2 == 1),
{
    let next = count.wrapping_add(1);
    (next, (next / 0x8_0000) % 2 == 1)
}

/// Making the indicator's pin an output twice is making it one once.
pub proof fn law_led_output_is_idempotent(moder: u32)
    ensures
        led_output_mode(led_output_mode(moder as int)) == led_output_mode(moder as int),
{
    let m = moder as int;
    let r = led_output_mode(m);
    assert(r == (m / 0x1_0000) * 0x1_0000 + 0x4000 + m % 0x4000);
    assert((r / 0x4000) % 4 == 1);
}

/// The two mode bits of pin 7 become those of an output, and the bits of all other
/// pins stay as they are.
pub proof fn law_led_output_touches_only_its_pin(moder: u32)
    ensures
        0 <= led_output_mode(moder as int) <= u32::MAX,
        (led_output_mode(moder as int) / 0x4000) % 4 == 1,
        led_output_mode(moder as int) % 0x4000 == moder as int % 0x4000,
        led_output_mode(moder as int) / 0x1_0000 == moder as int / 0x1_0000,
{
    let m = moder as int;
    assert(led_output_mode(m) == (m / 0x1_0000) * 0x1_0000 + 0x4000 + m % 0x4000);
}

} // verus!
