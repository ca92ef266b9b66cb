//! Waveforms of the band-limited oscillator.
use vstd::prelude::*;

verus! {

/// Waveform of a band-limited oscillator.
#[derive(Debug, Clone, Copy, PartialEq, Eq, Structural)]
pub enum Waveform {
    /// Pure sine.
    Sine,
    /// Band-limited sawtooth.
    Saw,
    /// Band-limited square.
    Square,
    /// Band-limited triangle.
    Triangle,
}

} // verus!
