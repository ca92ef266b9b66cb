//! Waveforms of the low-frequency oscillator.
use vstd::prelude::*;

verus! {

/// Waveform of a low-frequency oscillator.
#[derive(Debug, Clone, Copy, PartialEq, Eq, Structural)]
pub enum Waveform {
    Sine,
    Triangle,
}

} // verus!
