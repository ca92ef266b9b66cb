//! Shapes of the second-order filters.
use vstd::prelude::*;

verus! {

/// The response shape of a second-order filter.
#[derive(Debug, Clone, Copy, PartialEq, Eq, Structural)]
pub enum BiquadKind {
    Lowpass,
    Highpass,
    /// Peak gain 0 dB.
    Bandpass,
    Peaking,
}

} // verus!
