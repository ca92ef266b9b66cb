//! Curves of the waveshaper.
use vstd::prelude::*;

verus! {

/// Transfer curve of a waveshaper.
#[derive(Debug, Clone, Copy, PartialEq, Eq, Structural)]
pub enum Shape {
    /// Smooth saturation.
    Tanh,
    /// Clipped at plus and minus one.
    HardClip,
    /// Cubic, saturating at plus and minus one.
    Cubic,
}

} // verus!
