//! Verified core of a Rust environment for the Daisy Seed audio board.
use vstd::prelude::*;

pub mod audio;
pub mod board;
pub mod boot;
pub mod boot_check;
pub mod cli;
pub mod clocks;
pub mod coherency;
pub mod debounce;
pub mod dsp;
pub mod golden;
pub mod hothouse;
pub mod midi;
pub mod mmio;
pub mod pod;
pub mod reset;
pub mod sdram;
pub mod spatializer;
pub mod startup;
pub mod text;
pub mod ui;

verus! {

} // verus!
