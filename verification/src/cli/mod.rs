//! The host-side development tool: images, checks, and command lines.
pub mod build_args;
pub mod check;
pub mod device;
pub mod elf;
pub mod flash;
pub mod monitor;
pub mod new;
pub mod symbols;
