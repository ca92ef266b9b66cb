//! The bootloader: QSPI flash driver, DFU memory, and boot decisions.
pub mod chip;
pub mod dfu_mem;
pub mod flow;
pub mod qspi;
