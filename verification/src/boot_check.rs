//! Plausibility of a firmware image: is the pair of words at the start of the
//! flash window a stack pointer and a reset vector that the core can start from?
use vstd::prelude::*;

verus! {

/// Start of the application window (QSPI flash, execute in place).
pub const APP_BASE: u32 = 0x9000_0000;

/// End (exclusive) of the application window.
pub const APP_END: u32 = 0x9080_0000;

/// An address in on-chip RAM, each region's end included: a stack pointer
/// legitimately starts one past the region's last byte.
pub open spec fn in_sram(addr: u32) -> bool {
    ||| 0x2000_0000 <= addr <= 0x2002_0000
    ||| 0x2400_0000 <= addr <= 0x2408_0000
    ||| 0x3000_0000 <= addr <= 0x3004_8000
}

/// A Thumb entry point in the application window.
pub open spec fn is_entry(reset: u32) -> bool {
    reset % 2 == 1 && APP_BASE <= reset - 1 < APP_END
}

/// Whether `msp` is a plausible initial stack pointer: DTCM, AXI SRAM or D2
/// SRAM.
pub fn is_valid_sram(msp: u32) -> (b: bool)
    ensures
        b == in_sram(msp),
{
    (0x2000_0000 <= msp && msp <= 0x2002_0000) || (0x2400_0000 <= msp && msp <= 0x2408_0000) || (
    0x3000_0000 <= msp && msp <= 0x3004_8000)
}

/// Whether `reset` is a plausible reset vector: the Thumb bit is set and the
/// address without it lies in the application window.
pub fn is_valid_reset(reset: u32) -> (b: bool)
    ensures
        b == is_entry(reset),
{
    reset % 2 == 1 && APP_BASE <= reset - 1 && reset - 1 < APP_END
}

/// Whether the first two words of a vector table look like a firmware image.
pub fn is_plausible_image(msp: u32, reset: u32) -> (b: bool)
    ensures
        b == (in_sram(msp) && is_entry(reset)),
{
    is_valid_sram(msp) && is_valid_reset(reset)
}

/// Erased flash, read as all ones, is never taken for an image, whatever word
/// stands beside it; nor is cleared flash.
pub proof fn law_blank_flash_is_no_image(word: u32)
    ensures
        !(in_sram(0xFFFF_FFFF) && is_entry(word)),
        !(in_sram(word) && is_entry(0xFFFF_FFFF)),
        !(in_sram(0) && is_entry(word)),
        !(in_sram(word) && is_entry(0)),
{
}

/// A stack pointer is accepted exactly if it lies in one of the three memories,
/// 128 KiB, 512 KiB and 288 KiB long, or one past its end.
pub proof fn law_stacks_lie_in_the_memories(addr: u32)
    ensures
        in_sram(addr) <==> {
            ||| 0 <= addr - 0x2000_0000 <= 128 * 1024
            ||| 0 <= addr - 0x2400_0000 <= 512 * 1024
            ||| 0 <= addr - 0x3000_0000 <= 288 * 1024
        },
{
}

/// A reset vector is accepted exactly if it is odd and enters one of the eight
/// megabytes of the window.
pub proof fn law_entries_lie_in_the_window(reset: u32)
    ensures
        is_entry(reset) <==> reset % 2 == 1 && 0 <= reset - 1 - 0x9000_0000 < 8 * 1024 * 1024,
{
}

/// The application may use all of the flash window.
pub proof fn law_applications_live_in_the_window()
    ensures
        APP_BASE == 0x9000_0000,
        APP_END - APP_BASE == 8 * 1024 * 1024,
{
}

} // verus!
