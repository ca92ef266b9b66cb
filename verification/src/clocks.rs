//! The clock tree that the bootloader sets up once, and its hand-over to the
//! application.
use vstd::prelude::*;

verus! {

/// Frequencies asked of the clock tree, in hertz.
#[derive(Debug, Clone, Copy, PartialEq, Eq, Structural)]
pub struct ClockPlan {
    /// External crystal.
    pub hse: u32,
    /// System clock.
    pub sys_ck: u32,
    /// First output of PLL 2: kernel clock of the analog converter. Asking for it
    /// is what switches the PLL on.
    pub pll2_p: u32,
    /// Third output of PLL 2: kernel clock of the memory controller.
    pub pll2_r: u32,
    /// First output of PLL 3: kernel clock of the audio interface.
    pub pll3_p: u32,
    /// PLL 3 uses its fractional divider.
    pub pll3_fractional: bool,
}

/// Audio sample rate, in hertz.
pub const SAMPLE_RATE_HZ: u32 = 48_000;

/// Highest kernel clock of the analog converter at the board's core voltage, in
/// hertz.
pub const MAX_ADC_KERNEL_HZ: u32 = 80_000_000;

/// The board's clock tree.
pub fn init() -> (p: ClockPlan)
    ensures
        p == (ClockPlan {
            hse: 16_000_000,
            sys_ck: 400_000_000,
            pll2_p: 40_000_000,
            pll2_r: 200_000_000,
            pll3_p: 49_152_000,
            pll3_fractional: true,
        }),
        p.pll2_p <= MAX_ADC_KERNEL_HZ,
        p.pll2_r == 2 * 100_000_000,
        p.pll3_p == 256 * SAMPLE_RATE_HZ * 4,
{
    ClockPlan {
        hse: 16_000_000,
        sys_ck: 400_000_000,
        pll2_p: 40_000_000,
        pll2_r: 200_000_000,
        pll3_p: 49_152_000,
        pll3_fractional: true,
    }
}

/// Marks a valid hand-over.
pub const HANDOFF_MAGIC: u32 = 0xDA15_C0C0;

/// Address of the hand-over: the base of the backup SRAM.
pub const HANDOFF_ADDR: u32 = 0x3880_0000;

/// The hand-over record: a mark, the system clock as a guard word at a fixed
/// place, and the frozen clocks themselves.
#[derive(Debug, Clone, Copy)]
pub struct Handoff<T> {
    pub magic: u32,
    pub sys_ck: u32,
    pub clocks: T,
}

/// The record that the bootloader leaves.
pub fn stash<T: Copy>(clocks: T, sys_ck: u32) -> (h: Handoff<T>)
    ensures
        h == (Handoff { magic: HANDOFF_MAGIC, sys_ck, clocks }),
{
    Handoff { magic: HANDOFF_MAGIC, sys_ck, clocks }
}

/// Whether the mark, which is read first, allows the record to be read at all.
pub fn handoff_present(magic: u32) -> (b: bool)
    ensures
        b == (magic == HANDOFF_MAGIC),
{
    magic == HANDOFF_MAGIC
}

/// What the application recovers, given the system clock that the recovered
/// clocks report: they are trusted only if the mark is there and the guard word
/// agrees, since a record of another layout would disagree.
pub open spec fn recovered<T>(h: Handoff<T>, reported_sys_ck: u32) -> Option<T> {
    if h.magic == HANDOFF_MAGIC && reported_sys_ck == h.sys_ck {
        Some(h.clocks)
    } else {
        None
    }
}

/// Recovers the bootloader's clocks.
pub fn restore<T: Copy>(h: &Handoff<T>, reported_sys_ck: u32) -> (r: Option<T>)
    ensures
        r == recovered(*h, reported_sys_ck),
{
    if handoff_present(h.magic) && reported_sys_ck == h.sys_ck {
        Some(h.clocks)
    } else {
        None
    }
}

/// What was stashed is what is restored; a record that reports another system
/// clock is refused.
pub proof fn law_handoff_round_trip<T>(clocks: T, sys_ck: u32, reported: u32)
    ensures
        recovered(Handoff { magic: HANDOFF_MAGIC, sys_ck, clocks }, sys_ck) == Some(clocks),
        reported != sys_ck ==> recovered(Handoff { magic: HANDOFF_MAGIC, sys_ck, clocks }, reported)
            is None,
{
}

/// A record is trusted exactly if it carries the mark and the clocks report the
/// guarded system clock; it is then handed over as it is.
pub proof fn law_handoff_needs_mark_and_guard<T>(h: Handoff<T>, reported: u32)
    ensures
        recovered(h, reported) is Some <==> h.magic == 0xDA15_C0C0 && reported == h.sys_ck,
        recovered(h, reported) matches Some(c) ==> c == h.clocks,
{
}

/// The record lies at the start of the backup memory, clear of the word in its
/// end that asks for an update.
pub proof fn law_record_lies_at_the_start_of_the_backup_memory()
    ensures
        HANDOFF_ADDR == 0x3880_0000,
        HANDOFF_ADDR == crate::reset::BACKUP_SRAM_BASE,
        HANDOFF_ADDR + 4092 == crate::reset::DFU_REQUEST_ADDR,
        SAMPLE_RATE_HZ == 48_000,
        MAX_ADC_KERNEL_HZ == 80_000_000,
{
}

} // verus!
