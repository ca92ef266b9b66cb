//! Software reset, and the request that keeps the bootloader in DFU service
//! mode across it.
//!
//! The request is a word at the top of the battery-backed SRAM, clear of the
//! clock hand-off at its base. It survives a soft reset and is consumed when it
//! is read, so that a second reset starts the application.
use crate::mmio::MmioOp;
use vstd::prelude::*;

verus! {

/// Start of the backup SRAM.
pub const BACKUP_SRAM_BASE: u32 = 0x3880_0000;

/// Address of the request word: the last word of the backup SRAM.
pub const DFU_REQUEST_ADDR: u32 = 0x3880_0FFC;

/// The word that asks for DFU.
pub const DFU_REQUEST_MAGIC: u32 = 0xB007_D45E;

/// Power control register (backup-domain write enable is bit 8).
pub const PWR_CR1: u32 = 0x5802_4800;

/// Clock enable register of the backup SRAM (bit 28) and of the GPIO ports.
pub const RCC_AHB4ENR: u32 = 0x5802_44E0;

/// The accesses that make the backup SRAM usable: write access, then its clock,
/// which is given time to settle.
pub open spec fn backup_sram_ops() -> Seq<MmioOp> {
    seq![
        (MmioOp::Modify { addr: PWR_CR1, clear: 0, set: 0x100 }),
        (MmioOp::Modify { addr: RCC_AHB4ENR, clear: 0, set: 0x1000_0000 }),
        (MmioOp::ReadBack { addr: RCC_AHB4ENR }),
        MmioOp::Barrier,
    ]
}

/// Makes the backup SRAM usable; reading it before would fault.
pub fn enable_backup_sram() -> (ops: [MmioOp; 4])
    ensures
        ops@ == backup_sram_ops(),
{
    let ops = [
        MmioOp::Modify { addr: PWR_CR1, clear: 0, set: 0x100 },
        MmioOp::Modify { addr: RCC_AHB4ENR, clear: 0, set: 0x1000_0000 },
        MmioOp::ReadBack { addr: RCC_AHB4ENR },
        MmioOp::Barrier,
    ];
    assert(ops@ =~= backup_sram_ops());
    ops
}

/// What precedes the reset that enters the bootloader: the request is left in
/// the backup SRAM.
pub fn reboot_to_bootloader() -> (ops: Vec<MmioOp>)
    ensures
        ops@ == backup_sram_ops() + seq![
            (MmioOp::Write { addr: DFU_REQUEST_ADDR, value: DFU_REQUEST_MAGIC }),
            MmioOp::Barrier,
        ],
{
    let first = enable_backup_sram();
    let mut ops: Vec<MmioOp> = Vec::new();
    ops.push(first[0]);
    ops.push(first[1]);
    ops.push(first[2]);
    ops.push(first[3]);
    ops.push(MmioOp::Write { addr: DFU_REQUEST_ADDR, value: DFU_REQUEST_MAGIC });
    ops.push(MmioOp::Barrier);
    assert(ops@ =~= backup_sram_ops() + seq![
        (MmioOp::Write { addr: DFU_REQUEST_ADDR, value: DFU_REQUEST_MAGIC }),
        MmioOp::Barrier,
    ]);
    ops
}

/// Whether the request word asks for DFU, and the word that replaces it if it
/// does.
pub open spec fn taken(word: u32) -> (bool, Option<u32>) {
    if word == DFU_REQUEST_MAGIC {
        (true, Some(0))
    } else {
        (false, None)
    }
}

/// Takes the request: tells whether `word` asks for DFU, and what to write back.
pub fn take_dfu_request(word: u32) -> (r: (bool, Option<u32>))
    ensures
        r == taken(word),
{
    if word == DFU_REQUEST_MAGIC {
        (true, Some(0))
    } else {
        (false, None)
    }
}

/// A request is consumed: once it has been taken, the next reset finds none.
pub proof fn law_request_is_consumed(word: u32)
    ensures
        taken(word).1 matches Some(after) ==> taken(after) == (false, None::<u32>),
        !taken(word).0 ==> taken(word).1 is None,
        taken(DFU_REQUEST_MAGIC).0,
{
}

/// Only the one word asks for DFU, and taking the request leaves zero in its
/// place; any other word is left alone.
pub proof fn law_only_the_mark_asks(word: u32)
    ensures
        taken(word).0 <==> word == 0xB007_D45E,
        taken(word).1 == if word == 0xB007_D45E {
            Some(0u32)
        } else {
            None
        },
{
}

/// The backup memory is opened for writing, then clocked, and used only after the
/// clock has settled.
pub proof fn law_backup_memory_is_opened_first()
    ensures
        backup_sram_ops() == seq![
            (MmioOp::Modify { addr: 0x5802_4800, clear: 0, set: 0x100 }),
            (MmioOp::Modify { addr: 0x5802_44E0, clear: 0, set: 0x1000_0000 }),
            (MmioOp::ReadBack { addr: 0x5802_44E0 }),
            MmioOp::Barrier,
        ],
{
}

/// The request lies in the last word of the four kilobytes of backup memory.
pub proof fn law_request_lies_in_the_last_word()
    ensures
        BACKUP_SRAM_BASE == 0x3880_0000,
        DFU_REQUEST_ADDR + 4 == BACKUP_SRAM_BASE + 4096,
        DFU_REQUEST_MAGIC == 0xB007_D45E,
{
}

} // verus!
