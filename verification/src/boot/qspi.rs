//! QUADSPI driver for the board's serial NOR flash.
//!
//! A driver operation is a list of flash commands; [`frame`] turns a command
//! into the register accesses that carry it out. Nothing here touches the
//! peripheral: the firmware performs the accesses in the order given.
//!
//! Memory-mapped mode makes the chip readable (and executable) at its window;
//! indirect mode carries erase and program. Waits are bounded: a bootloader
//! must never wedge on a misbehaving flash.
use super::chip;
use super::chip::{Chip, FlashCommand};
use crate::mmio;
use vstd::prelude::*;

verus! {

/// Opcode of Write Enable.
pub const CMD_WRITE_ENABLE: u8 = 0x06;

/// Opcode of Read Status Register.
pub const CMD_READ_STATUS_REGISTER: u8 = 0x05;

/// Opcode of Write Status Register.
pub const CMD_WRITE_STATUS_REGISTER: u8 = 0x01;

/// Opcode of Page Program.
pub const CMD_PAGE_PROGRAM: u8 = 0x02;

/// Opcode of the 4 KiB Sector Erase.
pub const CMD_SECTOR_ERASE_4K: u8 = 0x20;

/// Opcode of Fast Read Quad I/O.
pub const CMD_FAST_READ_QUAD_IO: u8 = 0xEB;

/// Opcode of Enable Reset.
pub const CMD_ENABLE_RESET: u8 = 0x66;

/// Opcode of Reset Memory.
pub const CMD_RESET_MEMORY: u8 = 0x99;

/// Opcode of Set Read Parameters.
pub const CMD_SET_READ_PARAMETERS: u8 = 0xC0;

/// Quad Enable bit of the status register.
pub const STATUS_QE_BIT: u8 = 0x40;

/// Write-In-Progress bit of the status register.
pub const STATUS_WIP_BIT: u8 = 0x01;

/// Longest wait for a short command to finish, in microseconds.
pub const CMD_TIMEOUT_US: u32 = 20_000;

/// Longest wait for an erase or program to finish, in microseconds.
pub const WIP_TIMEOUT_US: u32 = 3_000_000;

/// Read Parameters that select eight dummy cycles and maximum drive strength.
pub const READ_PARAMETERS_8_DUMMY: u8 = 0xF0;

/// Flash size field of an 8 MiB chip: base-2 logarithm of its bytes, less one.
pub const FSIZE_8MIB: u8 = 22;

/// `CR.EN`.
pub const CR_EN: u32 = 0x1;

/// `CR.ABORT`.
pub const CR_ABORT: u32 = 0x2;

/// `SR.TCF`, transfer complete.
pub const SR_TCF: u32 = 0x02;

/// `SR.FTF`, room in the FIFO.
pub const SR_FTF: u32 = 0x04;

/// `SR.BUSY`.
pub const SR_BUSY: u32 = 0x20;

/// `FCR.CTCF`, clears transfer complete.
pub const FCR_CTCF: u32 = 0x02;

/// `FCR`: clears transfer error, transfer complete and status match.
pub const FCR_ALL: u32 = 0x0B;

/// Registers of the QUADSPI peripheral.
#[derive(Debug, Clone, Copy, PartialEq, Eq, Structural)]
pub enum Reg {
    Cr,
    Dcr,
    Sr,
    Fcr,
    Dlr,
    Ccr,
    Ar,
    Abr,
    Dr,
}

/// First register of the peripheral.
pub const QUADSPI_BASE: u32 = 0x5200_5000;

impl Reg {
    /// Distance from the first register, in bytes.
    pub open spec fn offset(self) -> int {
        match self {
            Reg::Cr => 0x00,
            Reg::Dcr => 0x04,
            Reg::Sr => 0x08,
            Reg::Fcr => 0x0C,
            Reg::Dlr => 0x10,
            Reg::Ccr => 0x14,
            Reg::Ar => 0x18,
            Reg::Abr => 0x1C,
            Reg::Dr => 0x20,
        }
    }

    /// Address of the register.
    pub fn address(self) -> (a: u32)
        ensures
            a == QUADSPI_BASE + self.offset(),
    {
        QUADSPI_BASE + match self {
            Reg::Cr => 0x00,
            Reg::Dcr => 0x04,
            Reg::Sr => 0x08,
            Reg::Fcr => 0x0C,
            Reg::Dlr => 0x10,
            Reg::Ccr => 0x14,
            Reg::Ar => 0x18,
            Reg::Abr => 0x1C,
            Reg::Dr => 0x20,
        }
    }
}

/// One access to the peripheral.
#[derive(Debug, Clone, Copy, PartialEq, Eq, Structural)]
pub enum RegOp {
    /// Store `value`.
    Write { reg: Reg, value: u32 },
    /// Read, set the bits of `mask`, store.
    SetBits { reg: Reg, mask: u32 },
    /// Read and drop the value.
    Discard { reg: Reg },
    /// Wait until a bit of `mask` is set, at most `timeout_us`.
    AwaitSet { reg: Reg, mask: u32, timeout_us: u32 },
    /// Wait until the bits of `mask` are clear, at most `timeout_us`.
    AwaitClear { reg: Reg, mask: u32, timeout_us: u32 },
    /// Block for a time.
    DelayUs { us: u32 },
    /// Read the status register until Write-In-Progress is clear, at most
    /// `timeout_us`.
    PollStatus { timeout_us: u32 },
}

/// Fields of the communication configuration register that the driver uses.
#[derive(Debug, Clone, Copy, PartialEq, Eq, Structural)]
pub struct Ccr {
    /// 0 indirect write, 1 indirect read, 3 memory-mapped.
    pub fmode: u8,
    /// Lines of the data phase: 0 none, 1 one line, 3 four lines.
    pub dmode: u8,
    /// Dummy cycles.
    pub dcyc: u8,
    /// Lines of the alternate (mode) byte.
    pub abmode: u8,
    /// Address bytes, less one.
    pub adsize: u8,
    /// Lines of the address phase.
    pub admode: u8,
    /// Lines of the instruction phase.
    pub imode: u8,
    /// The instruction.
    pub instruction: u8,
    /// Send the instruction only once.
    pub sioo: bool,
}

impl Ccr {
    /// Each field fits its place in the register.
    pub open spec fn valid(self) -> bool {
        &&& self.fmode < 4
        &&& self.dmode < 4
        &&& self.dcyc < 32
        &&& self.abmode < 4
        &&& self.adsize < 4
        &&& self.admode < 4
        &&& self.imode < 4
    }

    /// The register's value: each field at its place, all other bits clear.
    pub open spec fn value(self) -> int {
        self.instruction + self.imode * 0x100 + self.admode * 0x400 + self.adsize * 0x1000
            + self.abmode * 0x4000 + self.dcyc * 0x4_0000 + self.dmode * 0x100_0000 + self.fmode
            * 0x400_0000 + (if self.sioo {
            0x1000_0000int
        } else {
            0
        })
    }

    /// Encodes the fields.
    pub fn bits(self) -> (v: u32)
        requires
            self.valid(),
        ensures
            v == self.value(),
    {
        self.instruction as u32 + self.imode as u32 * 0x100 + self.admode as u32 * 0x400
            + self.adsize as u32 * 0x1000 + self.abmode as u32 * 0x4000 + self.dcyc as u32
            * 0x4_0000 + self.dmode as u32 * 0x100_0000 + self.fmode as u32 * 0x400_0000 + (
        if self.sioo {
            0x1000_0000u32
        } else {
            0u32
        })
    }
}

/// A bare instruction on one line.
pub open spec fn instruction_only(instruction: u8) -> Ccr {
    Ccr {
        fmode: 0,
        dmode: 0,
        dcyc: 0,
        abmode: 0,
        adsize: 0,
        admode: 0,
        imode: 1,
        instruction,
        sioo: false,
    }
}

/// An instruction with data out, all on one line.
pub open spec fn instruction_with_data(instruction: u8) -> Ccr {
    Ccr { dmode: 1, ..instruction_only(instruction) }
}

/// An instruction with a 24-bit address, all on one line.
pub open spec fn instruction_with_address(instruction: u8) -> Ccr {
    Ccr { adsize: 2, admode: 1, ..instruction_only(instruction) }
}

/// The quad read: address, mode byte and data on four lines, six dummy cycles.
pub open spec fn quad_read(fmode: u8, imode: u8, instruction: u8, sioo: bool) -> Ccr {
    Ccr { fmode, dmode: 3, dcyc: 6, abmode: 3, adsize: 2, admode: 3, imode, instruction, sioo }
}

/// Alternate-function assignment of one pin.
#[derive(Debug, Clone, Copy, PartialEq, Eq, Structural)]
pub struct PinFunction {
    pub port: char,
    pub pin: u8,
    pub alternate: u8,
}

/// Pins of QUADSPI bank 1, all at the highest speed: IO3, IO2, IO0, IO1, CLK on
/// port F and NCS on port G.
pub fn configure_pins() -> (pins: [PinFunction; 6])
    ensures
        pins@ == seq![
            (PinFunction { port: 'F', pin: 6, alternate: 9 }),
            (PinFunction { port: 'F', pin: 7, alternate: 9 }),
            (PinFunction { port: 'F', pin: 8, alternate: 10 }),
            (PinFunction { port: 'F', pin: 9, alternate: 10 }),
            (PinFunction { port: 'F', pin: 10, alternate: 9 }),
            (PinFunction { port: 'G', pin: 6, alternate: 10 }),
        ],
{
    let pins = [
        PinFunction { port: 'F', pin: 6, alternate: 9 },
        PinFunction { port: 'F', pin: 7, alternate: 9 },
        PinFunction { port: 'F', pin: 8, alternate: 10 },
        PinFunction { port: 'F', pin: 9, alternate: 10 },
        PinFunction { port: 'F', pin: 10, alternate: 9 },
        PinFunction { port: 'G', pin: 6, alternate: 10 },
    ];
    assert(pins@ =~= seq![
        (PinFunction { port: 'F', pin: 6, alternate: 9 }),
        (PinFunction { port: 'F', pin: 7, alternate: 9 }),
        (PinFunction { port: 'F', pin: 8, alternate: 10 }),
        (PinFunction { port: 'F', pin: 9, alternate: 10 }),
        (PinFunction { port: 'F', pin: 10, alternate: 9 }),
        (PinFunction { port: 'G', pin: 6, alternate: 10 }),
    ]);
    pins
}

/// Sets the controller up while it is disabled, then enables it: kernel clock
/// divided by eight, no sample shift, 8 MiB chip, chip-select high for three
/// cycles. The flash is then reset and mapped (see [`reset_flash`] and
/// [`enter_memory_mapped`]).
pub fn init_memory_mapped() -> (ops: [RegOp; 3])
    ensures
        ops@ == seq![
            w(Reg::Cr, 7int * 0x100_0000),
            w(Reg::Dcr, 22int * 0x1_0000 + 2int * 0x100),
            (RegOp::SetBits { reg: Reg::Cr, mask: CR_EN }),
        ],
{
    let ops = [
        RegOp::Write { reg: Reg::Cr, value: 0x0700_0000 },
        RegOp::Write { reg: Reg::Dcr, value: FSIZE_8MIB as u32 * 0x1_0000 + 0x200 },
        RegOp::SetBits { reg: Reg::Cr, mask: CR_EN },
    ];
    assert(ops@ =~= seq![
        w(Reg::Cr, 7int * 0x100_0000),
        w(Reg::Dcr, 22int * 0x1_0000 + 2int * 0x100),
        (RegOp::SetBits { reg: Reg::Cr, mask: CR_EN }),
    ]);
    ops
}

// ---------------------------------------------------------------------------
// Operations, as flash commands
// ---------------------------------------------------------------------------

/// Same contents and the same Quad Enable bit.
pub open spec fn keeps_contents(a: Chip, b: Chip) -> bool {
    b.mem == a.mem && b.quad == a.quad
}

/// The commands that reset the flash.
pub open spec fn reset_commands() -> Seq<FlashCommand> {
    seq![
        FlashCommand::LeaveContinuousRead,
        FlashCommand::EnableReset,
        FlashCommand::ResetMemory,
        (FlashCommand::PauseUs { us: 100 }),
    ]
}

/// The commands that recover the flash to its single-line state.
pub open spec fn recovery_commands() -> Seq<FlashCommand> {
    seq![
        FlashCommand::AbortController,
        FlashCommand::LeaveContinuousRead,
        FlashCommand::EnableReset,
        FlashCommand::ResetMemory,
        (FlashCommand::PauseUs { us: 100 }),
    ]
}

/// The commands that map the flash, once it is reset.
pub open spec fn mapping_commands(status: u8) -> Seq<FlashCommand> {
    if chip::quad_bit(status) {
        seq![(FlashCommand::SetReadParameters { value: 0xF0 }), FlashCommand::MapReads]
    } else {
        seq![
            FlashCommand::WriteEnable,
            (FlashCommand::WriteStatus { value: 0x40 }),
            FlashCommand::AwaitReady,
            (FlashCommand::SetReadParameters { value: 0xF0 }),
            FlashCommand::MapReads,
        ]
    }
}

/// The commands that erase one sector.
pub open spec fn erase_commands(addr: u32) -> Seq<FlashCommand> {
    seq![
        FlashCommand::WriteEnable,
        (FlashCommand::EraseSector { addr }),
        FlashCommand::AwaitReady,
    ]
}

/// Breaks any inherited continuous read, then resets the chip in software: the
/// microcontroller's reset does not reach it. The controller must be in indirect
/// mode. A write that is still in progress is broken off, and what it leaves in
/// the chip is not stated.
pub fn reset_flash() -> (cmds: Vec<FlashCommand>)
    ensures
        cmds@ == reset_commands(),
        forall|c: Chip|
            !c.mapped && c.mem.len() == chip::FLASH_SIZE ==> {
                let d = #[trigger] chip::chip_after(c, cmds@);
                &&& chip::single_line(d)
                &&& !d.write_enabled
                &&& !c.busy ==> keeps_contents(c, d)
            },
{
    let mut cmds: Vec<FlashCommand> = Vec::new();
    cmds.push(FlashCommand::LeaveContinuousRead);
    cmds.push(FlashCommand::EnableReset);
    cmds.push(FlashCommand::ResetMemory);
    cmds.push(FlashCommand::PauseUs { us: 100 });
    proof {
        assert(cmds@ =~= reset_commands());
        let e = Seq::<FlashCommand>::empty();
        let s1 = e.push(FlashCommand::LeaveContinuousRead);
        let s2 = s1.push(FlashCommand::EnableReset);
        let s3 = s2.push(FlashCommand::ResetMemory);
        assert(cmds@ =~= s3.push(FlashCommand::PauseUs { us: 100 }));
        assert forall|c: Chip| !c.mapped && c.mem.len() == chip::FLASH_SIZE implies {
            let d = #[trigger] chip::chip_after(c, cmds@);
            &&& chip::single_line(d)
            &&& !d.write_enabled
            &&& !c.busy ==> keeps_contents(c, d)
        } by {
            chip::lemma_reset(chip::chip_after(c, s2));
            chip::lemma_chip_push(c, e, FlashCommand::LeaveContinuousRead);
            chip::lemma_chip_push(c, s1, FlashCommand::EnableReset);
            chip::lemma_chip_push(c, s2, FlashCommand::ResetMemory);
            chip::lemma_chip_push(c, s3, FlashCommand::PauseUs { us: 100 });
        }
    }
    cmds
}

/// Recovers the flash to a clean single-line state from any state, so that
/// erase and program commands are framed correctly.
pub fn recover_flash_to_single_line() -> (cmds: Vec<FlashCommand>)
    ensures
        cmds@ == recovery_commands(),
        forall|c: Chip|
            c.mem.len() == chip::FLASH_SIZE ==> {
                let d = #[trigger] chip::chip_after(c, cmds@);
                &&& chip::single_line(d)
                &&& !d.write_enabled
                &&& !c.busy ==> keeps_contents(c, d)
            },
{
    let mut cmds: Vec<FlashCommand> = Vec::new();
    cmds.push(FlashCommand::AbortController);
    let ghost first = cmds@;
    let mut rest = reset_flash();
    let ghost tail = rest@;
    cmds.append(&mut rest);
    proof {
        assert(cmds@ =~= first + tail);
        assert(cmds@ =~= recovery_commands());
        assert forall|c: Chip| c.mem.len() == chip::FLASH_SIZE implies {
            let d = #[trigger] chip::chip_after(c, cmds@);
            &&& chip::single_line(d)
            &&& !d.write_enabled
            &&& !c.busy ==> keeps_contents(c, d)
        } by {
            let e = Seq::<FlashCommand>::empty();
            assert(first =~= e.push(FlashCommand::AbortController));
            chip::lemma_chip_push(c, e, FlashCommand::AbortController);
            chip::lemma_chip_concat(c, first, tail);
            let m = chip::chip_after(c, first);
            assert(chip::single_line(chip::chip_after(m, tail)));
        }
    }
    cmds
}

/// The rest of the way into memory-mapped Fast Read Quad I/O, after
/// [`reset_flash`]. `status` is the chip's status register: Quad Enable is
/// written only if the chip lacks it. The volatile read parameters are applied
/// anew, since a reset clears them.
pub fn enter_memory_mapped(status: u8) -> (cmds: Vec<FlashCommand>)
    ensures
        cmds@ == mapping_commands(status),
        forall|c: Chip|
            chip::single_line(c) && c.quad == chip::quad_bit(status) ==> {
                let d = #[trigger] chip::chip_after(c, cmds@);
                &&& chip::readable(d)
                &&& d.mem == c.mem
            },
{
    let mut cmds: Vec<FlashCommand> = Vec::new();
    if (status / 64) % 2 == 0 {
        cmds.push(FlashCommand::WriteEnable);
        cmds.push(FlashCommand::WriteStatus { value: STATUS_QE_BIT });
        cmds.push(FlashCommand::AwaitReady);
    }
    let ghost head = cmds@;
    cmds.push(FlashCommand::SetReadParameters { value: READ_PARAMETERS_8_DUMMY });
    let ghost almost = cmds@;
    cmds.push(FlashCommand::MapReads);
    proof {
        let e = Seq::<FlashCommand>::empty();
        let s1 = e.push(FlashCommand::WriteEnable);
        let s2 = s1.push(FlashCommand::WriteStatus { value: 0x40 });
        let s3 = s2.push(FlashCommand::AwaitReady);
        if chip::quad_bit(status) {
            assert(head =~= e);
        } else {
            assert(head =~= s3);
        }
        assert(cmds@ =~= mapping_commands(status));
        assert forall|c: Chip|
            chip::single_line(c) && c.quad == chip::quad_bit(status) implies {
            let d = #[trigger] chip::chip_after(c, cmds@);
            &&& chip::readable(d)
            &&& d.mem == c.mem
        } by {
            chip::lemma_chip_push(c, e, FlashCommand::WriteEnable);
            chip::lemma_chip_push(c, s1, FlashCommand::WriteStatus { value: 0x40 });
            chip::lemma_chip_push(c, s2, FlashCommand::AwaitReady);
            chip::lemma_chip_push(c, head, FlashCommand::SetReadParameters { value: 0xF0 });
            chip::lemma_chip_push(c, almost, FlashCommand::MapReads);
            assert((0xF0u8 / 8) % 4 == 2);
            assert((0x40u8 / 64) % 2 == 1);
        }
    }
    cmds
}

/// Cancels a memory-mapped (or any other) transaction, so that indirect commands
/// can run.
pub fn exit_memory_mapped() -> (cmd: FlashCommand)
    ensures
        cmd == FlashCommand::AbortController,
        forall|c: Chip|
            !(#[trigger] chip::chip_step(c, cmd)).mapped && chip::chip_step(c, cmd).mem == c.mem,
{
    FlashCommand::AbortController
}

/// Erases the 4 KiB sector that holds `addr`, and waits for it.
pub fn erase_sector_4k(cmds: &mut Vec<FlashCommand>, addr: u32)
    ensures
        final(cmds)@ == old(cmds)@ + erase_commands(addr),
        forall|c: Chip|
            chip::single_line(chip::chip_after(c, old(cmds)@)) ==> {
                let b = chip::chip_after(c, old(cmds)@);
                let d = #[trigger] chip::chip_after(c, final(cmds)@);
                &&& chip::single_line(d)
                &&& d.mem == chip::sector_erased(b.mem, addr as int)
                &&& d.quad == b.quad
            },
{
    let ghost s0 = cmds@;
    cmds.push(FlashCommand::WriteEnable);
    let ghost s1 = cmds@;
    cmds.push(FlashCommand::EraseSector { addr });
    let ghost s2 = cmds@;
    cmds.push(FlashCommand::AwaitReady);
    proof {
        assert(cmds@ =~= s0 + erase_commands(addr));
        assert forall|c: Chip| chip::single_line(chip::chip_after(c, s0)) implies {
            let b = chip::chip_after(c, s0);
            let d = #[trigger] chip::chip_after(c, cmds@);
            &&& chip::single_line(d)
            &&& d.mem == chip::sector_erased(b.mem, addr as int)
            &&& d.quad == b.quad
        } by {
            chip::lemma_chip_push(c, s0, FlashCommand::WriteEnable);
            chip::lemma_chip_push(c, s1, FlashCommand::EraseSector { addr });
            chip::lemma_chip_push(c, s2, FlashCommand::AwaitReady);
        }
    }
}

/// Programs `data` from `addr` on, inside one 256-byte page, and waits for it.
/// Programming nothing is no command, and a page boundary must not be crossed.
pub fn program_page(cmds: &mut Vec<FlashCommand>, addr: u32, data: Vec<u8>)
    requires
        1 <= data@.len() <= 256,
        addr % 256 + data@.len() <= 256,
    ensures
        final(cmds)@ == old(cmds)@ + seq![
            FlashCommand::WriteEnable,
            (FlashCommand::ProgramPage { addr, data }),
            FlashCommand::AwaitReady,
        ],
        forall|c: Chip|
            chip::single_line(chip::chip_after(c, old(cmds)@)) ==> {
                let b = chip::chip_after(c, old(cmds)@);
                let d = #[trigger] chip::chip_after(c, final(cmds)@);
                &&& chip::single_line(d)
                &&& d.mem == chip::burned(b.mem, addr as int, data@)
                &&& d.quad == b.quad
            },
{
    let ghost s0 = cmds@;
    cmds.push(FlashCommand::WriteEnable);
    let ghost s1 = cmds@;
    let ghost cmd = FlashCommand::ProgramPage { addr, data };
    cmds.push(FlashCommand::ProgramPage { addr, data });
    let ghost s2 = cmds@;
    cmds.push(FlashCommand::AwaitReady);
    proof {
        assert(cmds@ =~= s0 + seq![FlashCommand::WriteEnable, cmd, FlashCommand::AwaitReady]);
        assert forall|c: Chip| chip::single_line(chip::chip_after(c, s0)) implies {
            let b = chip::chip_after(c, s0);
            let d = #[trigger] chip::chip_after(c, cmds@);
            &&& chip::single_line(d)
            &&& d.mem == chip::burned(b.mem, addr as int, data@)
            &&& d.quad == b.quad
        } by {
            let b = chip::chip_after(c, s0);
            chip::lemma_chip_push(c, s0, FlashCommand::WriteEnable);
            chip::lemma_chip_push(c, s1, cmd);
            chip::lemma_chip_push(c, s2, FlashCommand::AwaitReady);
            chip::lemma_program_inside_page(b.mem, addr as int, data@);
        }
    }
}

/// Whether a status-register value says that no write is in progress.
pub fn wait_while_wip(status: u8) -> (done: bool)
    ensures
        done == (status % 2 == 0),
{
    status % 2 == 0
}

// ---------------------------------------------------------------------------
// Bounded waits
// ---------------------------------------------------------------------------

/// Iterations after which a wait ends even if the cycle counter stands still.
pub const MAX_ITERS: u32 = 400_000_000;

/// A wait from cycle count `started` on ends with try `k`, at cycle count `now`.
pub open spec fn wait_over(started: u32, deadline: u32, k: int, now: u32) -> bool {
    k + 1 >= MAX_ITERS || (now - started) % 0x1_0000_0000 >= deadline
}

/// A wait bounded by a deadline in processor cycles and by a number of
/// iterations.
#[derive(Debug, Clone, Copy)]
pub struct Spin {
    start: u32,
    deadline_cycles: u32,
    iters: u32,
}

impl Spin {
    /// Cycle count at the start.
    pub closed spec fn started(&self) -> u32 {
        self.start
    }

    /// Cycles after which the wait ends.
    pub closed spec fn deadline(&self) -> u32 {
        self.deadline_cycles
    }

    /// Fruitless tries so far.
    pub closed spec fn tries(&self) -> u32 {
        self.iters
    }

    /// A wait of at most `timeout_us`, at 400 cycles per microsecond.
    pub fn new(timeout_us: u32, now: u32) -> (s: Self)
        ensures
            s.started() == now,
            s.tries() == 0,
            s.deadline() == if timeout_us * 400 <= u32::MAX {
                timeout_us * 400
            } else {
                u32::MAX as int
            },
    {
        let deadline_cycles: u32 = match timeout_us.checked_mul(400) {
            Some(c) => c,
            None => u32::MAX,
        };
        Spin { start: now, deadline_cycles, iters: 0 }
    }

    /// Counts one fruitless try at cycle count `now`; `true` when the wait has
    /// timed out. The counter wraps.
    pub fn spin_until(&mut self, now: u32) -> (timed_out: bool)
        requires
            old(self).tries() < MAX_ITERS,
        ensures
            final(self).started() == old(self).started(),
            final(self).deadline() == old(self).deadline(),
            final(self).tries() == old(self).tries() + 1,
            timed_out == wait_over(
                old(self).started(),
                old(self).deadline(),
                old(self).tries() as int,
                now,
            ),
    {
        self.iters = self.iters + 1;
        self.iters >= MAX_ITERS || now.wrapping_sub(self.start) >= self.deadline_cycles
    }
}

/// Every wait ends, whatever the counter shows, even if it stands still: among
/// the first [`MAX_ITERS`] fruitless tries one is the last. `nows[k]` is what the
/// counter shows at try `k`.
pub proof fn law_waits_are_bounded(started: u32, deadline: u32, nows: Seq<u32>) -> (k: int)
    requires
        nows.len() >= MAX_ITERS,
    ensures
        0 <= k < MAX_ITERS,
        wait_over(started, deadline, k, nows[k]),
        forall|j: int| 0 <= j < k ==> !#[trigger] wait_over(started, deadline, j, nows[j]),
{
    first_over(started, deadline, nows, 0)
}

proof fn first_over(started: u32, deadline: u32, nows: Seq<u32>, from: int) -> (k: int)
    requires
        nows.len() >= MAX_ITERS,
        0 <= from < MAX_ITERS,
        forall|j: int| 0 <= j < from ==> !#[trigger] wait_over(started, deadline, j, nows[j]),
    ensures
        from <= k < MAX_ITERS,
        wait_over(started, deadline, k, nows[k]),
        forall|j: int| 0 <= j < k ==> !#[trigger] wait_over(started, deadline, j, nows[j]),
    decreases MAX_ITERS - from,
{
    if wait_over(started, deadline, from, nows[from]) {
        from
    } else {
        first_over(started, deadline, nows, from + 1)
    }
}

// ---------------------------------------------------------------------------
// Frames: the register accesses of a command
// ---------------------------------------------------------------------------

/// Store to a register.
pub open spec fn w(reg: Reg, value: int) -> RegOp {
    RegOp::Write { reg, value: value as u32 }
}

/// Bounded wait for the controller to go idle, then clear transfer complete.
pub open spec fn settle() -> Seq<RegOp> {
    seq![
        (RegOp::AwaitClear { reg: Reg::Sr, mask: SR_BUSY, timeout_us: CMD_TIMEOUT_US }),
        w(Reg::Fcr, FCR_CTCF as int),
    ]
}

/// Four bytes of `data` from `4 * i` on, lowest first, missing ones zero.
pub open spec fn le_word(data: Seq<u8>, i: int) -> int {
    let at = |j: int|
        if 4 * i + j < data.len() {
            data[4 * i + j] as int
        } else {
            0
        };
    at(0) + at(1) * 0x100 + at(2) * 0x1_0000 + at(3) * 0x100_0000
}

/// `data` pushed into the FIFO: one word at a time, each after room for it.
pub open spec fn fifo_writes(data: Seq<u8>, words: int) -> Seq<RegOp> {
    Seq::new(
        (2 * words) as nat,
        |k: int|
            if k % 2 == 0 {
                RegOp::AwaitSet { reg: Reg::Sr, mask: SR_FTF, timeout_us: CMD_TIMEOUT_US }
            } else {
                w(Reg::Dr, le_word(data, k / 2))
            },
    )
}

/// The register accesses that carry out a command; `cr` is the control register
/// as it reads beforehand.
pub open spec fn frame_of(cmd: FlashCommand, cr: u32) -> Seq<RegOp> {
    match cmd {
        FlashCommand::LeaveContinuousRead => seq![
            w(Reg::Dlr, 0),
            w(Reg::Abr, 0),
            w(Reg::Ccr, quad_read(1, 0, 0, false).value()),
            w(Reg::Ar, 0),
            (RegOp::AwaitSet { reg: Reg::Sr, mask: SR_TCF, timeout_us: CMD_TIMEOUT_US }),
            (RegOp::Discard { reg: Reg::Dr }),
            w(Reg::Fcr, FCR_CTCF as int),
            (RegOp::SetBits { reg: Reg::Cr, mask: CR_ABORT }),
            (RegOp::AwaitClear { reg: Reg::Cr, mask: CR_ABORT, timeout_us: CMD_TIMEOUT_US }),
        ],
        FlashCommand::EnableReset => seq![
            w(Reg::Ccr, instruction_only(CMD_ENABLE_RESET).value()),
        ] + settle(),
        FlashCommand::ResetMemory => seq![
            w(Reg::Ccr, instruction_only(CMD_RESET_MEMORY).value()),
        ] + settle(),
        FlashCommand::WriteEnable => seq![
            w(Reg::Ccr, instruction_only(CMD_WRITE_ENABLE).value()),
        ] + settle(),
        FlashCommand::WriteStatus { value } => seq![
            w(Reg::Dlr, 0),
            w(Reg::Ccr, instruction_with_data(CMD_WRITE_STATUS_REGISTER).value()),
            w(Reg::Dr, value as int),
        ] + settle(),
        FlashCommand::SetReadParameters { value } => seq![
            w(Reg::Dlr, 0),
            w(Reg::Ccr, instruction_with_data(CMD_SET_READ_PARAMETERS).value()),
            w(Reg::Dr, value as int),
        ] + settle(),
        FlashCommand::EraseSector { addr } => seq![
            w(Reg::Ccr, instruction_with_address(CMD_SECTOR_ERASE_4K).value()),
            w(Reg::Ar, addr as int),
        ] + settle(),
        FlashCommand::ProgramPage { addr, data } => seq![
            w(Reg::Dlr, data@.len() - 1),
            w(
                Reg::Ccr,
                (Ccr { dmode: 1, ..instruction_with_address(CMD_PAGE_PROGRAM) }).value(),
            ),
            w(Reg::Ar, addr as int),
        ] + fifo_writes(data@, ((data@.len() + 3) / 4) as int) + settle(),
        FlashCommand::AwaitReady => seq![(RegOp::PollStatus { timeout_us: WIP_TIMEOUT_US })],
        FlashCommand::PauseUs { us } => seq![(RegOp::DelayUs { us })],
        FlashCommand::AbortController => qspi_errata_ops() + seq![
            w(Reg::Cr, (cr & 0xFFFF_FFFD) as int),
            (RegOp::SetBits { reg: Reg::Cr, mask: CR_ABORT }),
            (RegOp::AwaitClear { reg: Reg::Cr, mask: CR_ABORT, timeout_us: CMD_TIMEOUT_US }),
            w(Reg::Fcr, FCR_ALL as int),
        ],
        FlashCommand::MapReads => seq![
            (RegOp::AwaitClear { reg: Reg::Sr, mask: SR_BUSY, timeout_us: CMD_TIMEOUT_US }),
            w(Reg::Abr, 0xA0),
            w(Reg::Ccr, quad_read(3, 1, CMD_FAST_READ_QUAD_IO, true).value()),
            (RegOp::DelayUs { us: 1000 }),
        ],
    }
}

/// Microseconds that an access may take: the timeout of a wait, the length of a
/// delay, none for a plain access.
pub open spec fn longest_us(op: RegOp) -> int {
    match op {
        RegOp::AwaitSet { reg, mask, timeout_us } => timeout_us as int,
        RegOp::AwaitClear { reg, mask, timeout_us } => timeout_us as int,
        RegOp::PollStatus { timeout_us } => timeout_us as int,
        RegOp::DelayUs { us } => us as int,
        _ => 0,
    }
}

/// No command can wedge its caller on a misbehaving flash: every wait of its
/// frame ends after three seconds at most, a time whose cycles a [`Spin`] counts
/// without saturating. A pause lasts as long as it is asked to.
pub proof fn law_frames_end_in_time(cmd: FlashCommand, cr: u32, i: int)
    requires
        0 <= i < frame_of(cmd, cr).len(),
    ensures
        cmd is PauseUs ==> frame_of(cmd, cr) == seq![(RegOp::DelayUs { us: cmd->us })],
        !(cmd is PauseUs) ==> longest_us(frame_of(cmd, cr)[i]) <= WIP_TIMEOUT_US,
        WIP_TIMEOUT_US == 3_000_000 && WIP_TIMEOUT_US * 400 <= u32::MAX,
{
}

/// The QUADSPI timing workaround: disable, wait for idle, enable at the highest
/// prescaler, start the free-running clock twice, disable, wait for idle.
pub open spec fn qspi_errata_ops() -> Seq<RegOp> {
    seq![
        w(Reg::Cr, 0),
        (RegOp::AwaitClear { reg: Reg::Sr, mask: SR_BUSY, timeout_us: CMD_TIMEOUT_US }),
        w(Reg::Cr, 0xFF00_0001),
        w(Reg::Ccr, 0x2000_0000),
        w(Reg::Ccr, 0x2000_0000),
        w(Reg::Cr, 0),
        (RegOp::AwaitClear { reg: Reg::Sr, mask: SR_BUSY, timeout_us: CMD_TIMEOUT_US }),
    ]
}

/// The QUADSPI timing workaround, to be applied on leaving memory-mapped mode.
pub fn qspi_errata_2_7_4_workaround() -> (ops: Vec<RegOp>)
    ensures
        ops@ == qspi_errata_ops(),
{
    let mut ops: Vec<RegOp> = Vec::new();
    ops.push(RegOp::Write { reg: Reg::Cr, value: 0 });
    ops.push(RegOp::AwaitClear { reg: Reg::Sr, mask: SR_BUSY, timeout_us: CMD_TIMEOUT_US });
    ops.push(RegOp::Write { reg: Reg::Cr, value: 0xFF00_0001 });
    ops.push(RegOp::Write { reg: Reg::Ccr, value: 0x2000_0000 });
    ops.push(RegOp::Write { reg: Reg::Ccr, value: 0x2000_0000 });
    ops.push(RegOp::Write { reg: Reg::Cr, value: 0 });
    ops.push(RegOp::AwaitClear { reg: Reg::Sr, mask: SR_BUSY, timeout_us: CMD_TIMEOUT_US });
    assert(ops@ =~= qspi_errata_ops());
    ops
}

fn push_settle(ops: &mut Vec<RegOp>)
    ensures
        final(ops)@ == old(ops)@ + settle(),
{
    let ghost s = ops@;
    ops.push(RegOp::AwaitClear { reg: Reg::Sr, mask: SR_BUSY, timeout_us: CMD_TIMEOUT_US });
    ops.push(RegOp::Write { reg: Reg::Fcr, value: FCR_CTCF });
    assert(ops@ =~= s + settle());
}

/// Sends a bare instruction.
fn single_byte_command(instruction: u8) -> (ops: Vec<RegOp>)
    ensures
        ops@ == seq![w(Reg::Ccr, instruction_only(instruction).value())] + settle(),
{
    let ccr = Ccr {
        fmode: 0,
        dmode: 0,
        dcyc: 0,
        abmode: 0,
        adsize: 0,
        admode: 0,
        imode: 1,
        instruction,
        sioo: false,
    };
    let mut ops: Vec<RegOp> = Vec::new();
    ops.push(RegOp::Write { reg: Reg::Ccr, value: ccr.bits() });
    assert(ops@ =~= seq![w(Reg::Ccr, instruction_only(instruction).value())]);
    push_settle(&mut ops);
    ops
}

/// Sends an instruction and one byte.
fn one_byte_write(instruction: u8, value: u8) -> (ops: Vec<RegOp>)
    ensures
        ops@ == seq![
            w(Reg::Dlr, 0),
            w(Reg::Ccr, instruction_with_data(instruction).value()),
            w(Reg::Dr, value as int),
        ] + settle(),
{
    let ccr = Ccr {
        fmode: 0,
        dmode: 1,
        dcyc: 0,
        abmode: 0,
        adsize: 0,
        admode: 0,
        imode: 1,
        instruction,
        sioo: false,
    };
    let mut ops: Vec<RegOp> = Vec::new();
    ops.push(RegOp::Write { reg: Reg::Dlr, value: 0 });
    ops.push(RegOp::Write { reg: Reg::Ccr, value: ccr.bits() });
    ops.push(RegOp::Write { reg: Reg::Dr, value: value as u32 });
    assert(ops@ =~= seq![
        w(Reg::Dlr, 0),
        w(Reg::Ccr, instruction_with_data(instruction).value()),
        w(Reg::Dr, value as int),
    ]);
    push_settle(&mut ops);
    ops
}

/// Reads one status byte: the value is in the low byte of `DR` once transfer
/// complete is set; the flag is then cleared.
pub fn status_register() -> (ops: [RegOp; 3])
    ensures
        ops@ == seq![
            w(Reg::Dlr, 0),
            w(
                Reg::Ccr,
                (Ccr { fmode: 1, ..instruction_with_data(CMD_READ_STATUS_REGISTER) }).value(),
            ),
            (RegOp::AwaitSet { reg: Reg::Sr, mask: SR_TCF, timeout_us: CMD_TIMEOUT_US }),
        ],
{
    let ccr = Ccr {
        fmode: 1,
        dmode: 1,
        dcyc: 0,
        abmode: 0,
        adsize: 0,
        admode: 0,
        imode: 1,
        instruction: CMD_READ_STATUS_REGISTER,
        sioo: false,
    };
    let ops = [
        RegOp::Write { reg: Reg::Dlr, value: 0 },
        RegOp::Write { reg: Reg::Ccr, value: ccr.bits() },
        RegOp::AwaitSet { reg: Reg::Sr, mask: SR_TCF, timeout_us: CMD_TIMEOUT_US },
    ];
    assert(ops@ =~= seq![
        w(Reg::Dlr, 0),
        w(
            Reg::Ccr,
            (Ccr { fmode: 1, ..instruction_with_data(CMD_READ_STATUS_REGISTER) }).value(),
        ),
        (RegOp::AwaitSet { reg: Reg::Sr, mask: SR_TCF, timeout_us: CMD_TIMEOUT_US }),
    ]);
    ops
}

fn byte_at(data: &Vec<u8>, i: usize) -> (b: u32)
    ensures
        b == if i < data@.len() {
            data@[i as int] as int
        } else {
            0
        },
        b < 256,
{
    if i < data.len() {
        data[i] as u32
    } else {
        0
    }
}

/// Accesses of a page program.
fn program_frame(addr: u32, data: &Vec<u8>) -> (ops: Vec<RegOp>)
    requires
        1 <= data@.len() <= 256,
    ensures
        ops@ == seq![
            w(Reg::Dlr, data@.len() - 1),
            w(
                Reg::Ccr,
                (Ccr { dmode: 1, ..instruction_with_address(CMD_PAGE_PROGRAM) }).value(),
            ),
            w(Reg::Ar, addr as int),
        ] + fifo_writes(data@, ((data@.len() + 3) / 4) as int) + settle(),
{
    let ccr = Ccr {
        fmode: 0,
        dmode: 1,
        dcyc: 0,
        abmode: 0,
        adsize: 2,
        admode: 1,
        imode: 1,
        instruction: CMD_PAGE_PROGRAM,
        sioo: false,
    };
    let mut ops: Vec<RegOp> = Vec::new();
    ops.push(RegOp::Write { reg: Reg::Dlr, value: (data.len() - 1) as u32 });
    ops.push(RegOp::Write { reg: Reg::Ccr, value: ccr.bits() });
    ops.push(RegOp::Write { reg: Reg::Ar, value: addr });
    let ghost head = ops@;
    assert(head =~= seq![
        w(Reg::Dlr, data@.len() - 1),
        w(Reg::Ccr, (Ccr { dmode: 1, ..instruction_with_address(CMD_PAGE_PROGRAM) }).value()),
        w(Reg::Ar, addr as int),
    ]);
    let words: usize = (data.len() + 3) / 4;
    let mut i: usize = 0;
    assert(head + fifo_writes(data@, 0) =~= head);
    while i < words
        invariant
            i <= words,
            words == (data@.len() + 3) / 4,
            1 <= data@.len() <= 256,
            ops@ == head + fifo_writes(data@, i as int),
        decreases words - i,
    {
        let word: u32 = byte_at(data, 4 * i) + byte_at(data, 4 * i + 1) * 0x100 + byte_at(
            data,
            4 * i + 2,
        ) * 0x1_0000 + byte_at(data, 4 * i + 3) * 0x100_0000;
        ops.push(RegOp::AwaitSet { reg: Reg::Sr, mask: SR_FTF, timeout_us: CMD_TIMEOUT_US });
        ops.push(RegOp::Write { reg: Reg::Dr, value: word });
        assert(word == le_word(data@, i as int));
        assert((2 * i + 1) / 2 == i);
        assert(ops@ =~= head + fifo_writes(data@, i + 1));
        i = i + 1;
    }
    push_settle(&mut ops);
    ops
}

/// The register accesses that carry out a command; `cr` is the control register
/// as it reads beforehand.
pub fn frame(cmd: &FlashCommand, cr: u32) -> (ops: Vec<RegOp>)
    requires
        cmd matches FlashCommand::ProgramPage { addr, data } ==> 1 <= data@.len() <= 256,
    ensures
        ops@ == frame_of(*cmd, cr),
{
    match cmd {
        FlashCommand::LeaveContinuousRead => {
            let ccr = Ccr {
                fmode: 1,
                dmode: 3,
                dcyc: 6,
                abmode: 3,
                adsize: 2,
                admode: 3,
                imode: 0,
                instruction: 0,
                sioo: false,
            };
            let mut ops: Vec<RegOp> = Vec::new();
            ops.push(RegOp::Write { reg: Reg::Dlr, value: 0 });
            ops.push(RegOp::Write { reg: Reg::Abr, value: 0 });
            ops.push(RegOp::Write { reg: Reg::Ccr, value: ccr.bits() });
            ops.push(RegOp::Write { reg: Reg::Ar, value: 0 });
            ops.push(
                RegOp::AwaitSet { reg: Reg::Sr, mask: SR_TCF, timeout_us: CMD_TIMEOUT_US },
            );
            ops.push(RegOp::Discard { reg: Reg::Dr });
            ops.push(RegOp::Write { reg: Reg::Fcr, value: FCR_CTCF });
            ops.push(RegOp::SetBits { reg: Reg::Cr, mask: CR_ABORT });
            ops.push(
                RegOp::AwaitClear { reg: Reg::Cr, mask: CR_ABORT, timeout_us: CMD_TIMEOUT_US },
            );
            assert(ops@ =~= frame_of(*cmd, cr));
            ops
        },
        FlashCommand::EnableReset => single_byte_command(CMD_ENABLE_RESET),
        FlashCommand::ResetMemory => single_byte_command(CMD_RESET_MEMORY),
        FlashCommand::WriteEnable => single_byte_command(CMD_WRITE_ENABLE),
        FlashCommand::WriteStatus { value } => one_byte_write(CMD_WRITE_STATUS_REGISTER, *value),
        FlashCommand::SetReadParameters { value } => one_byte_write(
            CMD_SET_READ_PARAMETERS,
            *value,
        ),
        FlashCommand::EraseSector { addr } => {
            let ccr = Ccr {
                fmode: 0,
                dmode: 0,
                dcyc: 0,
                abmode: 0,
                adsize: 2,
                admode: 1,
                imode: 1,
                instruction: CMD_SECTOR_ERASE_4K,
                sioo: false,
            };
            let mut ops: Vec<RegOp> = Vec::new();
            ops.push(RegOp::Write { reg: Reg::Ccr, value: ccr.bits() });
            ops.push(RegOp::Write { reg: Reg::Ar, value: *addr });
            assert(ops@ =~= seq![
                w(Reg::Ccr, instruction_with_address(CMD_SECTOR_ERASE_4K).value()),
                w(Reg::Ar, *addr as int),
            ]);
            push_settle(&mut ops);
            ops
        },
        FlashCommand::ProgramPage { addr, data } => program_frame(*addr, data),
        FlashCommand::AwaitReady => {
            let mut ops: Vec<RegOp> = Vec::new();
            ops.push(RegOp::PollStatus { timeout_us: WIP_TIMEOUT_US });
            assert(ops@ =~= frame_of(*cmd, cr));
            ops
        },
        FlashCommand::PauseUs { us } => {
            let mut ops: Vec<RegOp> = Vec::new();
            ops.push(RegOp::DelayUs { us: *us });
            assert(ops@ =~= frame_of(*cmd, cr));
            ops
        },
        FlashCommand::AbortController => {
            let mut ops = qspi_errata_2_7_4_workaround();
            ops.push(RegOp::Write { reg: Reg::Cr, value: cr & 0xFFFF_FFFD });
            ops.push(RegOp::SetBits { reg: Reg::Cr, mask: CR_ABORT });
            ops.push(
                RegOp::AwaitClear { reg: Reg::Cr, mask: CR_ABORT, timeout_us: CMD_TIMEOUT_US },
            );
            ops.push(RegOp::Write { reg: Reg::Fcr, value: FCR_ALL });
            assert(ops@ =~= frame_of(*cmd, cr));
            ops
        },
        FlashCommand::MapReads => {
            let ccr = Ccr {
                fmode: 3,
                dmode: 3,
                dcyc: 6,
                abmode: 3,
                adsize: 2,
                admode: 3,
                imode: 1,
                instruction: CMD_FAST_READ_QUAD_IO,
                sioo: true,
            };
            let mut ops: Vec<RegOp> = Vec::new();
            ops.push(
                RegOp::AwaitClear { reg: Reg::Sr, mask: SR_BUSY, timeout_us: CMD_TIMEOUT_US },
            );
            ops.push(RegOp::Write { reg: Reg::Abr, value: 0xA0 });
            ops.push(RegOp::Write { reg: Reg::Ccr, value: ccr.bits() });
            ops.push(RegOp::DelayUs { us: 1000 });
            assert(ops@ =~= frame_of(*cmd, cr));
            ops
        },
    }
}

/// The fields of the configuration register, each at its place: all can be read
/// back.
#[verifier::rlimit(60)]
#[verifier::spinoff_prover]
pub proof fn law_configuration_is_lossless(c: Ccr)
    requires
        c.fmode < 4 && c.dmode < 4 && c.dcyc < 32 && c.abmode < 4 && c.adsize < 4 && c.admode < 4
            && c.imode < 4,
    ensures
        0 <= c.value() <= u32::MAX,
        c.value() % 256 == c.instruction,
        c.value() / 256 % 4 == c.imode,
        c.value() / 1024 % 4 == c.admode,
        c.value() / 4096 % 4 == c.adsize,
        c.value() / 16384 % 4 == c.abmode,
        c.value() / 65536 % 4 == 0,
        c.value() / 262144 % 32 == c.dcyc,
        c.value() / 0x100_0000 % 4 == c.dmode,
        c.value() / 0x400_0000 % 4 == c.fmode,
        c.value() / 0x1000_0000 % 2 == 1 <==> c.sioo,
{
    let v = c.value();
    let i = c.instruction as int;
    let im = c.imode as int;
    let adm = c.admode as int;
    let ads = c.adsize as int;
    let abm = c.abmode as int;
    let dc = c.dcyc as int;
    let dm = c.dmode as int;
    let fm = c.fmode as int;
    let so = if c.sioo {
        1int
    } else {
        0
    };
    mmio::lemma_field(v, 1, 256, 0int, i, (im + 4 * (adm + 4 * (ads + 4 * (abm + 4 * (0int + 4 * (dc + 32 * (0int + 2 * (dm + 4 * (fm + 4 * (so + 2 * 0int)))))))))));
    mmio::lemma_field(v, 256, 4, (0int + 1 * i), im, (adm + 4 * (ads + 4 * (abm + 4 * (0int + 4 * (dc + 32 * (0int + 2 * (dm + 4 * (fm + 4 * (so + 2 * 0int))))))))));
    mmio::lemma_field(v, 1024, 4, ((0int + 1 * i) + 256 * im), adm, (ads + 4 * (abm + 4 * (0int + 4 * (dc + 32 * (0int + 2 * (dm + 4 * (fm + 4 * (so + 2 * 0int)))))))));
    mmio::lemma_field(v, 4096, 4, (((0int + 1 * i) + 256 * im) + 1024 * adm), ads, (abm + 4 * (0int + 4 * (dc + 32 * (0int + 2 * (dm + 4 * (fm + 4 * (so + 2 * 0int))))))));
    mmio::lemma_field(v, 16384, 4, ((((0int + 1 * i) + 256 * im) + 1024 * adm) + 4096 * ads), abm, (0int + 4 * (dc + 32 * (0int + 2 * (dm + 4 * (fm + 4 * (so + 2 * 0int)))))));
    mmio::lemma_field(v, 65536, 4, (((((0int + 1 * i) + 256 * im) + 1024 * adm) + 4096 * ads) + 16384 * abm), 0int, (dc + 32 * (0int + 2 * (dm + 4 * (fm + 4 * (so + 2 * 0int))))));
    mmio::lemma_field(v, 262144, 32, ((((((0int + 1 * i) + 256 * im) + 1024 * adm) + 4096 * ads) + 16384 * abm) + 65536 * 0int), dc, (0int + 2 * (dm + 4 * (fm + 4 * (so + 2 * 0int)))));
    mmio::lemma_field(v, 8388608, 2, (((((((0int + 1 * i) + 256 * im) + 1024 * adm) + 4096 * ads) + 16384 * abm) + 65536 * 0int) + 262144 * dc), 0int, (dm + 4 * (fm + 4 * (so + 2 * 0int))));
    mmio::lemma_field(v, 16777216, 4, ((((((((0int + 1 * i) + 256 * im) + 1024 * adm) + 4096 * ads) + 16384 * abm) + 65536 * 0int) + 262144 * dc) + 8388608 * 0int), dm, (fm + 4 * (so + 2 * 0int)));
    mmio::lemma_field(v, 67108864, 4, (((((((((0int + 1 * i) + 256 * im) + 1024 * adm) + 4096 * ads) + 16384 * abm) + 65536 * 0int) + 262144 * dc) + 8388608 * 0int) + 16777216 * dm), fm, (so + 2 * 0int));
    mmio::lemma_field(v, 268435456, 2, ((((((((((0int + 1 * i) + 256 * im) + 1024 * adm) + 4096 * ads) + 16384 * abm) + 65536 * 0int) + 262144 * dc) + 8388608 * 0int) + 16777216 * dm) + 67108864 * fm), so, 0int);
}

/// The register values that carry each command's instruction, lines and lengths,
/// as the chip's data sheet and the controller's manual have them.
pub proof fn law_frames_carry_their_instructions(addr: u32, value: u8, cr: u32)
    ensures
        frame_of(FlashCommand::WriteEnable, cr)[0] == (RegOp::Write { reg: Reg::Ccr, value: 0x0106 }),
        frame_of(FlashCommand::EnableReset, cr)[0] == (RegOp::Write { reg: Reg::Ccr, value: 0x0166 }),
        frame_of(FlashCommand::ResetMemory, cr)[0] == (RegOp::Write { reg: Reg::Ccr, value: 0x0199 }),
        frame_of(FlashCommand::EraseSector { addr }, cr).take(2) == seq![
            (RegOp::Write { reg: Reg::Ccr, value: 0x2520 }),
            (RegOp::Write { reg: Reg::Ar, value: addr }),
        ],
        frame_of(FlashCommand::WriteStatus { value }, cr).take(3) == seq![
            (RegOp::Write { reg: Reg::Dlr, value: 0 }),
            (RegOp::Write { reg: Reg::Ccr, value: 0x0100_0101 }),
            (RegOp::Write { reg: Reg::Dr, value: value as u32 }),
        ],
        frame_of(FlashCommand::SetReadParameters { value }, cr).take(3) == seq![
            (RegOp::Write { reg: Reg::Dlr, value: 0 }),
            (RegOp::Write { reg: Reg::Ccr, value: 0x0100_01C0 }),
            (RegOp::Write { reg: Reg::Dr, value: value as u32 }),
        ],
        frame_of(FlashCommand::MapReads, cr).subrange(1, 4) == seq![
            (RegOp::Write { reg: Reg::Abr, value: 0xA0 }),
            (RegOp::Write { reg: Reg::Ccr, value: 0x1F18_EDEB }),
            (RegOp::DelayUs { us: 1000 }),
        ],
        frame_of(FlashCommand::LeaveContinuousRead, cr).take(4) == seq![
            (RegOp::Write { reg: Reg::Dlr, value: 0 }),
            (RegOp::Write { reg: Reg::Abr, value: 0 }),
            (RegOp::Write { reg: Reg::Ccr, value: 0x0718_EC00 }),
            (RegOp::Write { reg: Reg::Ar, value: 0 }),
        ],
        frame_of(FlashCommand::AwaitReady, cr) == seq![
            (RegOp::PollStatus { timeout_us: 3_000_000 }),
        ],
{
    assert(frame_of(FlashCommand::EraseSector { addr }, cr).take(2) =~= seq![
        (RegOp::Write { reg: Reg::Ccr, value: 0x2520 }),
        (RegOp::Write { reg: Reg::Ar, value: addr }),
    ]);
    assert(frame_of(FlashCommand::WriteStatus { value }, cr).take(3) =~= seq![
        (RegOp::Write { reg: Reg::Dlr, value: 0 }),
        (RegOp::Write { reg: Reg::Ccr, value: 0x0100_0101 }),
        (RegOp::Write { reg: Reg::Dr, value: value as u32 }),
    ]);
    assert(frame_of(FlashCommand::SetReadParameters { value }, cr).take(3) =~= seq![
        (RegOp::Write { reg: Reg::Dlr, value: 0 }),
        (RegOp::Write { reg: Reg::Ccr, value: 0x0100_01C0 }),
        (RegOp::Write { reg: Reg::Dr, value: value as u32 }),
    ]);
    assert(frame_of(FlashCommand::MapReads, cr).subrange(1, 4) =~= seq![
        (RegOp::Write { reg: Reg::Abr, value: 0xA0 }),
        (RegOp::Write { reg: Reg::Ccr, value: 0x1F18_EDEB }),
        (RegOp::DelayUs { us: 1000 }),
    ]);
    assert(frame_of(FlashCommand::LeaveContinuousRead, cr).take(4) =~= seq![
        (RegOp::Write { reg: Reg::Dlr, value: 0 }),
        (RegOp::Write { reg: Reg::Abr, value: 0 }),
        (RegOp::Write { reg: Reg::Ccr, value: 0x0718_EC00 }),
        (RegOp::Write { reg: Reg::Ar, value: 0 }),
    ]);
}

/// The bytes of a FIFO word.
proof fn lemma_word_bytes(data: Seq<u8>, n: int)
    requires
        0 <= n,
        4 * n < data.len(),
    ensures
        ({
            let v = le_word(data, n);
            &&& 0 <= v <= u32::MAX
            &&& v % 256 == data[4 * n]
            &&& 4 * n + 1 < data.len() ==> v / 256 % 256 == data[4 * n + 1]
            &&& 4 * n + 2 < data.len() ==> v / 65536 % 256 == data[4 * n + 2]
            &&& 4 * n + 3 < data.len() ==> v / 0x100_0000 == data[4 * n + 3]
        }),
{
    let at = |j: int|
        if 4 * n + j < data.len() {
            data[4 * n + j] as int
        } else {
            0
        };
    let (a, b, c, d) = (at(0), at(1), at(2), at(3));
    let v = le_word(data, n);
    assert(v == a + b * 0x100 + c * 0x1_0000 + d * 0x100_0000);
    mmio::lemma_field(v, 1, 256, 0, a, b + 256 * (c + 256 * d));
    mmio::lemma_field(v, 256, 256, a, b, c + 256 * d);
    mmio::lemma_field(v, 65536, 256, a + 256 * b, c, d);
    mmio::lemma_field(v, 0x100_0000, 256, a + 256 * b + 65536 * c, d, 0);
}

/// A page program sends its bytes in their order, four to a word, lowest first,
/// behind their number and the address.
pub proof fn law_programs_send_their_bytes(addr: u32, data: Vec<u8>, cr: u32, i: int)
    requires
        1 <= data@.len() <= 256,
        0 <= i < data@.len(),
    ensures
        ({
            let f = frame_of(FlashCommand::ProgramPage { addr, data }, cr);
            &&& f.take(3) == seq![
                (RegOp::Write { reg: Reg::Dlr, value: (data@.len() - 1) as u32 }),
                (RegOp::Write { reg: Reg::Ccr, value: 0x0100_2502 }),
                (RegOp::Write { reg: Reg::Ar, value: addr }),
            ]
            &&& f[4 + 2 * (i / 4)] matches RegOp::Write { reg, value } && reg == Reg::Dr && (if i
                % 4 == 0 {
                value as int % 256
            } else if i % 4 == 1 {
                value as int / 256 % 256
            } else if i % 4 == 2 {
                value as int / 65536 % 256
            } else {
                value as int / 0x100_0000
            }) == data@[i]
        }),
{
    let f = frame_of(FlashCommand::ProgramPage { addr, data }, cr);
    assert(f.take(3) =~= seq![
        (RegOp::Write { reg: Reg::Dlr, value: (data@.len() - 1) as u32 }),
        (RegOp::Write { reg: Reg::Ccr, value: 0x0100_2502 }),
        (RegOp::Write { reg: Reg::Ar, value: addr }),
    ]);
    let n = i / 4;
    lemma_word_bytes(data@, n);
    let words = ((data@.len() + 3) / 4) as int;
    assert(n < words);
    assert((2 * n + 1) % 2 == 1 && (2 * n + 1) / 2 == n);
    assert(f[4 + 2 * n] == fifo_writes(data@, words)[2 * n + 1]);
}

/// A reset leaves continuous read, asks twice, and gives the chip a hundred
/// microseconds; a recovery takes the controller out of its mode first and does
/// the same.
pub proof fn law_resets_ask_twice_and_wait()
    ensures
        reset_commands().len() == 4,
        reset_commands()[0] == FlashCommand::LeaveContinuousRead,
        reset_commands()[1] == FlashCommand::EnableReset,
        reset_commands()[2] == FlashCommand::ResetMemory,
        reset_commands()[3] == (FlashCommand::PauseUs { us: 100 }),
        recovery_commands()[0] == FlashCommand::AbortController,
        recovery_commands().skip(1) == reset_commands(),
{
    assert(recovery_commands().skip(1) =~= reset_commands());
}

/// Mapping ends by setting the read parameters and starting the reads. Quad
/// Enable is written before that, and waited for, exactly where it was clear.
pub proof fn law_mapping_enables_quad_first(status: u8)
    ensures
        ({
            let c = mapping_commands(status);
            &&& c.len() == if (status / 64) % 2 == 1 {
                2int
            } else {
                5
            }
            &&& c[c.len() - 2] == (FlashCommand::SetReadParameters { value: 0xF0 })
            &&& c[c.len() - 1] == FlashCommand::MapReads
            &&& (status / 64) % 2 == 0 ==> c[0] == FlashCommand::WriteEnable && c[1] == (
            FlashCommand::WriteStatus { value: 0x40 }) && c[2] == FlashCommand::AwaitReady
        }),
{
}

/// A sector erase sets the latch, erases the sector it was asked for, and waits.
pub proof fn law_erase_is_enabled_and_waited_for(addr: u32)
    ensures
        erase_commands(addr).len() == 3,
        erase_commands(addr)[0] == FlashCommand::WriteEnable,
        erase_commands(addr)[1] == (FlashCommand::EraseSector { addr }),
        erase_commands(addr)[2] == FlashCommand::AwaitReady,
{
}

/// The registers of the peripheral lie a word apart from its base on, in this
/// order.
pub proof fn law_registers_lie_a_word_apart()
    ensures
        QUADSPI_BASE + Reg::Cr.offset() == 0x5200_5000,
        Reg::Dcr.offset() == Reg::Cr.offset() + 4,
        Reg::Sr.offset() == Reg::Dcr.offset() + 4,
        Reg::Fcr.offset() == Reg::Sr.offset() + 4,
        Reg::Dlr.offset() == Reg::Fcr.offset() + 4,
        Reg::Ccr.offset() == Reg::Dlr.offset() + 4,
        Reg::Ar.offset() == Reg::Ccr.offset() + 4,
        Reg::Abr.offset() == Reg::Ar.offset() + 4,
        Reg::Dr.offset() == Reg::Abr.offset() + 4,
{
}

/// The timing workaround leaves the peripheral off and idle, as it found it; in
/// between, the slowest clock is started twice.
pub proof fn law_workaround_ends_off_and_idle()
    ensures
        ({
            let ops = qspi_errata_ops();
            let off = RegOp::Write { reg: Reg::Cr, value: 0 };
            let idle = RegOp::AwaitClear { reg: Reg::Sr, mask: 0x20, timeout_us: 20_000 };
            let clock = RegOp::Write { reg: Reg::Ccr, value: 0x2000_0000 };
            &&& ops.len() == 7
            &&& ops[0] == off && ops[1] == idle
            &&& ops[5] == off && ops[6] == idle
            &&& ops[3] == clock && ops[4] == clock
            &&& ops[2] matches RegOp::Write { reg, value } && reg == Reg::Cr && value / 0x100_0000
                == 255 && value % 0x100_0000 == 1
        }),
{
}

} // verus!
