//! The serial NOR flash as the bootloader sees it: the commands that the driver
//! sends, and a model of what each does to the chip and its controller.
use vstd::prelude::*;

verus! {

/// Bytes on the chip (8 MiB).
pub const FLASH_SIZE: u32 = 0x80_0000;

/// Smallest erasable unit (4 KiB).
pub const SECTOR_SIZE: u32 = 4096;

/// Largest programmable unit per Page Program command.
pub const PAGE_SIZE: usize = 256;

/// What the driver asks of the flash and of its controller. Each command is one
/// frame of register accesses (see `qspi::frame`).
#[derive(Debug)]
pub enum FlashCommand {
    /// One throw-away read in the no-instruction quad framing with zero mode
    /// bits: ends an inherited continuous read.
    LeaveContinuousRead,
    /// Enable Reset.
    EnableReset,
    /// Reset Memory; takes effect only right after `EnableReset`.
    ResetMemory,
    /// Write Enable.
    WriteEnable,
    /// Write Status Register.
    WriteStatus { value: u8 },
    /// Set (volatile) Read Parameters.
    SetReadParameters { value: u8 },
    /// Erase the 4 KiB sector that holds `addr`.
    EraseSector { addr: u32 },
    /// Program bytes from `addr` on, inside one page.
    ProgramPage { addr: u32, data: Vec<u8> },
    /// Poll the status register until no write is in progress. Every write ends
    /// well inside the bound of the poll.
    AwaitReady,
    /// Let the chip settle.
    PauseUs { us: u32 },
    /// Cancel whatever the controller is doing and return it to indirect mode.
    AbortController,
    /// Put the controller into memory-mapped continuous quad reads.
    MapReads,
}

/// State of the chip and of its controller.
#[verifier::ext_equal]
pub struct Chip {
    /// The memory array.
    pub mem: Seq<u8>,
    /// Write-enable latch.
    pub write_enabled: bool,
    /// Non-volatile Quad Enable bit.
    pub quad: bool,
    /// Dummy cycles before the data of a quad read.
    pub dummy_cycles: nat,
    /// The chip expects no instruction: it is in continuous read.
    pub continuous: bool,
    /// An Enable Reset has just been seen.
    pub reset_armed: bool,
    /// The controller is in memory-mapped mode.
    pub mapped: bool,
    /// A write (program, erase or status write) is in progress.
    pub busy: bool,
}

/// Ready for instruction-led single-line commands.
pub open spec fn single_line(c: Chip) -> bool {
    &&& c.mem.len() == FLASH_SIZE
    &&& !c.continuous
    &&& !c.mapped
    &&& !c.busy
}

/// Reads through the memory window are framed as the chip expects: quad enabled,
/// eight dummy cycles, controller mapped.
pub open spec fn readable(c: Chip) -> bool {
    &&& c.mem.len() == FLASH_SIZE
    &&& c.mapped
    &&& c.quad
    &&& c.dummy_cycles == 8
    &&& !c.busy
}

/// Sector erase: every byte of the sector that holds `addr` becomes `0xFF`.
pub open spec fn sector_erased(mem: Seq<u8>, addr: int) -> Seq<u8> {
    Seq::new(
        mem.len(),
        |a: int|
            if a / 4096 == addr / 4096 {
                0xFFu8
            } else {
                mem[a]
            },
    )
}

/// Page program: bits can only be cleared, and the address wraps inside the
/// 256-byte page.
pub open spec fn page_programmed(mem: Seq<u8>, addr: int, data: Seq<u8>) -> Seq<u8> {
    Seq::new(
        mem.len(),
        |a: int|
            if a / 256 == addr / 256 && (a - addr) % 256 < data.len() {
                mem[a] & data[(a - addr) % 256]
            } else {
                mem[a]
            },
    )
}

/// Dummy cycles that a Read Parameters value selects (bits 4:3).
pub open spec fn dummy_cycles_of(value: u8) -> nat {
    if (value / 8) % 4 == 0 {
        6
    } else if (value / 8) % 4 == 1 {
        4
    } else if (value / 8) % 4 == 2 {
        8
    } else {
        10
    }
}

/// Whether a status-register value has the Quad Enable bit.
pub open spec fn quad_bit(status: u8) -> bool {
    (status / 64) % 2 == 1
}

/// A reset broke off the write that `c` was busy with: the chip is as after any
/// reset, but what its memory and its Quad Enable bit hold is left open.
pub open spec fn broken_off(c: Chip, d: Chip) -> bool {
    &&& d.mem.len() == c.mem.len()
    &&& !d.write_enabled
    &&& d.dummy_cycles == 6
    &&& d.continuous == c.continuous
    &&& !d.reset_armed
    &&& d.mapped == c.mapped
    &&& !d.busy
}

/// Effect of a reset.
pub open spec fn reset(c: Chip) -> Chip {
    if c.busy {
        choose|d: Chip| broken_off(c, d)
    } else {
        Chip { write_enabled: false, dummy_cycles: 6, reset_armed: false, ..c }
    }
}

/// A reset ends a write in progress.
pub proof fn lemma_reset(c: Chip)
    ensures
        broken_off(c, reset(c)),
{
    assert(broken_off(
        c,
        Chip { write_enabled: false, dummy_cycles: 6, reset_armed: false, busy: false, ..c },
    ));
}

/// Effect of one command. A chip in continuous read, or behind a mapped
/// controller, does not see instruction-led commands; a busy one obeys only a
/// reset and the polls of its status.
pub open spec fn chip_step(c: Chip, cmd: FlashCommand) -> Chip {
    let seen = !c.continuous && !c.mapped;
    let heard = seen && !c.busy;
    let d = Chip { reset_armed: false, ..c };
    match cmd {
        FlashCommand::LeaveContinuousRead => if c.mapped {
            c
        } else {
            Chip { continuous: false, ..d }
        },
        FlashCommand::EnableReset => if seen {
            Chip { reset_armed: true, ..c }
        } else {
            c
        },
        FlashCommand::ResetMemory => if seen && c.reset_armed {
            reset(c)
        } else {
            d
        },
        FlashCommand::WriteEnable => if heard {
            Chip { write_enabled: true, ..d }
        } else {
            d
        },
        FlashCommand::WriteStatus { value } => if heard && c.write_enabled {
            Chip { quad: quad_bit(value), write_enabled: false, busy: true, ..d }
        } else {
            d
        },
        FlashCommand::SetReadParameters { value } => if heard {
            Chip { dummy_cycles: dummy_cycles_of(value), ..d }
        } else {
            d
        },
        FlashCommand::EraseSector { addr } => if heard && c.write_enabled {
            Chip {
                mem: sector_erased(c.mem, addr as int),
                write_enabled: false,
                busy: true,
                ..d
            }
        } else {
            d
        },
        FlashCommand::ProgramPage { addr, data } => if heard && c.write_enabled {
            Chip {
                mem: page_programmed(c.mem, addr as int, data@),
                write_enabled: false,
                busy: true,
                ..d
            }
        } else {
            d
        },
        FlashCommand::AwaitReady => if seen {
            Chip { busy: false, ..c }
        } else {
            c
        },
        FlashCommand::PauseUs { us } => c,
        FlashCommand::AbortController => Chip { mapped: false, ..c },
        FlashCommand::MapReads => Chip {
            mapped: true,
            continuous: c.continuous || !c.busy,
            ..d
        },
    }
}

/// A busy chip drops what it is told to write: nothing but a reset touches its
/// memory, its write-enable latch or its Quad Enable bit before the wait.
pub proof fn law_busy_chip_drops_writes(c: Chip, cmd: FlashCommand)
    requires
        c.busy,
        !(cmd is ResetMemory),
    ensures
        chip_step(c, cmd).mem == c.mem,
        chip_step(c, cmd).write_enabled == c.write_enabled,
        chip_step(c, cmd).quad == c.quad,
        chip_step(c, cmd).busy || cmd is AwaitReady,
{
}

/// Effect of a sequence of commands.
pub open spec fn chip_after(c: Chip, cmds: Seq<FlashCommand>) -> Chip
    decreases cmds.len(),
{
    if cmds.len() == 0 {
        c
    } else {
        chip_step(chip_after(c, cmds.drop_last()), cmds.last())
    }
}

/// One command more.
pub proof fn lemma_chip_push(c: Chip, cmds: Seq<FlashCommand>, cmd: FlashCommand)
    ensures
        chip_after(c, cmds.push(cmd)) == chip_step(chip_after(c, cmds), cmd),
{
    assert(cmds.push(cmd).drop_last() =~= cmds);
}

/// Commands one sequence after another.
pub proof fn lemma_chip_concat(c: Chip, a: Seq<FlashCommand>, b: Seq<FlashCommand>)
    ensures
        chip_after(c, a + b) == chip_after(chip_after(c, a), b),
    decreases b.len(),
{
    if b.len() == 0 {
        assert(a + b =~= a);
    } else {
        assert((a + b).drop_last() =~= a + b.drop_last());
        lemma_chip_concat(c, a, b.drop_last());
    }
}

/// `data` burned from `offset` on: bits can only be cleared.
pub open spec fn burned(mem: Seq<u8>, offset: int, data: Seq<u8>) -> Seq<u8> {
    Seq::new(
        mem.len(),
        |a: int|
            if offset <= a < offset + data.len() {
                mem[a] & data[a - offset]
            } else {
                mem[a]
            },
    )
}

/// A page program that stays inside its page burns exactly its bytes.
pub proof fn lemma_program_inside_page(mem: Seq<u8>, addr: int, data: Seq<u8>)
    requires
        0 <= addr,
        addr % 256 + data.len() <= 256,
    ensures
        page_programmed(mem, addr, data) == burned(mem, addr, data),
{
    assert forall|a: int| 0 <= a < mem.len() implies #[trigger] page_programmed(mem, addr, data)[a]
        == burned(mem, addr, data)[a] by {
        if addr <= a < addr + data.len() {
            assert(a / 256 == addr / 256);
            assert((a - addr) % 256 == a - addr);
        } else if a / 256 == addr / 256 {
            if a < addr {
                assert((a - addr) % 256 == a - addr + 256);
            } else {
                assert((a - addr) % 256 == a - addr);
            }
        }
    }
    assert(page_programmed(mem, addr, data) =~= burned(mem, addr, data));
}

/// Burning two adjoining runs is burning them as one.
pub proof fn lemma_burned_concat(mem: Seq<u8>, offset: int, a: Seq<u8>, b: Seq<u8>)
    ensures
        burned(burned(mem, offset, a), offset + a.len(), b) == burned(mem, offset, a + b),
{
    assert(burned(burned(mem, offset, a), offset + a.len(), b) =~= burned(mem, offset, a + b));
}

/// Bytes burned onto erased cells are read back as they were written.
pub proof fn law_erased_cells_take_what_is_written(mem: Seq<u8>, offset: int, data: Seq<u8>)
    requires
        0 <= offset,
        offset + data.len() <= mem.len(),
        forall|a: int| offset <= a < offset + data.len() ==> mem[a] == 0xFF,
    ensures
        burned(mem, offset, data).subrange(offset, offset + data.len()) == data,
{
    assert forall|i: int| 0 <= i < data.len() implies #[trigger] burned(
        mem,
        offset,
        data,
    ).subrange(offset, offset + data.len())[i] == data[i] by {
        let d = data[i];
        assert(0xFFu8 & d == d) by (bit_vector);
    }
    assert(burned(mem, offset, data).subrange(offset, offset + data.len()) =~= data);
}

/// An erase fills the whole sector of its address, from one multiple of 4096 to
/// the next, and nothing else.
pub proof fn law_erase_fills_one_sector(mem: Seq<u8>, addr: int, a: int)
    requires
        0 <= addr,
        0 <= a < mem.len(),
    ensures
        ({
            let base = addr - addr % 4096;
            &&& sector_erased(mem, addr).len() == mem.len()
            &&& base <= a < base + 4096 ==> sector_erased(mem, addr)[a] == 0xFF
            &&& !(base <= a < base + 4096) ==> sector_erased(mem, addr)[a] == mem[a]
        }),
{
}

/// Byte `i` of a page program goes to the page's place `i` after the address,
/// counted round the page, and can only clear bits there. Other pages stay.
pub proof fn law_program_goes_round_the_page(mem: Seq<u8>, addr: int, data: Seq<u8>, i: int, a: int)
    requires
        0 <= addr,
        addr - addr % 256 + 256 <= mem.len(),
        data.len() <= 256,
        0 <= i < data.len(),
        0 <= a < mem.len(),
    ensures
        ({
            let base = addr - addr % 256;
            let place = base + (addr % 256 + i) % 256;
            &&& page_programmed(mem, addr, data).len() == mem.len()
            &&& page_programmed(mem, addr, data)[place] == mem[place] & data[i]
            &&& !(base <= a < base + 256) ==> page_programmed(mem, addr, data)[a] == mem[a]
        }),
{
    let base = addr - addr % 256;
    let place = base + (addr % 256 + i) % 256;
    assert(place / 256 == addr / 256);
    assert((place - addr) % 256 == i);
}

/// The two bits of a Read Parameters value, and the cycles that each setting
/// stands for; the bits around them do not matter. Quad Enable is bit six.
pub proof fn law_register_bits_of_the_chip(setting: u8, low: u8, high: u8)
    requires
        setting < 4,
        low < 8,
        high < 8,
    ensures
        dummy_cycles_of((high * 32 + setting * 8 + low) as u8) == if setting == 0 {
            6nat
        } else if setting == 1 {
            4nat
        } else if setting == 2 {
            8nat
        } else {
            10nat
        },
        quad_bit((high * 32 + setting * 8 + low) as u8) <==> high == 2 || high == 3 || high == 6
            || high == 7,
{
}

/// A chip in continuous read, or behind a mapped controller, obeys no command
/// that would change its memory or its registers.
pub proof fn law_unheard_commands_change_nothing(c: Chip, cmd: FlashCommand)
    requires
        c.continuous || c.mapped,
    ensures
        chip_step(c, cmd).mem == c.mem,
        chip_step(c, cmd).quad == c.quad,
        chip_step(c, cmd).dummy_cycles == c.dummy_cycles,
        chip_step(c, cmd).write_enabled == c.write_enabled,
{
}

/// A write needs the latch, uses it up, and leaves the chip busy; only the wait
/// ends that, and it touches nothing else.
pub proof fn law_writes_use_up_the_latch(c: Chip, cmd: FlashCommand)
    requires
        single_line(c),
        cmd is EraseSector || cmd is ProgramPage || cmd is WriteStatus,
    ensures
        !c.write_enabled ==> {
            &&& chip_step(c, cmd).mem == c.mem
            &&& chip_step(c, cmd).quad == c.quad
            &&& !chip_step(c, cmd).busy
        },
        c.write_enabled ==> !chip_step(c, cmd).write_enabled && chip_step(c, cmd).busy,
        chip_step(c, FlashCommand::WriteEnable).write_enabled,
        chip_step(c, FlashCommand::WriteEnable).mem == c.mem,
        ({
            let d = chip_step(c, cmd);
            let e = chip_step(d, FlashCommand::AwaitReady);
            &&& !e.busy
            &&& e.mem == d.mem
            &&& e.quad == d.quad
            &&& e.dummy_cycles == d.dummy_cycles
        }),
{
}

} // verus!
