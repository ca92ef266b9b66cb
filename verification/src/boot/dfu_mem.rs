//! The DFU service's view of the flash: a transfer buffer, the bounds of the
//! flash window, and which commands each DFU request turns into.
//!
//! Each operation returns the flash commands to carry out, in order. Their
//! effect is stated over the chip model: whatever the chip's state when the
//! memory matches it, the commands leave it in the state described.
use super::chip;
use super::chip::{Chip, FlashCommand, FLASH_SIZE, PAGE_SIZE, SECTOR_SIZE};
use super::qspi;
use super::qspi::{
    enter_memory_mapped,
    erase_sector_4k,
    program_page,
    recover_flash_to_single_line,
    reset_flash,
};
use vstd::prelude::*;

verus! {

/// Start of the flash window in the address map.
pub const FLASH_BASE: u32 = 0x9000_0000;

/// End (exclusive) of the flash window.
pub const FLASH_END: u32 = 0x9080_0000;

/// What the host is told of the memory: its name, its first address, and its
/// sectors, which can be read, erased and written.
pub const MEM_INFO_STRING: &'static str = "@External Flash /0x90000000/2048*04Kg";

/// Bytes per DFU transfer.
pub const TRANSFER_SIZE: usize = 128;

/// Where the host's address pointer starts.
pub const INITIAL_ADDRESS_POINTER: u32 = FLASH_BASE;

/// Longest time the host is told to wait for a program, in milliseconds.
pub const PROGRAM_TIME_MS: u32 = 2;

/// Longest time the host is told to wait for a sector erase, in milliseconds.
pub const ERASE_TIME_MS: u32 = 50;

/// Longest time the host is told to wait for a full erase, in milliseconds.
pub const FULL_ERASE_TIME_MS: u32 = 95_000;

/// Why a DFU request is refused.
#[derive(Debug, Clone, Copy, PartialEq, Eq, Structural)]
pub enum DfuError {
    /// The range is not inside the flash window.
    Address,
    /// More bytes were asked for than the host has sent.
    Prog,
}

/// The address lies in the flash window.
pub open spec fn in_window(addr: int) -> bool {
    FLASH_BASE <= addr < FLASH_END
}

/// The range lies in the flash window; an empty range may sit at its end.
pub open spec fn range_in_window(addr: int, len: int) -> bool {
    FLASH_BASE <= addr && addr + len <= FLASH_END
}

/// The commands that lead back to indirect mode, if the memory-mapped mode is on.
pub open spec fn indirect_commands(mapped: bool) -> Seq<FlashCommand> {
    if mapped {
        qspi::recovery_commands()
    } else {
        Seq::empty()
    }
}

/// The commands that erase the first `n` sectors.
pub open spec fn sector_commands(n: nat) -> Seq<FlashCommand>
    decreases n,
{
    if n == 0 {
        Seq::empty()
    } else {
        sector_commands((n - 1) as nat) + qspi::erase_commands((4096 * (n - 1)) as u32)
    }
}

/// Bytes from `offset` on that fit into its page, at most `len`.
pub open spec fn piece_len(offset: int, len: int) -> int {
    if 256 - offset % 256 < len {
        256 - offset % 256
    } else {
        len
    }
}

/// `data` from `offset` on, cut at the page boundaries: where each piece starts
/// and what it holds.
pub open spec fn pieces(offset: int, data: Seq<u8>) -> Seq<(int, Seq<u8>)>
    decreases data.len(),
{
    let n = piece_len(offset, data.len() as int);
    if data.len() == 0 || n <= 0 {
        Seq::empty()
    } else {
        seq![(offset, data.take(n))] + pieces(offset + n, data.skip(n))
    }
}

/// The `k`-th three commands program a piece: it is enabled, sent and waited for.
pub open spec fn programs_piece(cmds: Seq<FlashCommand>, k: int, part: (int, Seq<u8>)) -> bool {
    &&& cmds[3 * k] == FlashCommand::WriteEnable
    &&& cmds[3 * k + 1] matches FlashCommand::ProgramPage { addr, data } && addr == part.0 && data@
        == part.1
    &&& cmds[3 * k + 2] == FlashCommand::AwaitReady
}

/// The commands program the pieces, one after another.
pub open spec fn programs(cmds: Seq<FlashCommand>, parts: Seq<(int, Seq<u8>)>) -> bool {
    &&& cmds.len() == 3 * parts.len()
    &&& forall|k: int| 0 <= k < parts.len() ==> #[trigger] programs_piece(cmds, k, parts[k])
}

/// No page program is empty or crosses a page boundary.
pub open spec fn pages_fit(cmds: Seq<FlashCommand>) -> bool {
    forall|i: int|
        0 <= i < cmds.len() ==> (#[trigger] cmds[i] matches FlashCommand::ProgramPage { addr, data }
            ==> 1 <= data@.len() && addr % 256 + data@.len() <= 256)
}

/// DFU memory over the QSPI flash.
pub struct QspiDfuMem {
    buffer: [u8; TRANSFER_SIZE],
    buffer_len: usize,
    /// The controller is in memory-mapped mode. The mode is entered lazily and
    /// kept across successive reads.
    in_mm_mode: bool,
    /// A host has asked for a flash write since boot.
    saw_write: bool,
}

/// True once a host has asked for a real flash write over DFU: enumeration alone
/// never does.
pub fn dfu_saw_write(mem: &QspiDfuMem) -> (b: bool)
    ensures
        b == mem.wrote(),
{
    mem.saw_write
}

impl QspiDfuMem {
    /// Validity of the memory.
    pub closed spec fn wf(&self) -> bool {
        self.buffer_len <= TRANSFER_SIZE
    }

    /// The transfer buffer's cells.
    pub closed spec fn cells(&self) -> Seq<u8> {
        self.buffer@
    }

    /// Bytes that the last store put into the buffer.
    pub closed spec fn stored(&self) -> nat {
        self.buffer_len as nat
    }

    /// The controller is taken to be in memory-mapped mode.
    pub closed spec fn mapped(&self) -> bool {
        self.in_mm_mode
    }

    /// A host has asked for a flash write.
    pub closed spec fn wrote(&self) -> bool {
        self.saw_write
    }

    /// The chip is in the mode that this memory takes it to be in.
    pub open spec fn matches(&self, c: Chip) -> bool {
        if self.mapped() {
            chip::readable(c)
        } else {
            chip::single_line(c)
        }
    }

    /// An empty buffer over a flash that the returned commands recover to its
    /// single-line state. The flash keeps its contents, unless it is inherited
    /// busy: then the write in progress is broken off, and what it leaves is not
    /// stated.
    pub fn new() -> (r: (Self, Vec<FlashCommand>))
        ensures
            r.0.wf(),
            r.0.stored() == 0,
            r.0.cells() == Seq::new(TRANSFER_SIZE as nat, |i: int| 0u8),
            !r.0.mapped(),
            !r.0.wrote(),
            r.1@ == qspi::recovery_commands(),
            forall|c: Chip|
                c.mem.len() == FLASH_SIZE ==> {
                    let d = #[trigger] chip::chip_after(c, r.1@);
                    &&& r.0.matches(d)
                    &&& !d.write_enabled
                    &&& !c.busy ==> qspi::keeps_contents(c, d)
                },
    {
        let mem = QspiDfuMem {
            buffer: [0; TRANSFER_SIZE],
            buffer_len: 0,
            in_mm_mode: false,
            saw_write: false,
        };
        (mem, recover_flash_to_single_line())
    }

    /// The first half of the way into memory-mapped mode: breaks any continuous
    /// read and resets the chip, unless the mode is on already.
    /// [`Self::ensure_mm_mode`] does the rest.
    pub fn prepare_mm_mode(&self) -> (cmds: Vec<FlashCommand>)
        ensures
            cmds@ == if self.mapped() {
                Seq::<FlashCommand>::empty()
            } else {
                qspi::reset_commands()
            },
            forall|c: Chip|
                self.matches(c) ==> {
                    let d = #[trigger] chip::chip_after(c, cmds@);
                    &&& self.matches(d)
                    &&& qspi::keeps_contents(c, d)
                    &&& !self.mapped() ==> !d.write_enabled
                },
    {
        if self.in_mm_mode {
            Vec::new()
        } else {
            reset_flash()
        }
    }

    /// The second half, given the chip's status register.
    pub fn ensure_mm_mode(&mut self, status: u8) -> (cmds: Vec<FlashCommand>)
        requires
            old(self).wf(),
        ensures
            final(self).wf(),
            final(self).mapped(),
            final(self).cells() == old(self).cells(),
            final(self).stored() == old(self).stored(),
            final(self).wrote() == old(self).wrote(),
            cmds@ == if old(self).mapped() {
                Seq::<FlashCommand>::empty()
            } else {
                qspi::mapping_commands(status)
            },
            forall|c: Chip|
                old(self).matches(c) && c.quad == chip::quad_bit(status) ==> {
                    let d = #[trigger] chip::chip_after(c, cmds@);
                    final(self).matches(d) && d.mem == c.mem
                },
    {
        if self.in_mm_mode {
            Vec::new()
        } else {
            let cmds = enter_memory_mapped(status);
            self.in_mm_mode = true;
            cmds
        }
    }

    /// Back to indirect mode, if the memory-mapped mode is on.
    pub fn ensure_indirect_mode(&mut self) -> (cmds: Vec<FlashCommand>)
        requires
            old(self).wf(),
        ensures
            final(self).wf(),
            !final(self).mapped(),
            final(self).cells() == old(self).cells(),
            final(self).stored() == old(self).stored(),
            final(self).wrote() == old(self).wrote(),
            cmds@ == indirect_commands(old(self).mapped()),
            forall|c: Chip|
                old(self).matches(c) ==> {
                    let d = #[trigger] chip::chip_after(c, cmds@);
                    final(self).matches(d) && qspi::keeps_contents(c, d)
                },
    {
        if self.in_mm_mode {
            let cmds = recover_flash_to_single_line();
            self.in_mm_mode = false;
            cmds
        } else {
            Vec::new()
        }
    }

    /// Gives the peripheral up without touching its mode; tells whether it was
    /// left memory-mapped.
    pub fn release(self) -> (mapped: bool)
        ensures
            mapped == self.mapped(),
    {
        self.in_mm_mode
    }

    /// Whether `addr` lies in the flash window.
    pub fn contains(addr: u32) -> (b: bool)
        ensures
            b == in_window(addr as int),
    {
        FLASH_BASE <= addr && addr < FLASH_END
    }

    /// Whether `len` bytes from `addr` on lie in the flash window.
    pub fn contains_range(addr: u32, len: usize) -> (b: bool)
        ensures
            b == range_in_window(addr as int, len as int),
    {
        FLASH_BASE <= addr && addr <= FLASH_END && len as u64 <= (FLASH_END - addr) as u64
    }

    /// Takes a block from the host into the buffer, unless it is too long.
    pub fn store_write_buffer(&mut self, src: &[u8]) -> (r: Result<(), ()>)
        requires
            old(self).wf(),
        ensures
            final(self).wf(),
            final(self).wrote(),
            final(self).mapped() == old(self).mapped(),
            r is Ok <==> src@.len() <= TRANSFER_SIZE,
            r is Ok ==> final(self).stored() == src@.len() && final(self).cells() == src@ + old(
                self,
            ).cells().skip(src@.len() as int),
            r is Err ==> final(self).stored() == old(self).stored() && final(self).cells() == old(
                self,
            ).cells(),
    {
        self.saw_write = true;
        if src.len() > TRANSFER_SIZE {
            return Err(());
        }
        let ghost before = self.buffer@;
        self.fill_from(src);
        self.buffer_len = src.len();
        Ok(())
    }

    /// Copies `src` to the front of the buffer.
    fn fill_from(&mut self, src: &[u8])
        requires
            src@.len() <= TRANSFER_SIZE,
        ensures
            final(self).buffer@ == src@ + old(self).buffer@.skip(src@.len() as int),
            final(self).buffer_len == old(self).buffer_len,
            final(self).in_mm_mode == old(self).in_mm_mode,
            final(self).saw_write == old(self).saw_write,
    {
        let ghost before = self.buffer@;
        let mut i: usize = 0;
        while i < src.len()
            invariant
                i <= src@.len() <= TRANSFER_SIZE,
                before.len() == TRANSFER_SIZE,
                before == old(self).buffer@,
                self.buffer@.len() == TRANSFER_SIZE,
                self.buffer_len == old(self).buffer_len,
                self.in_mm_mode == old(self).in_mm_mode,
                self.saw_write == old(self).saw_write,
                forall|j: int| 0 <= j < i ==> self.buffer@[j] == src@[j],
                forall|j: int| i <= j < TRANSFER_SIZE ==> self.buffer@[j] == before[j],
            decreases src@.len() - i,
        {
            self.buffer[i] = src[i];
            i = i + 1;
        }
        assert(self.buffer@ =~= src@ + before.skip(src@.len() as int));
    }

    /// How many bytes an upload of `length` from `address` reads: at most one
    /// transfer. The chip is brought into memory-mapped mode, the bytes are read
    /// through the window, and [`Self::complete_read`] takes them.
    pub fn read(&self, address: u32, length: usize) -> (r: Result<usize, DfuError>)
        ensures
            r == if !range_in_window(address as int, length as int) {
                Err::<usize, DfuError>(DfuError::Address)
            } else if length <= TRANSFER_SIZE {
                Ok(length)
            } else {
                Ok(TRANSFER_SIZE)
            },
    {
        if !Self::contains_range(address, length) {
            return Err(DfuError::Address);
        }
        if length <= TRANSFER_SIZE {
            Ok(length)
        } else {
            Ok(TRANSFER_SIZE)
        }
    }

    /// Takes the bytes that a read found; they pass through the transfer buffer.
    pub fn complete_read(&mut self, bytes: &[u8])
        requires
            old(self).wf(),
            bytes@.len() <= TRANSFER_SIZE,
        ensures
            final(self).wf(),
            final(self).cells() == bytes@ + old(self).cells().skip(bytes@.len() as int),
            final(self).stored() == old(self).stored(),
            final(self).mapped() == old(self).mapped(),
            final(self).wrote() == old(self).wrote(),
    {
        self.fill_from(bytes);
    }

    /// Burns the first `length` bytes of the buffer to `address`, page by page.
    pub fn program(&mut self, address: u32, length: usize) -> (r: Result<
        Vec<FlashCommand>,
        DfuError,
    >)
        requires
            old(self).wf(),
        ensures
            final(self).wf(),
            final(self).wrote(),
            final(self).cells() == old(self).cells(),
            final(self).stored() == old(self).stored(),
            r is Ok <==> range_in_window(address as int, length as int) && length <= old(
                self,
            ).stored(),
            r matches Err(e) ==> final(self).mapped() == old(self).mapped() && e == if range_in_window(
                address as int,
                length as int,
            ) {
                DfuError::Prog
            } else {
                DfuError::Address
            },
            r matches Ok(cmds) ==> {
                let h = indirect_commands(old(self).mapped());
                &&& h.is_prefix_of(cmds@)
                &&& programs(
                    cmds@.skip(h.len() as int),
                    pieces(address - FLASH_BASE, old(self).cells().take(length as int)),
                )
                &&& pages_fit(cmds@)
            },
            r matches Ok(cmds) ==> !final(self).mapped() && forall|c: Chip|
                old(self).matches(c) ==> {
                    let d = #[trigger] chip::chip_after(c, cmds@);
                    &&& final(self).matches(d)
                    &&& d.quad == c.quad
                    &&& d.mem == chip::burned(
                        c.mem,
                        address - FLASH_BASE,
                        old(self).cells().take(length as int),
                    )
                },
    {
        self.saw_write = true;
        if !Self::contains_range(address, length) {
            return Err(DfuError::Address);
        }
        if length > self.buffer_len {
            return Err(DfuError::Prog);
        }
        let ghost before = *self;
        let mut cmds = self.ensure_indirect_mode();
        let ghost head = cmds@;
        let offset: u32 = address - FLASH_BASE;
        let mut written: usize = 0;
        let ghost whole = self.cells().take(length as int);
        let ghost mut done = Seq::<(int, Seq<u8>)>::empty();
        proof {
            assert(head + cmds@.skip(head.len() as int) =~= cmds@);
            assert(whole.skip(0) =~= whole);
            assert(done + pieces(offset as int, whole) =~= pieces(offset as int, whole));
            assert forall|c: Chip| old(self).matches(c) implies {
                let d = #[trigger] chip::chip_after(c, cmds@);
                &&& chip::single_line(d)
                &&& d.quad == c.quad
                &&& d.mem == chip::burned(c.mem, offset as int, old(self).cells().take(0))
            } by {
                assert(before.matches(c));
                let d = chip::chip_after(c, cmds@);
                assert(self.matches(d));
                assert(chip::burned(c.mem, offset as int, old(self).cells().take(0)) =~= c.mem);
            }
        }
        while written < length
            invariant
                self.wf(),
                !self.mapped(),
                self.wrote(),
                self.cells() == old(self).cells(),
                self.stored() == old(self).stored(),
                self.buffer@ == old(self).cells(),
                written <= length <= TRANSFER_SIZE,
                offset + length <= FLASH_SIZE,
                whole == old(self).cells().take(length as int),
                old(self).cells().len() == TRANSFER_SIZE,
                head.is_prefix_of(cmds@),
                programs(cmds@.skip(head.len() as int), done),
                pages_fit(cmds@),
                done + pieces(offset + written, whole.skip(written as int)) == pieces(
                    offset as int,
                    whole,
                ),
                forall|c: Chip|
                    old(self).matches(c) ==> {
                        let d = #[trigger] chip::chip_after(c, cmds@);
                        &&& chip::single_line(d)
                        &&& d.quad == c.quad
                        &&& d.mem == chip::burned(
                            c.mem,
                            offset as int,
                            old(self).cells().take(written as int),
                        )
                    },
            decreases length - written,
        {
            let this_flash: u32 = offset + written as u32;
            let page_bound: usize = PAGE_SIZE - (this_flash % 256) as usize;
            let this_len: usize = if page_bound < length - written {
                page_bound
            } else {
                length - written
            };
            let mut piece: Vec<u8> = Vec::new();
            let mut i: usize = 0;
            while i < this_len
                invariant
                    i <= this_len,
                    written + this_len <= TRANSFER_SIZE,
                    self.buffer@ == old(self).cells(),
                    piece@ =~= old(self).cells().subrange(written as int, written + i),
                decreases this_len - i,
            {
                piece.push(self.buffer[written + i]);
                i = i + 1;
            }
            let ghost so_far = cmds@;
            let ghost bytes = piece@;
            program_page(&mut cmds, this_flash, piece);
            proof {
                let old_cells = old(self).cells();
                let rest = whole.skip(written as int);
                let h = head.len() as int;
                assert(bytes =~= rest.take(this_len as int));
                assert(whole.skip(written + this_len) =~= rest.skip(this_len as int));
                let more = done.push((this_flash as int, bytes));
                assert(more + pieces(offset + written + this_len, rest.skip(this_len as int))
                    =~= done + pieces(offset + written, rest));
                let sent = cmds@.skip(h);
                let before = so_far.skip(h);
                assert forall|k: int| 0 <= k < more.len() implies #[trigger] programs_piece(
                    sent,
                    k,
                    more[k],
                ) by {
                    if k < done.len() {
                        assert(programs_piece(before, k, done[k]));
                        assert(sent[3 * k] == before[3 * k]);
                        assert(sent[3 * k + 1] == before[3 * k + 1]);
                        assert(sent[3 * k + 2] == before[3 * k + 2]);
                    } else {
                        assert(sent[3 * k] == cmds@[so_far.len() as int]);
                        assert(sent[3 * k + 1] == cmds@[so_far.len() as int + 1]);
                        assert(sent[3 * k + 2] == cmds@[so_far.len() as int + 2]);
                    }
                }
                done = more;
                assert forall|c: Chip| old(self).matches(c) implies {
                    let d = #[trigger] chip::chip_after(c, cmds@);
                    &&& chip::single_line(d)
                    &&& d.quad == c.quad
                    &&& d.mem == chip::burned(
                        c.mem,
                        offset as int,
                        old_cells.take(written + this_len),
                    )
                } by {
                    let b = chip::chip_after(c, so_far);
                    assert(chip::single_line(b));
                    chip::lemma_burned_concat(
                        c.mem,
                        offset as int,
                        old_cells.take(written as int),
                        bytes,
                    );
                    assert(old_cells.take(written as int) + bytes =~= old_cells.take(
                        written + this_len,
                    ));
                }
            }
            written = written + this_len;
        }
        assert(pieces(offset + written, whole.skip(written as int)) =~= Seq::empty());
        assert(done =~= pieces(offset as int, whole));
        Ok(cmds)
    }

    /// Erases the sector that holds `address`.
    pub fn erase(&mut self, address: u32) -> (r: Result<Vec<FlashCommand>, DfuError>)
        requires
            old(self).wf(),
        ensures
            final(self).wf(),
            final(self).wrote(),
            final(self).cells() == old(self).cells(),
            final(self).stored() == old(self).stored(),
            r is Ok <==> in_window(address as int),
            r matches Err(e) ==> e == DfuError::Address && final(self).mapped() == old(
                self,
            ).mapped(),
            r matches Ok(cmds) ==> cmds@ == indirect_commands(old(self).mapped())
                + qspi::erase_commands((address - FLASH_BASE) as u32),
            r matches Ok(cmds) ==> !final(self).mapped() && forall|c: Chip|
                old(self).matches(c) ==> {
                    let d = #[trigger] chip::chip_after(c, cmds@);
                    &&& final(self).matches(d)
                    &&& d.quad == c.quad
                    &&& d.mem == chip::sector_erased(c.mem, address - FLASH_BASE)
                },
    {
        self.saw_write = true;
        if !Self::contains(address) {
            return Err(DfuError::Address);
        }
        let ghost before = *self;
        let mut cmds = self.ensure_indirect_mode();
        let ghost so_far = cmds@;
        erase_sector_4k(&mut cmds, address - FLASH_BASE);
        proof {
            assert forall|c: Chip| old(self).matches(c) implies {
                let d = #[trigger] chip::chip_after(c, cmds@);
                &&& self.matches(d)
                &&& d.quad == c.quad
                &&& d.mem == chip::sector_erased(c.mem, address - FLASH_BASE)
            } by {
                assert(before.matches(c));
                let b = chip::chip_after(c, so_far);
                assert(self.matches(b));
            }
        }
        Ok(cmds)
    }

    /// Erases the whole chip, sector by sector.
    pub fn erase_all(&mut self) -> (cmds: Vec<FlashCommand>)
        requires
            old(self).wf(),
        ensures
            final(self).wf(),
            final(self).wrote(),
            !final(self).mapped(),
            final(self).cells() == old(self).cells(),
            final(self).stored() == old(self).stored(),
            cmds@ == indirect_commands(old(self).mapped()) + sector_commands(2048),
            forall|c: Chip|
                old(self).matches(c) ==> {
                    let d = #[trigger] chip::chip_after(c, cmds@);
                    &&& final(self).matches(d)
                    &&& d.quad == c.quad
                    &&& forall|a: int| 0 <= a < FLASH_SIZE ==> d.mem[a] == 0xFF
                },
    {
        self.saw_write = true;
        let ghost before = *self;
        let mut cmds = self.ensure_indirect_mode();
        let ghost head = cmds@;
        let mut offset: u32 = 0;
        proof {
            assert(head + sector_commands(0) =~= head);
            assert forall|c: Chip| old(self).matches(c) implies {
                let d = #[trigger] chip::chip_after(c, cmds@);
                &&& chip::single_line(d)
                &&& d.quad == c.quad
            } by {
                assert(before.matches(c));
                assert(self.matches(chip::chip_after(c, cmds@)));
            }
        }
        while offset < FLASH_SIZE
            invariant
                self.wf(),
                !self.mapped(),
                self.wrote(),
                self.cells() == old(self).cells(),
                self.stored() == old(self).stored(),
                offset <= FLASH_SIZE,
                offset % 4096 == 0,
                cmds@ == head + sector_commands((offset / 4096) as nat),
                forall|c: Chip|
                    old(self).matches(c) ==> {
                        let d = #[trigger] chip::chip_after(c, cmds@);
                        &&& chip::single_line(d)
                        &&& d.quad == c.quad
                        &&& forall|a: int| 0 <= a < offset ==> d.mem[a] == 0xFF
                    },
            decreases FLASH_SIZE - offset,
        {
            let ghost so_far = cmds@;
            erase_sector_4k(&mut cmds, offset);
            proof {
                let n = (offset / 4096) as nat;
                assert(4096 * n == offset);
                assert((offset + 4096) / 4096 == n + 1);
                assert(cmds@ =~= head + sector_commands(n + 1));
                assert forall|c: Chip| old(self).matches(c) implies {
                    let d = #[trigger] chip::chip_after(c, cmds@);
                    &&& chip::single_line(d)
                    &&& d.quad == c.quad
                    &&& forall|a: int| 0 <= a < offset + 4096 ==> d.mem[a] == 0xFF
                } by {
                    let b = chip::chip_after(c, so_far);
                    let d = chip::chip_after(c, cmds@);
                    assert(chip::single_line(b));
                    assert forall|a: int| 0 <= a < offset + 4096 implies d.mem[a] == 0xFF by {
                        if a >= offset {
                            assert(a / 4096 == offset as int / 4096);
                        } else {
                            assert(b.mem[a] == 0xFF);
                        }
                    }
                }
            }
            offset = offset + SECTOR_SIZE;
        }
        cmds
    }
}

/// The bytes of the pieces, one after another.
pub open spec fn joined(parts: Seq<(int, Seq<u8>)>) -> Seq<u8>
    decreases parts.len(),
{
    if parts.len() == 0 {
        Seq::empty()
    } else {
        parts[0].1 + joined(parts.skip(1))
    }
}

proof fn lemma_pieces(offset: int, data: Seq<u8>)
    requires
        0 <= offset,
    ensures
        joined(pieces(offset, data)) == data,
        data.len() > 0 ==> pieces(offset, data).len() > 0 && pieces(offset, data)[0].0 == offset,
        forall|k: int|
            #![trigger pieces(offset, data)[k]]
            0 <= k < pieces(offset, data).len() ==> {
                let (at, bytes) = pieces(offset, data)[k];
                &&& bytes.len() >= 1
                &&& at % 256 + bytes.len() <= 256
                &&& k + 1 < pieces(offset, data).len() ==> pieces(offset, data)[k + 1].0 == at
                    + bytes.len()
            },
    decreases data.len(),
{
    let n = piece_len(offset, data.len() as int);
    let parts = pieces(offset, data);
    if data.len() == 0 {
        assert(joined(parts) =~= data);
    } else {
        let rest = pieces(offset + n, data.skip(n));
        lemma_pieces(offset + n, data.skip(n));
        assert(parts.skip(1) =~= rest);
        assert(data.take(n) + data.skip(n) =~= data);
        assert forall|k: int| #![trigger parts[k]] 0 <= k < parts.len() implies {
            let (at, bytes) = parts[k];
            &&& bytes.len() >= 1
            &&& at % 256 + bytes.len() <= 256
            &&& k + 1 < parts.len() ==> parts[k + 1].0 == at + bytes.len()
        } by {
            if k > 0 {
                assert(parts[k] == rest[k - 1]);
                if k + 1 < parts.len() {
                    assert(parts[k + 1] == rest[k]);
                }
            } else if 1 < parts.len() {
                assert(parts[1] == rest[0]);
                assert(data.skip(n).len() > 0);
            }
        }
    }
}

/// Page by page, a program sends the block that was stored last: with the buffer
/// as the store left it, the pieces join to the block's first `length` bytes, lie
/// end to end from the address on, and each is non-empty and inside one page.
pub proof fn law_programs_send_the_stored_block(
    before: Seq<u8>,
    src: Seq<u8>,
    address: int,
    length: int,
)
    requires
        0 <= length <= src.len(),
        range_in_window(address, length),
    ensures
        ({
            let cells = src + before.skip(src.len() as int);
            let parts = pieces(address - FLASH_BASE, cells.take(length));
            &&& joined(parts) == src.take(length)
            &&& length > 0 ==> parts.len() > 0 && parts[0].0 == address - FLASH_BASE
            &&& forall|k: int|
                #![trigger parts[k]]
                0 <= k < parts.len() ==> {
                    &&& parts[k].1.len() >= 1
                    &&& parts[k].0 % 256 + parts[k].1.len() <= 256
                    &&& k + 1 < parts.len() ==> parts[k + 1].0 == parts[k].0 + parts[k].1.len()
                }
        }),
{
    let cells = src + before.skip(src.len() as int);
    assert(cells.take(length) =~= src.take(length));
    lemma_pieces(address - FLASH_BASE, cells.take(length));
}

/// What a download writes, an upload reads back: where the cells of the range
/// have been erased, programming leaves exactly its bytes at the address.
pub proof fn law_download_reads_back(mem: Seq<u8>, address: int, data: Seq<u8>)
    requires
        mem.len() == FLASH_SIZE,
        range_in_window(address, data.len() as int),
        forall|a: int|
            address - FLASH_BASE <= a < address - FLASH_BASE + data.len() ==> mem[a] == 0xFF,
    ensures
        chip::burned(mem, address - FLASH_BASE, data).subrange(
            address - FLASH_BASE,
            address - FLASH_BASE + data.len(),
        ) == data,
{
    chip::law_erased_cells_take_what_is_written(mem, address - FLASH_BASE, data);
}

/// Erasing the sectors of a range, in any order and whatever else is erased,
/// leaves its cells ready to be programmed.
pub proof fn law_erased_sectors_are_blank(mem: Seq<u8>, addresses: Seq<int>, a: int)
    requires
        0 <= a < mem.len(),
        exists|k: int| 0 <= k < addresses.len() && #[trigger] addresses[k] / 4096 == a / 4096,
    ensures
        sectors_erased(mem, addresses)[a] == 0xFF,
        sectors_erased(mem, addresses).len() == mem.len(),
    decreases addresses.len(),
{
    let rest = addresses.drop_last();
    lemma_sectors_erased_len(mem, rest);
    if addresses.last() / 4096 != a / 4096 {
        let k = choose|k: int|
            0 <= k < addresses.len() && #[trigger] addresses[k] / 4096 == a / 4096;
        assert(rest[k] / 4096 == a / 4096);
        law_erased_sectors_are_blank(mem, rest, a);
    }
}

/// The memory after erasing the sectors that hold some offsets, one by one.
pub open spec fn sectors_erased(mem: Seq<u8>, addresses: Seq<int>) -> Seq<u8>
    decreases addresses.len(),
{
    if addresses.len() == 0 {
        mem
    } else {
        chip::sector_erased(sectors_erased(mem, addresses.drop_last()), addresses.last())
    }
}

proof fn lemma_sectors_erased_len(mem: Seq<u8>, addresses: Seq<int>)
    ensures
        sectors_erased(mem, addresses).len() == mem.len(),
    decreases addresses.len(),
{
    if addresses.len() > 0 {
        lemma_sectors_erased_len(mem, addresses.drop_last());
    }
}

/// A program touches only its own range, and an erase only its own sector.
pub proof fn law_writes_stay_in_their_range(mem: Seq<u8>, offset: int, data: Seq<u8>, a: int)
    requires
        0 <= a < mem.len(),
    ensures
        !(offset <= a < offset + data.len()) ==> chip::burned(mem, offset, data)[a] == mem[a],
        a / 4096 != offset / 4096 ==> chip::sector_erased(mem, offset)[a] == mem[a],
{
}

/// The window is the eight megabytes from its base on; a range may end at its end.
pub proof fn law_window_is_eight_megabytes(addr: int, len: int)
    requires
        len >= 0,
    ensures
        in_window(addr) <==> 0 <= addr - 0x9000_0000 < 8 * 1024 * 1024,
        range_in_window(addr, len) <==> 0x9000_0000 <= addr && addr + len <= 0x9000_0000 + 8 * 1024
            * 1024,
{
}

/// A full erase visits every sector once, from the first on: sector `k` is enabled,
/// erased and waited for.
pub proof fn law_full_erase_visits_every_sector(n: nat, k: int)
    requires
        0 <= k < n <= 2048,
    ensures
        sector_commands(n).len() == 3 * n,
        sector_commands(n)[3 * k] == FlashCommand::WriteEnable,
        sector_commands(n)[3 * k + 1] == (FlashCommand::EraseSector { addr: (4096 * k) as u32 }),
        sector_commands(n)[3 * k + 2] == FlashCommand::AwaitReady,
    decreases n,
{
    lemma_sector_commands_len((n - 1) as nat);
    lemma_sector_commands_len(n);
    if k < n - 1 {
        law_full_erase_visits_every_sector((n - 1) as nat, k);
    }
}

proof fn lemma_sector_commands_len(n: nat)
    ensures
        sector_commands(n).len() == 3 * n,
    decreases n,
{
    if n > 0 {
        lemma_sector_commands_len((n - 1) as nat);
    }
}

/// A piece ends with the data or with its page, whichever comes first.
pub proof fn law_pieces_end_with_page_or_data(offset: int, len: int)
    requires
        offset >= 0,
        len > 0,
    ensures
        1 <= piece_len(offset, len) <= len,
        offset % 256 + piece_len(offset, len) <= 256,
        piece_len(offset, len) == len || (offset + piece_len(offset, len)) % 256 == 0,
{
}

/// Each piece takes three commands: the latch is set, the piece is sent to its
/// place, and its end is waited for. There are no others.
pub proof fn law_each_piece_is_programmed(
    cmds: Seq<FlashCommand>,
    parts: Seq<(int, Seq<u8>)>,
    k: int,
)
    requires
        programs(cmds, parts),
        0 <= k < parts.len(),
    ensures
        cmds.len() == 3 * parts.len(),
        cmds[3 * k] == FlashCommand::WriteEnable,
        cmds[3 * k + 1] is ProgramPage,
        cmds[3 * k + 1]->ProgramPage_addr == parts[k].0,
        cmds[3 * k + 1]->ProgramPage_data@ == parts[k].1,
        cmds[3 * k + 2] == FlashCommand::AwaitReady,
{
    assert(programs_piece(cmds, k, parts[k]));
}

/// The window holds 2048 sectors of four kilobytes, which is all of the chip; a
/// transfer fills half a page, and writing starts at the window's base.
pub proof fn law_window_is_the_whole_chip()
    ensures
        FLASH_BASE == 0x9000_0000,
        FLASH_END - FLASH_BASE == 2048 * 4096,
        FLASH_END - FLASH_BASE == FLASH_SIZE,
        TRANSFER_SIZE * 2 == 256,
        INITIAL_ADDRESS_POINTER == FLASH_BASE,
        PROGRAM_TIME_MS == 2 && ERASE_TIME_MS == 50 && FULL_ERASE_TIME_MS == 95_000,
        MEM_INFO_STRING@ == "@External Flash /0x90000000/2048*04Kg"@,
{
}

} // verus!
