use daisy_rs::boot::chip::{FlashCommand, FLASH_SIZE, SECTOR_SIZE};
use daisy_rs::boot::dfu_mem::{dfu_saw_write, DfuError, QspiDfuMem, FLASH_BASE, TRANSFER_SIZE};
use daisy_rs::boot::qspi::{
    configure_pins, enter_memory_mapped, exit_memory_mapped, frame, init_memory_mapped,
    qspi_errata_2_7_4_workaround, recover_flash_to_single_line, reset_flash, status_register,
    wait_while_wip, Ccr, Reg, RegOp, Spin,
};

// A NOR flash that obeys the commands as the chip's data sheet describes them.
struct Chip {
    mem: Vec<u8>,
    quad: bool,
    write_enabled: bool,
    mapped: bool,
    busy: bool,
}

impl Chip {
    fn new() -> Self {
        Chip {
            mem: vec![0; FLASH_SIZE as usize],
            quad: false,
            write_enabled: false,
            mapped: false,
            busy: false,
        }
    }

    fn run(&mut self, cmds: Vec<FlashCommand>) {
        for cmd in &cmds {
            // Every command has register accesses to carry it out.
            assert!(!frame(cmd, 1).is_empty());
            match cmd {
                FlashCommand::WriteEnable => {
                    assert!(!self.busy);
                    self.write_enabled = true;
                }
                FlashCommand::WriteStatus { value } => {
                    assert!(std::mem::take(&mut self.write_enabled));
                    self.busy = true;
                    self.quad = value & 0x40 != 0;
                }
                FlashCommand::EraseSector { addr } => {
                    assert!(std::mem::take(&mut self.write_enabled) && !self.mapped);
                    self.busy = true;
                    let s = (addr / SECTOR_SIZE * SECTOR_SIZE) as usize;
                    self.mem[s..s + SECTOR_SIZE as usize].fill(0xFF);
                }
                FlashCommand::ProgramPage { addr, data } => {
                    assert!(std::mem::take(&mut self.write_enabled) && !self.mapped);
                    assert!(!data.is_empty() && *addr as usize % 256 + data.len() <= 256);
                    self.busy = true;
                    let page = (*addr as usize) & !0xFF;
                    for (i, b) in data.iter().enumerate() {
                        self.mem[page + (*addr as usize + i) % 256] &= b;
                    }
                }
                FlashCommand::AwaitReady => self.busy = false,
                FlashCommand::AbortController => self.mapped = false,
                FlashCommand::MapReads => {
                    assert!(!self.busy);
                    self.mapped = true;
                }
                _ => {}
            }
        }
        // Whatever was written has been waited for.
        assert!(!self.busy);
    }

    fn status(&self) -> u8 {
        if self.quad {
            0x40
        } else {
            0
        }
    }
}

#[test]
fn download_is_read_back() {
    let mut chip = Chip::new();
    let (mut dfu, cmds) = QspiDfuMem::new();
    chip.run(cmds);
    assert!(!dfu_saw_write(&dfu));
    chip.run(dfu.erase(FLASH_BASE).unwrap());
    // A block that crosses a page boundary.
    let block: Vec<u8> = (0..TRANSFER_SIZE as u32).map(|i| (i * 7) as u8).collect();
    dfu.store_write_buffer(&block).unwrap();
    assert!(dfu_saw_write(&dfu));
    let cmds = dfu.program(FLASH_BASE + 200, block.len()).unwrap();
    let pages = cmds.iter().filter(|c| matches!(c, FlashCommand::ProgramPage { .. })).count();
    assert_eq!(pages, 2);
    chip.run(cmds);
    assert_eq!(dfu.read(FLASH_BASE + 200, 500), Ok(TRANSFER_SIZE));
    let cmds = dfu.prepare_mm_mode();
    chip.run(cmds);
    let status = chip.status();
    chip.run(dfu.ensure_mm_mode(status));
    assert!(chip.mapped && chip.quad);
    assert_eq!(&chip.mem[200..200 + block.len()], &block[..]);
    assert_eq!(chip.mem[199], 0xFF);
    assert_eq!(chip.mem[200 + block.len()], 0xFF);
    // The mode is kept: a second read sends nothing.
    assert!(dfu.prepare_mm_mode().is_empty());
    assert!(dfu.ensure_mm_mode(status).is_empty());
    dfu.complete_read(&block);
    chip.run(dfu.ensure_indirect_mode());
    assert!(!chip.mapped);
    assert!(!dfu.release());
}

#[test]
fn requests_outside_the_flash_are_refused() {
    let (mut dfu, _) = QspiDfuMem::new();
    assert_eq!(dfu.erase(0x0800_0000).err(), Some(DfuError::Address));
    assert_eq!(dfu.read(0x9080_0000, 1), Err(DfuError::Address));
    assert_eq!(dfu.program(0x907F_FFFF, 2).err(), Some(DfuError::Address));
    assert_eq!(dfu.program(FLASH_BASE, 1).err(), Some(DfuError::Prog)); // nothing stored
    assert!(dfu.store_write_buffer(&[0; TRANSFER_SIZE + 1]).is_err());
    assert!(QspiDfuMem::contains(0x907F_FFFF));
    assert!(!QspiDfuMem::contains(0x9080_0000));
    assert!(QspiDfuMem::contains_range(0x907F_FFFF, 1));
}

#[test]
fn erase_all_clears_every_sector() {
    let mut chip = Chip::new();
    let (mut dfu, cmds) = QspiDfuMem::new();
    chip.run(cmds);
    let cmds = dfu.erase_all();
    let sectors = cmds.iter().filter(|c| matches!(c, FlashCommand::EraseSector { .. })).count();
    assert_eq!(sectors, 2048);
    chip.run(cmds);
    assert!(chip.mem.iter().all(|&b| b == 0xFF));
}

#[test]
fn quad_enable_is_written_only_once() {
    let writes = |cmds: Vec<FlashCommand>| {
        cmds.iter().filter(|c| matches!(c, FlashCommand::WriteStatus { .. })).count()
    };
    assert_eq!(writes(enter_memory_mapped(0x00)), 1);
    assert_eq!(writes(enter_memory_mapped(0x40)), 0);
    assert!(matches!(exit_memory_mapped(), FlashCommand::AbortController));
    assert!(reset_flash().iter().any(|c| matches!(c, FlashCommand::ResetMemory)));
    assert!(recover_flash_to_single_line().len() > reset_flash().len());
}

#[test]
fn waits_are_bounded() {
    let mut s = Spin::new(10, 0);
    assert!(!s.spin_until(0));
    assert!(s.spin_until(u32::MAX / 2));
    assert!(wait_while_wip(0x40));
    assert!(!wait_while_wip(0x01));
}

#[test]
fn register_words_are_packed() {
    // Page program: one-line instruction, one-line 24-bit address, one-line data.
    let ccr = Ccr {
        fmode: 0,
        dmode: 1,
        dcyc: 0,
        abmode: 0,
        adsize: 2,
        admode: 1,
        imode: 1,
        instruction: 0x02,
        sioo: false,
    };
    assert_eq!(ccr.bits(), 0x0100_2502);
    let data = vec![1, 2, 3, 4, 5];
    let ops = frame(&FlashCommand::ProgramPage { addr: 0x123, data }, 0);
    assert!(ops.contains(&RegOp::Write { reg: Reg::Dlr, value: 4 }));
    assert!(ops.contains(&RegOp::Write { reg: Reg::Ar, value: 0x123 }));
    assert!(ops.contains(&RegOp::Write { reg: Reg::Dr, value: 0x0403_0201 }));
    assert_eq!(configure_pins().len(), 6);
    assert_eq!(init_memory_mapped().len(), 3);
    assert_eq!(status_register().len(), 3);
    let waits = qspi_errata_2_7_4_workaround()
        .iter()
        .filter(|op| matches!(op, RegOp::AwaitClear { reg: Reg::Sr, timeout_us: 20_000, .. }))
        .count();
    assert_eq!(waits, 2);
}

#[test]
fn registers_have_their_addresses() {
    assert_eq!(Reg::Cr.address(), 0x5200_5000);
    assert_eq!(Reg::Sr.address(), 0x5200_5008);
    assert_eq!(Reg::Ccr.address(), 0x5200_5014);
    assert_eq!(Reg::Dr.address(), 0x5200_5020);
}

#[test]
fn programs_are_cut_at_the_pages() {
    let (mut dfu, _) = QspiDfuMem::new();
    let block: Vec<u8> = (0..100).collect();
    dfu.store_write_buffer(&block).unwrap();
    let cmds = dfu.program(FLASH_BASE + 0x1F0, 100).unwrap();
    let pages: Vec<(u32, Vec<u8>)> = cmds
        .iter()
        .filter_map(|c| match c {
            FlashCommand::ProgramPage { addr, data } => Some((*addr, data.clone())),
            _ => None,
        })
        .collect();
    assert_eq!(pages, [(0x1F0, block[..16].to_vec()), (0x200, block[16..].to_vec())]);
    assert_eq!(cmds.len(), 6);
}
