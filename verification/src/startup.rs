//! What an application does before and instead of its `main`: memory
//! protection, the cycle counter, and the patterns that faults blink.
use crate::boot::flow;
use crate::boot::flow::{pulse_pattern, LedStep};
use crate::mmio::MmioOp;
use vstd::prelude::*;

verus! {

/// Memory protection unit: control.
pub const MPU_CTRL: u32 = 0xE000_ED94;

/// Memory protection unit: region number.
pub const MPU_RNR: u32 = 0xE000_ED98;

/// Memory protection unit: region base address.
pub const MPU_RBAR: u32 = 0xE000_ED9C;

/// Memory protection unit: region attributes and size.
pub const MPU_RASR: u32 = 0xE000_EDA0;

/// Debug exception and monitor control (trace enable is bit 24).
pub const DEMCR: u32 = 0xE000_EDFC;

/// Cycle counter control (enable is bit 0).
pub const DWT_CTRL: u32 = 0xE000_1000;

/// System handler control (memory fault enable is bit 16).
pub const SHCSR: u32 = 0xE000_ED24;

/// Configurable fault status.
pub const CFSR: u32 = 0xE000_ED28;

// ---------------------------------------------------------------------------
// Memory protection
// ---------------------------------------------------------------------------

/// A region of two to the `log2_bytes` bytes with its memory attributes, open to
/// every access.
#[derive(Debug, Clone, Copy, PartialEq, Eq, Structural)]
pub struct Region {
    pub base: u32,
    pub log2_bytes: u32,
    /// Type extension.
    pub tex: u32,
    /// Shareable.
    pub s: bool,
    /// Cacheable.
    pub c: bool,
    /// Bufferable.
    pub b: bool,
    /// Never executed from.
    pub xn: bool,
}

/// The bit of a flag.
pub open spec fn bit(b: bool) -> int {
    if b {
        1
    } else {
        0
    }
}

impl Region {
    /// The fields fit the register.
    pub open spec fn wf(&self) -> bool {
        &&& 1 <= self.log2_bytes <= 32
        &&& self.tex < 8
    }

    /// The attribute word: enable, size, attributes, full access.
    pub open spec fn attributes(&self) -> int {
        1 + (self.log2_bytes - 1) * 2 + bit(self.b) * 0x1_0000 + bit(self.c) * 0x2_0000 + bit(
            self.s,
        ) * 0x4_0000 + self.tex * 0x8_0000 + 3 * 0x100_0000 + bit(self.xn) * 0x1000_0000
    }
}

/// The accesses that program region `n`.
pub open spec fn region_ops(n: u32, r: Region) -> Seq<MmioOp> {
    seq![
        (MmioOp::Write { addr: MPU_RNR, value: n }),
        (MmioOp::Write { addr: MPU_RBAR, value: r.base }),
        (MmioOp::Write { addr: MPU_RASR, value: r.attributes() as u32 }),
    ]
}

/// Programs region `n`.
pub fn mpu_region(n: u32, r: Region) -> (ops: [MmioOp; 3])
    requires
        r.wf(),
    ensures
        ops@ == region_ops(n, r),
{
    let xn: u32 = if r.xn {
        0x1000_0000
    } else {
        0
    };
    let s: u32 = if r.s {
        0x4_0000
    } else {
        0
    };
    let c: u32 = if r.c {
        0x2_0000
    } else {
        0
    };
    let b: u32 = if r.b {
        0x1_0000
    } else {
        0
    };
    let rasr: u32 = 1 + (r.log2_bytes - 1) * 2 + b + c + s + r.tex * 0x8_0000 + 0x300_0000 + xn;
    let ops = [
        MmioOp::Write { addr: MPU_RNR, value: n },
        MmioOp::Write { addr: MPU_RBAR, value: r.base },
        MmioOp::Write { addr: MPU_RASR, value: rasr },
    ];
    assert(ops@ =~= region_ops(n, r));
    ops
}

/// The attribute word holds every field, each in its own bits.
pub proof fn law_attributes_are_lossless(r: Region)
    requires
        r.wf(),
    ensures
        0 <= r.attributes() <= u32::MAX,
        r.attributes() % 2 == 1,
        r.attributes() / 2 % 32 == r.log2_bytes - 1,
        r.attributes() / 0x1_0000 % 2 == bit(r.b),
        r.attributes() / 0x2_0000 % 2 == bit(r.c),
        r.attributes() / 0x4_0000 % 2 == bit(r.s),
        r.attributes() / 0x8_0000 % 8 == r.tex,
        r.attributes() / 0x100_0000 % 8 == 3,
        r.attributes() / 0x1000_0000 % 2 == bit(r.xn),
{
}

/// How an application sees its memories.
#[derive(Debug, Clone, Copy, PartialEq, Eq, Structural)]
pub enum MemoryMap {
    /// SDRAM cached with write-back, flash with write-through.
    Cached,
    /// As `Cached`, but every SDRAM access reaches the memory itself: a test that
    /// a cache answers would pass on dead cells.
    SdramUncached,
    /// SDRAM cached with write-back; the flash keeps its default attributes.
    DefaultFlash,
}

/// The DMA pool: shared with the DMA controllers, so never cached.
pub open spec fn dma_region() -> Region {
    Region {
        base: 0x3000_0000,
        log2_bytes: 15,
        tex: 1,
        s: true,
        c: false,
        b: false,
        xn: false,
    }
}

/// The SDRAM.
pub open spec fn sdram_region(cached: bool) -> Region {
    if cached {
        Region {
            base: 0xC000_0000,
            log2_bytes: 26,
            tex: 0,
            s: false,
            c: true,
            b: true,
            xn: false,
        }
    } else {
        Region {
            base: 0xC000_0000,
            log2_bytes: 26,
            tex: 1,
            s: true,
            c: false,
            b: false,
            xn: false,
        }
    }
}

/// The backup SRAM: never cached.
pub open spec fn backup_region() -> Region {
    Region {
        base: 0x3880_0000,
        log2_bytes: 12,
        tex: 1,
        s: true,
        c: false,
        b: false,
        xn: false,
    }
}

/// The flash that code executes from.
pub open spec fn flash_region() -> Region {
    Region {
        base: 0x9000_0000,
        log2_bytes: 23,
        tex: 0,
        s: false,
        c: true,
        b: false,
        xn: false,
    }
}

/// The regions of a map, by number.
pub open spec fn regions(map: MemoryMap) -> Seq<Region> {
    match map {
        MemoryMap::Cached => seq![
            dma_region(),
            sdram_region(true),
            backup_region(),
            flash_region(),
        ],
        MemoryMap::SdramUncached => seq![
            dma_region(),
            sdram_region(false),
            backup_region(),
            flash_region(),
        ],
        MemoryMap::DefaultFlash => seq![dma_region(), sdram_region(true), backup_region()],
    }
}

/// The accesses that program the first `n` regions.
pub open spec fn all_region_ops(rs: Seq<Region>, n: nat) -> Seq<MmioOp>
    decreases n,
{
    if n == 0 {
        Seq::empty()
    } else {
        all_region_ops(rs, (n - 1) as nat) + region_ops((n - 1) as u32, rs[n - 1])
    }
}

/// Setting the unit's control word, and letting it take effect.
pub open spec fn control_ops(value: u32) -> Seq<MmioOp> {
    seq![
        (MmioOp::Write { addr: MPU_CTRL, value }),
        MmioOp::Barrier,
        MmioOp::InstructionBarrier,
    ]
}

/// The accesses that set up memory protection: the unit is off while it is
/// programmed, and then on, with the default map behind the regions.
pub open spec fn mpu_ops(map: MemoryMap) -> Seq<MmioOp> {
    control_ops(0) + all_region_ops(regions(map), regions(map).len()) + control_ops(5)
}

fn push_control(ops: &mut Vec<MmioOp>, value: u32)
    ensures
        final(ops)@ == old(ops)@ + control_ops(value),
{
    let ghost before = ops@;
    ops.push(MmioOp::Write { addr: MPU_CTRL, value });
    ops.push(MmioOp::Barrier);
    ops.push(MmioOp::InstructionBarrier);
    assert(ops@ =~= before + control_ops(value));
}

fn push_region(ops: &mut Vec<MmioOp>, n: u32, r: Region)
    requires
        r.wf(),
    ensures
        final(ops)@ == old(ops)@ + region_ops(n, r),
{
    let ghost before = ops@;
    let three = mpu_region(n, r);
    ops.push(three[0]);
    ops.push(three[1]);
    ops.push(three[2]);
    assert(ops@ =~= before + region_ops(n, r));
}

fn sdram_attributes(cached: bool) -> (r: Region)
    ensures
        r == sdram_region(cached),
{
    if cached {
        Region {
            base: 0xC000_0000,
            log2_bytes: 26,
            tex: 0,
            s: false,
            c: true,
            b: true,
            xn: false,
        }
    } else {
        Region {
            base: 0xC000_0000,
            log2_bytes: 26,
            tex: 1,
            s: true,
            c: false,
            b: false,
            xn: false,
        }
    }
}

/// Sets up memory protection. The caches are switched on after that, never
/// before.
pub fn configure_mpu(map: MemoryMap) -> (ops: Vec<MmioOp>)
    ensures
        ops@ == mpu_ops(map),
{
    let mut ops: Vec<MmioOp> = Vec::new();
    push_control(&mut ops, 0);
    let ghost off = ops@;
    let ghost rs = regions(map);
    let cached = match map {
        MemoryMap::SdramUncached => false,
        _ => true,
    };
    push_region(
        &mut ops,
        0,
        Region {
            base: 0x3000_0000,
            log2_bytes: 15,
            tex: 1,
            s: true,
            c: false,
            b: false,
            xn: false,
        },
    );
    push_region(&mut ops, 1, sdram_attributes(cached));
    push_region(
        &mut ops,
        2,
        Region {
            base: 0x3880_0000,
            log2_bytes: 12,
            tex: 1,
            s: true,
            c: false,
            b: false,
            xn: false,
        },
    );
    proof {
        reveal_with_fuel(all_region_ops, 5);
        assert(ops@ =~= off + all_region_ops(rs, 3));
    }
    let flash = match map {
        MemoryMap::DefaultFlash => false,
        _ => true,
    };
    if flash {
        push_region(
            &mut ops,
            3,
            Region {
                base: 0x9000_0000,
                log2_bytes: 23,
                tex: 0,
                s: false,
                c: true,
                b: false,
                xn: false,
            },
        );
        assert(ops@ =~= off + all_region_ops(rs, 4));
    }
    push_control(&mut ops, 5);
    assert(ops@ =~= mpu_ops(map));
    ops
}

/// Bytes of a region.
pub open spec fn size(r: Region) -> int {
    vstd::arithmetic::power2::pow2(r.log2_bytes as nat) as int
}

/// In every map the regions' bases are aligned to their sizes, as the unit
/// demands, no two regions overlap, and what a DMA controller shares with the
/// processor is never cached.
pub proof fn law_memory_maps_are_sound(map: MemoryMap, i: int, j: int)
    requires
        0 <= i < regions(map).len(),
        0 <= j < regions(map).len(),
    ensures
        regions(map)[i].wf(),
        regions(map)[i].base as int % size(regions(map)[i]) == 0,
        i != j ==> regions(map)[i].base + size(regions(map)[i]) <= regions(map)[j].base
            || regions(map)[j].base + size(regions(map)[j]) <= regions(map)[i].base,
        regions(map)[i].s ==> !regions(map)[i].c,
{
    vstd::arithmetic::power2::lemma2_to64();
    assert(0x3000_0000int % 0x8000 == 0);
    assert(0xC000_0000int % 0x400_0000 == 0);
    assert(0x3880_0000int % 0x1000 == 0);
    assert(0x9000_0000int % 0x80_0000 == 0);
    assert(size(dma_region()) == 0x8000);
    assert(size(sdram_region(true)) == 0x400_0000);
    assert(size(sdram_region(false)) == 0x400_0000);
    assert(size(backup_region()) == 0x1000);
    assert(size(flash_region()) == 0x80_0000);
}

/// Only in the map of the memory test do SDRAM accesses bypass the cache.
pub proof fn law_memory_test_reaches_the_cells(map: MemoryMap)
    ensures
        !regions(map)[1].c <==> map == MemoryMap::SdramUncached,
        regions(map)[1].base == 0xC000_0000,
        size(regions(map)[1]) == 64 * 1024 * 1024,
{
    vstd::arithmetic::power2::lemma2_to64();
}

/// Whether the data cache is switched on. Under default attributes of the flash
/// it stays off: speculative reads of the flash through it fault.
pub open spec fn data_cache(map: MemoryMap) -> bool {
    map != MemoryMap::DefaultFlash
}

/// Whether to switch the data cache on; the instruction cache always is.
pub fn enables_dcache(map: MemoryMap) -> (b: bool)
    ensures
        b == data_cache(map),
{
    match map {
        MemoryMap::DefaultFlash => false,
        _ => true,
    }
}

/// The data cache is on only where the flash has a region of its own.
pub proof fn law_data_cache_needs_a_flash_region(map: MemoryMap)
    ensures
        data_cache(map) <==> regions(map).len() == 4 && regions(map)[3] == flash_region(),
{
}

/// Lets memory faults trap to their own handler.
pub fn enable_memfault() -> (op: MmioOp)
    ensures
        op == (MmioOp::Modify { addr: SHCSR, clear: 0, set: 0x1_0000 }),
{
    MmioOp::Modify { addr: SHCSR, clear: 0, set: 0x1_0000 }
}

/// Starts the cycle counter.
pub fn enable_dwt() -> (ops: [MmioOp; 2])
    ensures
        ops@ == seq![
            (MmioOp::Modify { addr: DEMCR, clear: 0, set: 0x100_0000 }),
            (MmioOp::Modify { addr: DWT_CTRL, clear: 0, set: 1 }),
        ],
{
    let ops = [
        MmioOp::Modify { addr: DEMCR, clear: 0, set: 0x100_0000 },
        MmioOp::Modify { addr: DWT_CTRL, clear: 0, set: 1 },
    ];
    assert(ops@ =~= seq![
        (MmioOp::Modify { addr: DEMCR, clear: 0, set: 0x100_0000 }),
        (MmioOp::Modify { addr: DWT_CTRL, clear: 0, set: 1 }),
    ]);
    ops
}

// ---------------------------------------------------------------------------
// Faults
// ---------------------------------------------------------------------------

/// Bit `weight` of a status word, given as its value.
pub open spec fn has(word: u32, weight: int) -> bool {
    word as int / weight % 2 == 1
}

/// Pulses of a hard fault: imprecise bus error 4, precise bus error 3,
/// instruction bus error 2, stacking error 1, anything else 5. The first of
/// these that is set counts.
pub open spec fn hard_fault_count(cfsr: u32) -> int {
    if has(cfsr, 0x400) {
        4
    } else if has(cfsr, 0x200) {
        3
    } else if has(cfsr, 0x100) {
        2
    } else if has(cfsr, 0x1000) {
        1
    } else {
        5
    }
}

/// Pulses of a hard fault.
pub fn hard_fault_pulses(cfsr: u32) -> (n: u32)
    ensures
        n == hard_fault_count(cfsr),
{
    if cfsr / 0x400 % 2 == 1 {
        4
    } else if cfsr / 0x200 % 2 == 1 {
        3
    } else if cfsr / 0x100 % 2 == 1 {
        2
    } else if cfsr / 0x1000 % 2 == 1 {
        1
    } else {
        5
    }
}

/// Pulses of a memory fault: fault address known 4, stacking or unstacking
/// error 3, data access 2, instruction access 1, anything else 5. Only the
/// lowest byte of the status counts.
pub open spec fn memory_fault_count(cfsr: u32) -> int {
    if has(cfsr, 0x80) {
        4
    } else if has(cfsr, 8) || has(cfsr, 16) {
        3
    } else if has(cfsr, 2) {
        2
    } else if has(cfsr, 1) {
        1
    } else {
        5
    }
}

/// Pulses of a memory fault.
pub fn memory_fault_pulses(cfsr: u32) -> (n: u32)
    ensures
        n == memory_fault_count(cfsr),
{
    if cfsr / 0x80 % 2 == 1 {
        4
    } else if cfsr / 8 % 2 == 1 || cfsr / 16 % 2 == 1 {
        3
    } else if cfsr / 2 % 2 == 1 {
        2
    } else if cfsr % 2 == 1 {
        1
    } else {
        5
    }
}

/// Every fault blinks at least once and at most five times.
pub proof fn law_every_fault_is_shown(cfsr: u32)
    ensures
        1 <= hard_fault_count(cfsr) <= 5,
        1 <= memory_fault_count(cfsr) <= 5,
{
}

/// What the indicator shows, over and over, after something went wrong.
#[derive(Debug, Clone, Copy, PartialEq, Eq, Structural)]
pub enum Failing {
    /// A panic: three fast blinks.
    Panic,
    /// A hard fault, with the fault status.
    HardFault { cfsr: u32 },
    /// A memory fault, with the fault status.
    MemoryManagement { cfsr: u32 },
}

/// Pulses, time lit, time dark and gap.
pub open spec fn failing_pattern(f: Failing) -> (int, u32, u32, u32) {
    match f {
        Failing::Panic => (3, 100, 100, 1000),
        Failing::HardFault { cfsr } => (hard_fault_count(cfsr), 400, 400, 1500),
        Failing::MemoryManagement { cfsr } => (memory_fault_count(cfsr), 250, 250, 2000),
    }
}

/// One round of the pattern.
pub fn led_pattern(f: Failing) -> (steps: Vec<LedStep>)
    ensures
        ({
            let p = failing_pattern(f);
            steps@ == Seq::new(
                (2 * p.0 + 1) as nat,
                |i: int| flow::pulse_step(i, p.0, p.1, p.2, p.3),
            )
        }),
{
    match f {
        Failing::Panic => pulse_pattern(3, 100, 100, 1000),
        Failing::HardFault { cfsr } => pulse_pattern(hard_fault_pulses(cfsr), 400, 400, 1500),
        Failing::MemoryManagement { cfsr } => pulse_pattern(
            memory_fault_pulses(cfsr),
            250,
            250,
            2000,
        ),
    }
}

/// Patterns of different kinds of failure differ in their cadence.
pub proof fn law_failures_are_told_apart(f: Failing, g: Failing)
    requires
        failing_pattern(f).1 == failing_pattern(g).1,
    ensures
        f is Panic <==> g is Panic,
        f is HardFault <==> g is HardFault,
        f is MemoryManagement <==> g is MemoryManagement,
{
}

// ---------------------------------------------------------------------------
// The record of a panic
// ---------------------------------------------------------------------------

/// Marks a recorded panic.
pub const PANIC_MAGIC: u32 = 0x5041_4E43;

/// Bytes of the path that are recorded.
pub const PANIC_PATH: usize = 48;

/// The first 48 bytes of a path, filled with zeros.
pub open spec fn recorded_path(file: Seq<u8>) -> Seq<u8> {
    Seq::new(
        48,
        |i: int|
            if i < file.len() {
                file[i]
            } else {
                0
            },
    )
}

/// What is recorded of the path of a file that panicked.
pub fn panic_path(file: &[u8]) -> (p: [u8; 48])
    ensures
        p@ == recorded_path(file@),
{
    let mut p: [u8; 48] = [0; 48];
    let mut i: usize = 0;
    while i < PANIC_PATH && i < file.len()
        invariant
            i <= PANIC_PATH,
            i <= file@.len(),
            forall|j: int| 0 <= j < i ==> p@[j] == file@[j],
            forall|j: int| i <= j < 48 ==> p@[j] == 0,
        decreases PANIC_PATH - i,
    {
        p[i] = file[i];
        i = i + 1;
    }
    assert(p@ =~= recorded_path(file@));
    p
}

// ---------------------------------------------------------------------------
// The template application
// ---------------------------------------------------------------------------

/// The blinks that show that the application was reached.
pub fn arrival_pattern() -> (steps: Vec<LedStep>)
    ensures
        steps@ == Seq::new(11, |i: int| flow::pulse_step(i, 5, 500, 500, 0)),
{
    pulse_pattern(5, 500, 500, 0)
}

/// Step `i` of the pattern of a running template: a second lit, which no
/// failure shows, a second dark, and four fast blinks.
pub open spec fn running_step(i: int) -> LedStep {
    if i < 2 {
        LedStep { on: i == 0, ms: 1000 }
    } else {
        flow::pulse_step(i - 2, 4, 100, 100, 1000)
    }
}

/// One round of the pattern of a running template.
pub fn running_pattern() -> (steps: Vec<LedStep>)
    ensures
        steps@ == Seq::new(11, |i: int| running_step(i)),
{
    let mut steps: Vec<LedStep> = Vec::new();
    steps.push(LedStep { on: true, ms: 1000 });
    steps.push(LedStep { on: false, ms: 1000 });
    let mut blinks = pulse_pattern(4, 100, 100, 1000);
    steps.append(&mut blinks);
    assert(steps@ =~= Seq::new(11, |i: int| running_step(i)));
    steps
}

/// A second of light means that `main` runs: no failure keeps the indicator lit
/// for so long.
pub proof fn law_running_is_told_from_failing(f: Failing)
    ensures
        running_step(0) == (LedStep { on: true, ms: 1000 }),
        failing_pattern(f).1 < 1000,
{
}

/// The regions of a map, by their bases and sizes: the DMA buffers and the backup
/// memory are shared and never cached, the SDRAM is written back and the flash
/// written through where they are cached.
pub proof fn law_regions_of_the_maps(map: MemoryMap)
    ensures
        regions(map).len() == if map == MemoryMap::DefaultFlash {
            3int
        } else {
            4
        },
        regions(map)[0] == (Region {
            base: 0x3000_0000,
            log2_bytes: 15,
            tex: 1,
            s: true,
            c: false,
            b: false,
            xn: false,
        }),
        regions(map)[1].base == 0xC000_0000 && regions(map)[1].log2_bytes == 26,
        map != MemoryMap::SdramUncached ==> regions(map)[1].c && regions(map)[1].b
            && !regions(map)[1].s && regions(map)[1].tex == 0,
        map == MemoryMap::SdramUncached ==> !regions(map)[1].c && !regions(map)[1].b
            && regions(map)[1].s && regions(map)[1].tex == 1,
        regions(map)[2] == (Region {
            base: 0x3880_0000,
            log2_bytes: 12,
            tex: 1,
            s: true,
            c: false,
            b: false,
            xn: false,
        }),
        map != MemoryMap::DefaultFlash ==> regions(map)[3] == (Region {
            base: 0x9000_0000,
            log2_bytes: 23,
            tex: 0,
            s: false,
            c: true,
            b: false,
            xn: false,
        }),
        data_cache(map) <==> map != MemoryMap::DefaultFlash,
{
}

/// Region `i` of a list is programmed by its number, its base and its attributes,
/// in its order.
pub proof fn law_every_region_is_programmed(rs: Seq<Region>, n: nat, i: int)
    requires
        0 <= i < n <= rs.len(),
        n <= 16,
    ensures
        all_region_ops(rs, n).len() == 3 * n,
        all_region_ops(rs, n)[3 * i] == (MmioOp::Write { addr: 0xE000_ED98, value: i as u32 }),
        all_region_ops(rs, n)[3 * i + 1] == (MmioOp::Write { addr: 0xE000_ED9C, value: rs[i].base }),
        all_region_ops(rs, n)[3 * i + 2] == (MmioOp::Write {
            addr: 0xE000_EDA0,
            value: rs[i].attributes() as u32,
        }),
    decreases n,
{
    lemma_region_ops_len(rs, (n - 1) as nat);
    lemma_region_ops_len(rs, n);
    if i < n - 1 {
        law_every_region_is_programmed(rs, (n - 1) as nat, i);
    }
}

proof fn lemma_region_ops_len(rs: Seq<Region>, n: nat)
    ensures
        all_region_ops(rs, n).len() == 3 * n,
    decreases n,
{
    if n > 0 {
        lemma_region_ops_len(rs, (n - 1) as nat);
    }
}

/// The unit is off while it is programmed, and on, with the default map behind it,
/// at the end; both changes take effect before anything else happens.
pub proof fn law_protection_is_off_while_programmed(map: MemoryMap)
    ensures
        mpu_ops(map).len() == 3 * regions(map).len() + 6,
        mpu_ops(map).take(3) == seq![
            (MmioOp::Write { addr: 0xE000_ED94, value: 0 }),
            MmioOp::Barrier,
            MmioOp::InstructionBarrier,
        ],
        mpu_ops(map).skip(mpu_ops(map).len() - 3) == seq![
            (MmioOp::Write { addr: 0xE000_ED94, value: 5 }),
            MmioOp::Barrier,
            MmioOp::InstructionBarrier,
        ],
        mpu_ops(map).subrange(3, 3 + 3 * (regions(map).len() as int)) == all_region_ops(
            regions(map),
            regions(map).len(),
        ),
{
    lemma_region_ops_len(regions(map), regions(map).len());
    let ops = mpu_ops(map);
    assert(ops.take(3) =~= control_ops(0));
    assert(ops.skip(ops.len() - 3) =~= control_ops(5));
    assert(ops.subrange(3, 3 + 3 * (regions(map).len() as int)) =~= all_region_ops(
        regions(map),
        regions(map).len(),
    ));
}

/// Which fault shows how many pulses, by the bits of the fault status: the first
/// in the order given that is set.
pub proof fn law_pulses_name_the_fault(cfsr: u32)
    ensures
        ({
            let b = |n: int| (cfsr as int / n) % 2 == 1;
            &&& hard_fault_count(cfsr) == 4 <==> b(1024)
            &&& hard_fault_count(cfsr) == 3 <==> !b(1024) && b(512)
            &&& hard_fault_count(cfsr) == 2 <==> !b(1024) && !b(512) && b(256)
            &&& hard_fault_count(cfsr) == 1 <==> !b(1024) && !b(512) && !b(256) && b(4096)
            &&& hard_fault_count(cfsr) == 5 <==> !b(1024) && !b(512) && !b(256) && !b(4096)
            &&& memory_fault_count(cfsr) == 4 <==> b(128)
            &&& memory_fault_count(cfsr) == 3 <==> !b(128) && (b(8) || b(16))
            &&& memory_fault_count(cfsr) == 2 <==> !b(128) && !b(8) && !b(16) && b(2)
            &&& memory_fault_count(cfsr) == 1 <==> !b(128) && !b(8) && !b(16) && !b(2) && b(1)
            &&& memory_fault_count(cfsr) == 5 <==> !b(128) && !b(8) && !b(16) && !b(2) && !b(1)
        }),
{
}

/// The rhythm of each failure.
pub proof fn law_failures_have_their_rhythm(f: Failing)
    ensures
        f is Panic ==> failing_pattern(f) == (3int, 100u32, 100u32, 1000u32),
        f matches Failing::HardFault { cfsr } ==> failing_pattern(f) == (
            hard_fault_count(cfsr),
            400u32,
            400u32,
            1500u32,
        ),
        f matches Failing::MemoryManagement { cfsr } ==> failing_pattern(f) == (
            memory_fault_count(cfsr),
            250u32,
            250u32,
            2000u32,
        ),
{
}

/// A recorded path is 48 bytes: the path's beginning, and zeros behind a short one.
pub proof fn law_paths_are_recorded_from_the_front(file: Seq<u8>)
    ensures
        recorded_path(file).len() == 48,
        file.len() >= 48 ==> recorded_path(file) == file.take(48),
        file.len() < 48 ==> recorded_path(file).take(file.len() as int) == file,
        forall|i: int| file.len() <= i < 48 ==> #[trigger] recorded_path(file)[i] == 0,
{
    if file.len() >= 48 {
        assert(recorded_path(file) =~= file.take(48));
    } else {
        assert(recorded_path(file).take(file.len() as int) =~= file);
    }
}

/// The running pattern: a second lit, a second dark, four blinks of a tenth, and a
/// second dark.
pub proof fn law_running_pattern(p: int)
    requires
        0 <= p < 4,
    ensures
        running_step(0) == (LedStep { on: true, ms: 1000 }),
        running_step(1) == (LedStep { on: false, ms: 1000 }),
        running_step(2 + 2 * p) == (LedStep { on: true, ms: 100 }),
        running_step(3 + 2 * p) == (LedStep { on: false, ms: 100 }),
        running_step(10) == (LedStep { on: false, ms: 1000 }),
{
}

/// The registers of the memory protection lie a word apart; those of the faults
/// and of the cycle counter are at their places in the core.
pub proof fn law_core_registers_have_their_places()
    ensures
        MPU_CTRL == 0xE000_ED94,
        MPU_RNR == MPU_CTRL + 4 && MPU_RBAR == MPU_RNR + 4 && MPU_RASR == MPU_RBAR + 4,
        SHCSR == 0xE000_ED24 && CFSR == SHCSR + 4,
        DEMCR == 0xE000_EDFC && DWT_CTRL == 0xE000_1000,
{
}

} // verus!
