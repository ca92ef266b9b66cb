//! External SDRAM: the memory controller's register values, and the bring-up
//! sequence.
use crate::mmio;
use crate::mmio::MmioOp;
use vstd::prelude::*;

verus! {

/// Geometry and timing of an SDRAM, timings in memory clock cycles.
#[derive(Clone, Copy, Debug, PartialEq, Eq, Structural)]
pub struct SdramConfig {
    pub column_bits: u8,
    pub row_bits: u8,
    pub data_width: u8,
    pub internal_banks: u8,
    pub cas_latency: u8,
    pub sdclk_divider: u8,
    pub read_burst: bool,
    pub read_pipe_delay: u8,
    /// Load-mode-register to active.
    pub t_mrd: u8,
    /// Exit-self-refresh to active.
    pub t_xsr: u8,
    /// Self-refresh (least row-active) time.
    pub t_ras: u8,
    /// Row cycle.
    pub t_rc: u8,
    /// Write recovery.
    pub t_wr: u8,
    /// Row precharge.
    pub t_rp: u8,
    /// Row to column.
    pub t_rcd: u8,
    pub auto_refresh_cycles: u8,
    pub refresh_count: u16,
}

/// The board's memory: 64 MiB, 32 bits wide, at 100 MHz.
pub open spec fn seed_config() -> SdramConfig {
    SdramConfig {
        column_bits: 9,
        row_bits: 13,
        data_width: 32,
        internal_banks: 4,
        cas_latency: 3,
        sdclk_divider: 2,
        read_burst: true,
        read_pipe_delay: 0,
        t_mrd: 2,
        t_xsr: 7,
        t_ras: 5,
        t_rc: 8,
        t_wr: 3,
        t_rp: 16,
        t_rcd: 10,
        auto_refresh_cycles: 4,
        refresh_count: 0x2F9,
    }
}

/// The board's memory.
pub fn seed() -> (c: SdramConfig)
    ensures
        c == seed_config(),
{
    SdramConfig {
        column_bits: 9,
        row_bits: 13,
        data_width: 32,
        internal_banks: 4,
        cas_latency: 3,
        sdclk_divider: 2,
        read_burst: true,
        read_pipe_delay: 0,
        t_mrd: 2,
        t_xsr: 7,
        t_ras: 5,
        t_rc: 8,
        t_wr: 3,
        t_rp: 16,
        t_rcd: 10,
        auto_refresh_cycles: 4,
        refresh_count: 0x2F9,
    }
}

/// Where the memory appears in the address map.
pub const BASE_ADDRESS: u32 = 0xC000_0000;

/// Its size.
pub const SIZE_BYTES: u32 = 0x0400_0000;

impl SdramConfig {
    /// Rows and columns are not below the least that the controller encodes.
    pub open spec fn geometry_encodable(&self) -> bool {
        self.column_bits >= 8 && self.row_bits >= 11
    }

    /// No timing is zero.
    pub open spec fn timings_encodable(&self) -> bool {
        &&& self.t_mrd >= 1
        &&& self.t_xsr >= 1
        &&& self.t_ras >= 1
        &&& self.t_rc >= 1
        &&& self.t_wr >= 1
        &&& self.t_rp >= 1
        &&& self.t_rcd >= 1
    }

    /// Value of the control register: each field at its place.
    pub open spec fn control_value(&self) -> int {
        (self.column_bits - 8) % 4 + ((self.row_bits - 11) % 4) * 4 + (if self.data_width == 8 {
            0int
        } else if self.data_width == 16 {
            1
        } else {
            2
        }) * 16 + (if self.internal_banks == 4 {
            64int
        } else {
            0
        }) + (self.cas_latency as int % 4) * 128 + (self.sdclk_divider as int % 4) * 1024 + (
        if self.read_burst {
            4096int
        } else {
            0
        }) + (self.read_pipe_delay as int % 4) * 8192
    }

    /// Value of the timing register: each timing less one, four bits each.
    pub open spec fn timing_value(&self) -> int {
        (self.t_mrd - 1) % 16 + ((self.t_xsr - 1) % 16) * 0x10 + ((self.t_ras - 1) % 16) * 0x100 + (
        (self.t_rc - 1) % 16) * 0x1000 + ((self.t_wr - 1) % 16) * 0x1_0000 + ((self.t_rp - 1) % 16)
            * 0x10_0000 + ((self.t_rcd - 1) % 16) * 0x100_0000
    }

    /// Value of the memory's mode register: burst of four, the latency, single
    /// writes.
    pub open spec fn mode_value(&self) -> int {
        2 + (self.cas_latency as int % 8) * 16 + 512
    }

    /// Control register of the memory controller's first bank.
    pub fn sdcr1(&self) -> (v: u32)
        requires
            self.geometry_encodable(),
        ensures
            v == self.control_value(),
    {
        let nc: u32 = (self.column_bits - 8) as u32;
        let nr: u32 = (self.row_bits - 11) as u32;
        let mwid: u32 = match self.data_width {
            8 => 0,
            16 => 1,
            _ => 2,
        };
        let nb: u32 = if self.internal_banks == 4 {
            1
        } else {
            0
        };
        let cas: u32 = self.cas_latency as u32;
        let sdclk: u32 = self.sdclk_divider as u32;
        let rburst: u32 = if self.read_burst {
            1
        } else {
            0
        };
        let rpipe: u32 = self.read_pipe_delay as u32;
        nc % 4 + (nr % 4) * 4 + mwid * 16 + nb * 64 + (cas % 4) * 128 + (sdclk % 4) * 1024 + rburst
            * 4096 + (rpipe % 4) * 8192
    }

    /// Timing register of the memory controller's first bank.
    pub fn sdtr1(&self) -> (v: u32)
        requires
            self.timings_encodable(),
        ensures
            v == self.timing_value(),
    {
        (self.t_mrd as u32 - 1) % 16 + ((self.t_xsr as u32 - 1) % 16) * 0x10 + ((self.t_ras as u32
            - 1) % 16) * 0x100 + ((self.t_rc as u32 - 1) % 16) * 0x1000 + ((self.t_wr as u32 - 1)
            % 16) * 0x1_0000 + ((self.t_rp as u32 - 1) % 16) * 0x10_0000 + ((self.t_rcd as u32 - 1)
            % 16) * 0x100_0000
    }

    /// The memory's mode register.
    pub fn mode_register(&self) -> (v: u32)
        ensures
            v == self.mode_value(),
    {
        2 + (self.cas_latency as u32 % 8) * 16 + 512
    }

    /// The mode register in its field of the command register.
    pub fn sdcmr_mrd(&self) -> (v: u32)
        ensures
            v == self.mode_value() * 512,
    {
        self.mode_register() * 512
    }

    /// Refresh timer register.
    pub fn sdrtr(&self) -> (v: u32)
        ensures
            v == (self.refresh_count as int % 8192) * 2,
    {
        (self.refresh_count as u32 % 8192) * 2
    }
}

/// The board's memory is refreshed often enough: the interval, with the cycles
/// that the controller adds, is within a row's share of the refresh period; and
/// its geometry is its size.
pub proof fn law_seed_memory_is_within_its_datasheet()
    ensures
        (seed_config().refresh_count + 20) * 8192 <= 64 * 100_000,
        seed_config().t_ras * 10 >= 42,
        seed_config().geometry_encodable(),
        seed_config().timings_encodable(),
        0x200 * 0x2000 * 4 * 4 == SIZE_BYTES,
        seed_config().column_bits == 9 && seed_config().row_bits == 13 && seed_config().internal_banks == 4 && seed_config().data_width
            == 32,
{
}

// ---------------------------------------------------------------------------
// Bring-up
// ---------------------------------------------------------------------------

/// Kernel clock selection of domain 1.
pub const RCC_D1CCIPR: u32 = 0x5802_444C;

/// Clock enable of the memory controller (bit 12).
pub const RCC_AHB3ENR: u32 = 0x5802_44D4;

/// Clock enable of the GPIO ports.
pub const RCC_AHB4ENR: u32 = 0x5802_44E0;

/// Control register of the first bank.
pub const FMC_SDCR1: u32 = 0x5200_4140;

/// Timing register of the first bank.
pub const FMC_SDTR1: u32 = 0x5200_4148;

/// Command register.
pub const FMC_SDCMR: u32 = 0x5200_4150;

/// Refresh timer register.
pub const FMC_SDRTR: u32 = 0x5200_4154;

/// Status register.
pub const FMC_SDSR: u32 = 0x5200_4158;

/// First GPIO port.
pub const GPIO_BASE: u32 = 0x5802_0000;

/// Distance of the GPIO ports.
pub const GPIO_STRIDE: u32 = 0x400;

/// The controller's pins: GPIO port number and pin mask, by port.
pub open spec fn fmc_pins() -> Seq<(u32, u16)> {
    seq![
        (2u32, 0x0001u16),
        (3u32, 0xC703u16),
        (4u32, 0xFF83u16),
        (5u32, 0xF83Fu16),
        (6u32, 0x8137u16),
        (7u32, 0xFF0Cu16),
        (8u32, 0x06FFu16),
    ]
}

/// Whether a pin is in a mask.
pub open spec fn has_pin(mask: u16, pin: u32) -> bool {
    mask & (1u16 << pin) != 0
}

/// The accesses that give one pin its alternate function 12, at the highest
/// speed and without pull.
pub open spec fn pin_ops(port: u32, pin: u32) -> Seq<MmioOp> {
    let base = (GPIO_BASE + port * GPIO_STRIDE) as u32;
    let two = (pin * 2) as u32;
    seq![
        (MmioOp::Modify { addr: base, clear: 3u32 << two, set: 2u32 << two }),
        (MmioOp::Modify { addr: (base + 0x08) as u32, clear: 0, set: 3u32 << two }),
        (MmioOp::Modify { addr: (base + 0x0C) as u32, clear: 3u32 << two, set: 0 }),
        if pin < 8 {
            MmioOp::Modify {
                addr: (base + 0x20) as u32,
                clear: 0xFu32 << ((pin * 4) as u32),
                set: 12u32 << ((pin * 4) as u32),
            }
        } else {
            MmioOp::Modify {
                addr: (base + 0x24) as u32,
                clear: 0xFu32 << (((pin - 8) * 4) as u32),
                set: 12u32 << (((pin - 8) * 4) as u32),
            }
        },
    ]
}

/// The accesses for the pins of a port below `upto`, in order.
pub open spec fn port_ops(port: u32, mask: u16, upto: nat) -> Seq<MmioOp>
    decreases upto,
{
    if upto == 0 {
        Seq::empty()
    } else {
        let pin = (upto - 1) as u32;
        port_ops(port, mask, (upto - 1) as nat) + if has_pin(mask, pin) {
            pin_ops(port, pin)
        } else {
            Seq::empty()
        }
    }
}

/// Gives the pins of `mask` their alternate function.
pub fn configure_af12(port: u32, mask: u16) -> (ops: Vec<MmioOp>)
    requires
        port < 16,
    ensures
        ops@ == port_ops(port, mask, 16),
{
    let mut ops: Vec<MmioOp> = Vec::new();
    let base: u32 = GPIO_BASE + port * GPIO_STRIDE;
    let mut pin: u32 = 0;
    while pin < 16
        invariant
            pin <= 16,
            port < 16,
            base == GPIO_BASE + port * GPIO_STRIDE,
            ops@ == port_ops(port, mask, pin as nat),
        decreases 16 - pin,
    {
        let ghost before = ops@;
        if mask & (1u16 << pin) != 0 {
            let two: u32 = pin * 2;
            ops.push(MmioOp::Modify { addr: base, clear: 3u32 << two, set: 2u32 << two });
            ops.push(MmioOp::Modify { addr: base + 0x08, clear: 0, set: 3u32 << two });
            ops.push(MmioOp::Modify { addr: base + 0x0C, clear: 3u32 << two, set: 0 });
            if pin < 8 {
                let four: u32 = pin * 4;
                ops.push(
                    MmioOp::Modify { addr: base + 0x20, clear: 0xFu32 << four, set: 12u32 << four },
                );
            } else {
                let four: u32 = (pin - 8) * 4;
                ops.push(
                    MmioOp::Modify { addr: base + 0x24, clear: 0xFu32 << four, set: 12u32 << four },
                );
            }
            assert(ops@ =~= before + pin_ops(port, pin));
        } else {
            assert(before + Seq::<MmioOp>::empty() =~= before);
        }
        pin = pin + 1;
    }
    ops
}

/// The accesses for a list of ports.
pub open spec fn ports_ops(ports: Seq<(u32, u16)>) -> Seq<MmioOp>
    decreases ports.len(),
{
    if ports.len() == 0 {
        Seq::empty()
    } else {
        ports_ops(ports.drop_last()) + port_ops(ports.last().0, ports.last().1, 16)
    }
}

/// Bounded wait until the controller takes a command.
pub open spec fn fmc_ready() -> MmioOp {
    MmioOp::AwaitClear { addr: FMC_SDSR, mask: 0x20, tries: 1_000_000 }
}

/// A command to the first bank.
pub open spec fn command(bits: int) -> MmioOp {
    MmioOp::Write { addr: FMC_SDCMR, value: (bits + 0x10) as u32 }
}

/// Clocks on.
pub open spec fn clock_ops() -> Seq<MmioOp> {
    seq![
        (MmioOp::Modify { addr: RCC_AHB4ENR, clear: 0, set: 0x1FC }),
        (MmioOp::Modify { addr: RCC_AHB3ENR, clear: 0, set: 0x1000 }),
        MmioOp::Barrier,
    ]
}

/// Kernel clock, register values, then the memory's power-up: clock, 200
/// microseconds, precharge all, auto-refresh, load mode, refresh timer.
pub open spec fn power_up_ops(c: SdramConfig) -> Seq<MmioOp> {
    seq![
        (MmioOp::Modify { addr: RCC_D1CCIPR, clear: 3, set: 2 }),
        (MmioOp::Write { addr: FMC_SDCR1, value: c.control_value() as u32 }),
        (MmioOp::Write { addr: FMC_SDTR1, value: c.timing_value() as u32 }),
        fmc_ready(),
        command(1),
        (MmioOp::DelayUs { us: 200 }),
        fmc_ready(),
        command(2),
        fmc_ready(),
        command(3 + (c.auto_refresh_cycles - 1) * 32),
        fmc_ready(),
        command(4 + c.mode_value() * 512),
        fmc_ready(),
        (MmioOp::Write { addr: FMC_SDRTR, value: ((c.refresh_count as int % 8192) * 2) as u32 }),
        fmc_ready(),
    ]
}

/// Brings the board's memory up, given that its kernel clock is running.
pub fn init() -> (ops: Vec<MmioOp>)
    ensures
        ops@ == clock_ops() + ports_ops(fmc_pins()) + power_up_ops(seed_config()),
{
    let ports: [(u32, u16); 7] = [
        (2, 0x0001),
        (3, 0xC703),
        (4, 0xFF83),
        (5, 0xF83F),
        (6, 0x8137),
        (7, 0xFF0C),
        (8, 0x06FF),
    ];
    assert(ports@ =~= fmc_pins());
    let mut ops: Vec<MmioOp> = Vec::new();
    ops.push(MmioOp::Modify { addr: RCC_AHB4ENR, clear: 0, set: 0x1FC });
    ops.push(MmioOp::Modify { addr: RCC_AHB3ENR, clear: 0, set: 0x1000 });
    ops.push(MmioOp::Barrier);
    assert(ops@ =~= clock_ops());
    let mut i: usize = 0;
    assert(fmc_pins().take(0) =~= Seq::empty());
    assert(clock_ops() + Seq::<MmioOp>::empty() =~= clock_ops());
    while i < 7
        invariant
            i <= 7,
            ports@ == fmc_pins(),
            ops@ == clock_ops() + ports_ops(fmc_pins().take(i as int)),
        decreases 7 - i,
    {
        let (port, mask) = ports[i];
        proof {
            assert(fmc_pins()[i as int].0 < 16);
            assert(fmc_pins().take(i + 1).drop_last() =~= fmc_pins().take(i as int));
        }
        let ghost before = ops@;
        let mut more = configure_af12(port, mask);
        let ghost added = more@;
        ops.append(&mut more);
        assert(ops@ =~= before + added);
        assert(ops@ =~= clock_ops() + ports_ops(fmc_pins().take(i + 1)));
        i = i + 1;
    }
    assert(fmc_pins().take(7) =~= fmc_pins());
    let ghost before = ops@;
    let ready = MmioOp::AwaitClear { addr: FMC_SDSR, mask: 0x20, tries: 1_000_000 };
    let c = seed();
    ops.push(MmioOp::Modify { addr: RCC_D1CCIPR, clear: 3, set: 2 });
    ops.push(MmioOp::Write { addr: FMC_SDCR1, value: c.sdcr1() });
    ops.push(MmioOp::Write { addr: FMC_SDTR1, value: c.sdtr1() });
    ops.push(ready);
    ops.push(MmioOp::Write { addr: FMC_SDCMR, value: 0x11 });
    ops.push(MmioOp::DelayUs { us: 200 });
    ops.push(ready);
    ops.push(MmioOp::Write { addr: FMC_SDCMR, value: 0x12 });
    ops.push(ready);
    let nrfs: u32 = (c.auto_refresh_cycles as u32 - 1) * 32;
    ops.push(MmioOp::Write { addr: FMC_SDCMR, value: 0x13 + nrfs });
    ops.push(ready);
    ops.push(MmioOp::Write { addr: FMC_SDCMR, value: 0x14 + c.sdcmr_mrd() });
    ops.push(ready);
    ops.push(MmioOp::Write { addr: FMC_SDRTR, value: c.sdrtr() });
    ops.push(ready);
    assert(ops@ =~= before + power_up_ops(seed_config()));
    ops
}

/// Each field of the control register can be read back from its place.
#[verifier::rlimit(60)]
#[verifier::spinoff_prover]
pub proof fn law_control_register_is_lossless(c: SdramConfig)
    requires
        8 <= c.column_bits <= 11,
        11 <= c.row_bits <= 13,
        c.data_width == 8 || c.data_width == 16 || c.data_width == 32,
        c.internal_banks == 2 || c.internal_banks == 4,
        1 <= c.cas_latency <= 3,
        2 <= c.sdclk_divider <= 3,
        c.read_pipe_delay <= 2,
    ensures
        c.control_value() % 4 + 8 == c.column_bits,
        c.control_value() / 4 % 4 + 11 == c.row_bits,
        c.control_value() / 16 % 4 == if c.data_width == 8 {
            0int
        } else if c.data_width == 16 {
            1
        } else {
            2
        },
        c.control_value() / 64 % 2 == 1 <==> c.internal_banks == 4,
        c.control_value() / 128 % 4 == c.cas_latency,
        c.control_value() / 512 % 2 == 0,
        c.control_value() / 1024 % 4 == c.sdclk_divider,
        c.control_value() / 4096 % 2 == 1 <==> c.read_burst,
        c.control_value() / 8192 == c.read_pipe_delay,
{
    let v = c.control_value();
    let nc = c.column_bits - 8;
    let nr = c.row_bits - 11;
    let mw = if c.data_width == 8 {
        0int
    } else if c.data_width == 16 {
        1
    } else {
        2
    };
    let nb = if c.internal_banks == 4 {
        1int
    } else {
        0
    };
    let cas = c.cas_latency as int;
    let sd = c.sdclk_divider as int;
    let rb = if c.read_burst {
        1int
    } else {
        0
    };
    let rp = c.read_pipe_delay as int;
    mmio::lemma_field(v, 1, 4, 0int, nc, (nr + 4 * (mw + 4 * (nb + 2 * (cas + 4 * (0int + 2 * (sd + 4 * (rb + 2 * (rp + 4 * 0int)))))))));
    mmio::lemma_field(v, 4, 4, (0int + 1 * nc), nr, (mw + 4 * (nb + 2 * (cas + 4 * (0int + 2 * (sd + 4 * (rb + 2 * (rp + 4 * 0int))))))));
    mmio::lemma_field(v, 16, 4, ((0int + 1 * nc) + 4 * nr), mw, (nb + 2 * (cas + 4 * (0int + 2 * (sd + 4 * (rb + 2 * (rp + 4 * 0int)))))));
    mmio::lemma_field(v, 64, 2, (((0int + 1 * nc) + 4 * nr) + 16 * mw), nb, (cas + 4 * (0int + 2 * (sd + 4 * (rb + 2 * (rp + 4 * 0int))))));
    mmio::lemma_field(v, 128, 4, ((((0int + 1 * nc) + 4 * nr) + 16 * mw) + 64 * nb), cas, (0int + 2 * (sd + 4 * (rb + 2 * (rp + 4 * 0int)))));
    mmio::lemma_field(v, 512, 2, (((((0int + 1 * nc) + 4 * nr) + 16 * mw) + 64 * nb) + 128 * cas), 0int, (sd + 4 * (rb + 2 * (rp + 4 * 0int))));
    mmio::lemma_field(v, 1024, 4, ((((((0int + 1 * nc) + 4 * nr) + 16 * mw) + 64 * nb) + 128 * cas) + 512 * 0int), sd, (rb + 2 * (rp + 4 * 0int)));
    mmio::lemma_field(v, 4096, 2, (((((((0int + 1 * nc) + 4 * nr) + 16 * mw) + 64 * nb) + 128 * cas) + 512 * 0int) + 1024 * sd), rb, (rp + 4 * 0int));
    mmio::lemma_field(v, 8192, 4, ((((((((0int + 1 * nc) + 4 * nr) + 16 * mw) + 64 * nb) + 128 * cas) + 512 * 0int) + 1024 * sd) + 4096 * rb), rp, 0int);
}

/// Each timing of one to sixteen cycles can be read back from its four bits.
#[verifier::rlimit(60)]
#[verifier::spinoff_prover]
pub proof fn law_timing_register_is_lossless(c: SdramConfig)
    requires
        1 <= c.t_mrd <= 16 && 1 <= c.t_xsr <= 16 && 1 <= c.t_ras <= 16 && 1 <= c.t_rc <= 16 && 1
            <= c.t_wr <= 16 && 1 <= c.t_rp <= 16 && 1 <= c.t_rcd <= 16,
    ensures
        c.timing_value() % 16 + 1 == c.t_mrd,
        c.timing_value() / 0x10 % 16 + 1 == c.t_xsr,
        c.timing_value() / 0x100 % 16 + 1 == c.t_ras,
        c.timing_value() / 0x1000 % 16 + 1 == c.t_rc,
        c.timing_value() / 0x1_0000 % 16 + 1 == c.t_wr,
        c.timing_value() / 0x10_0000 % 16 + 1 == c.t_rp,
        c.timing_value() / 0x100_0000 + 1 == c.t_rcd,
{
    let v = c.timing_value();
    let mrd = c.t_mrd - 1;
    let xsr = c.t_xsr - 1;
    let ras = c.t_ras - 1;
    let rc = c.t_rc - 1;
    let wr = c.t_wr - 1;
    let rp = c.t_rp - 1;
    let rcd = c.t_rcd - 1;
    assert(mrd % 16 == mrd && xsr % 16 == xsr && ras % 16 == ras && rc % 16 == rc && wr % 16 == wr
        && rp % 16 == rp && rcd % 16 == rcd);
    assert(v == mrd + xsr * 0x10 + ras * 0x100 + rc * 0x1000 + wr * 0x1_0000 + rp * 0x10_0000 + rcd
        * 0x100_0000);
    mmio::lemma_field(v, 1, 16, 0int, mrd, (xsr + 16 * (ras + 16 * (rc + 16 * (wr + 16 * (rp + 16 * (rcd + 16 * 0int)))))));
    mmio::lemma_field(v, 16, 16, (0int + 1 * mrd), xsr, (ras + 16 * (rc + 16 * (wr + 16 * (rp + 16 * (rcd + 16 * 0int))))));
    mmio::lemma_field(v, 256, 16, ((0int + 1 * mrd) + 16 * xsr), ras, (rc + 16 * (wr + 16 * (rp + 16 * (rcd + 16 * 0int)))));
    mmio::lemma_field(v, 4096, 16, (((0int + 1 * mrd) + 16 * xsr) + 256 * ras), rc, (wr + 16 * (rp + 16 * (rcd + 16 * 0int))));
    mmio::lemma_field(v, 65536, 16, ((((0int + 1 * mrd) + 16 * xsr) + 256 * ras) + 4096 * rc), wr, (rp + 16 * (rcd + 16 * 0int)));
    mmio::lemma_field(v, 1048576, 16, (((((0int + 1 * mrd) + 16 * xsr) + 256 * ras) + 4096 * rc) + 65536 * wr), rp, (rcd + 16 * 0int));
    mmio::lemma_field(v, 16777216, 16, ((((((0int + 1 * mrd) + 16 * xsr) + 256 * ras) + 4096 * rc) + 65536 * wr) + 1048576 * rp), rcd, 0int);
}

/// The mode register: bursts of code 2, the latency, single writes.
pub proof fn law_mode_register_holds_the_latency(c: SdramConfig)
    requires
        c.cas_latency <= 7,
    ensures
        c.mode_value() % 16 == 2,
        c.mode_value() / 16 % 8 == c.cas_latency,
        c.mode_value() / 128 == 4,
{
}

/// The power-up keeps the memory's order: its clock, 200 microseconds, precharge
/// all, the auto-refreshes, the mode register, the refresh timer. Before each
/// command, and at the end, the controller is waited for.
pub proof fn law_power_up_keeps_its_order(c: SdramConfig)
    requires
        1 <= c.auto_refresh_cycles <= 16,
        c.cas_latency <= 7,
        c.refresh_count < 8192,
    ensures
        ({
            let ops = power_up_ops(c);
            let ready = MmioOp::AwaitClear { addr: 0x5200_4158, mask: 0x20, tries: 1_000_000 };
            &&& ops.len() == 15
            &&& ops[3] == ready && ops[6] == ready && ops[8] == ready && ops[10] == ready && ops[12]
                == ready && ops[14] == ready
            &&& ops[4] == (MmioOp::Write { addr: 0x5200_4150, value: 0x11 })
            &&& ops[5] == (MmioOp::DelayUs { us: 200 })
            &&& ops[7] == (MmioOp::Write { addr: 0x5200_4150, value: 0x12 })
            &&& ops[9] == (MmioOp::Write {
                addr: 0x5200_4150,
                value: (0x13 + 32 * (c.auto_refresh_cycles - 1)) as u32,
            })
            &&& ops[11] == (MmioOp::Write {
                addr: 0x5200_4150,
                value: (0x14 + 512 * (2 + 16 * c.cas_latency + 512)) as u32,
            })
            &&& ops[13] == (MmioOp::Write { addr: 0x5200_4154, value: (2 * c.refresh_count) as u32 })
        }),
{
}

/// The timings of the board's memory, in cycles of ten nanoseconds, meet the
/// memory's minimums; the refresh interval is as long as they allow.
pub proof fn law_seed_timings()
    ensures
        ({
            let c = seed_config();
            &&& c.t_mrd * 10 >= 12 && c.t_xsr * 10 >= 60 && c.t_ras * 10 >= 42 && c.t_rc * 10 >= 60
            &&& c.t_wr * 10 >= 12 && c.t_rp * 10 >= 18 && c.t_rcd * 10 >= 18
            &&& c.cas_latency == 3 && c.sdclk_divider == 2
            &&& (c.refresh_count + 20) * 8192 <= 6_400_000 < (c.refresh_count + 21) * 8192
            &&& c.control_value() == 0x19E9 && c.timing_value() == 0x09F2_7461 && c.mode_value()
                == 0x232
        }),
{
}

/// A pin is given its function by four accesses to the registers of its own port,
/// at the bits of its own place.
pub proof fn law_pins_are_set_in_their_port(port: u32, pin: u32)
    requires
        port < 16,
        pin < 16,
    ensures
        ({
            let ops = pin_ops(port, pin);
            let base = 0x5802_0000 + port * 0x400;
            &&& ops.len() == 4
            &&& ops[0] matches MmioOp::Modify { addr, clear, set } && addr == base
            &&& ops[1] matches MmioOp::Modify { addr, clear, set } && addr == base + 8
            &&& ops[2] matches MmioOp::Modify { addr, clear, set } && addr == base + 12
            &&& ops[3] matches MmioOp::Modify { addr, clear, set } && addr == base + if pin < 8 {
                32int
            } else {
                36
            }
        }),
{
}

/// The values written for a pin lie in the pin's own bits: two for mode, speed
/// and pull, four for the function. Read back from there they are alternate
/// function, highest speed, no pull, and function twelve.
pub proof fn law_pin_values_lie_in_the_pins_bits(port: u32, pin: u32)
    requires
        port < 16,
        pin < 16,
    ensures
        ({
            let ops = pin_ops(port, pin);
            let two = (2 * pin) as u32;
            let four = (4 * (pin % 8)) as u32;
            &&& ops[0]->Modify_clear >> two == 3 && ops[0]->Modify_set >> two == 2
            &&& (ops[0]->Modify_clear >> two) << two == ops[0]->Modify_clear
            &&& (ops[0]->Modify_set >> two) << two == ops[0]->Modify_set
            &&& ops[1]->Modify_clear == 0 && ops[1]->Modify_set >> two == 3
            &&& (ops[1]->Modify_set >> two) << two == ops[1]->Modify_set
            &&& ops[2]->Modify_set == 0 && ops[2]->Modify_clear >> two == 3
            &&& (ops[2]->Modify_clear >> two) << two == ops[2]->Modify_clear
            &&& ops[3]->Modify_clear >> four == 15 && ops[3]->Modify_set >> four == 12
            &&& (ops[3]->Modify_clear >> four) << four == ops[3]->Modify_clear
            &&& (ops[3]->Modify_set >> four) << four == ops[3]->Modify_set
        }),
{
    let two = (2 * pin) as u32;
    let four = (4 * (pin % 8)) as u32;
    assert((3u32 << two) >> two == 3 && ((3u32 << two) >> two) << two == 3u32 << two && (2u32
        << two) >> two == 2 && ((2u32 << two) >> two) << two == 2u32 << two) by (bit_vector)
        requires
            two <= 30,
    ;
    assert((15u32 << four) >> four == 15 && ((15u32 << four) >> four) << four == 15u32 << four && (
    12u32 << four) >> four == 12 && ((12u32 << four) >> four) << four == 12u32 << four)
        by (bit_vector)
        requires
            four <= 28,
    ;
    assert(two == (pin * 2) as u32);
    if pin < 8 {
        assert(four == (pin * 4) as u32);
    } else {
        assert(four == ((pin - 8) * 4) as u32);
    }
}

/// Every pin of a port's mask is given its function, by the accesses of that pin
/// one after the other.
pub proof fn law_every_pin_of_the_mask_is_set(port: u32, mask: u16, upto: nat, pin: u32) -> (k: int)
    requires
        upto <= 16,
        pin < upto,
        mask & (1u16 << pin) != 0,
    ensures
        0 <= k,
        k + 4 <= port_ops(port, mask, upto).len(),
        port_ops(port, mask, upto).subrange(k, k + 4) == pin_ops(port, pin),
    decreases upto,
{
    let front = port_ops(port, mask, (upto - 1) as nat);
    if pin == upto - 1 {
        assert(port_ops(port, mask, upto).subrange(front.len() as int, front.len() as int + 4) =~= pin_ops(
            port,
            pin,
        ));
        front.len() as int
    } else {
        let k = law_every_pin_of_the_mask_is_set(port, mask, (upto - 1) as nat, pin);
        assert(port_ops(port, mask, upto).subrange(k, k + 4) =~= front.subrange(k, k + 4));
        k
    }
}

/// The ports follow one another, each with all of its sixteen pins.
pub proof fn law_ports_are_set_in_turn(ports: Seq<(u32, u16)>, port: u32, mask: u16)
    ensures
        ports_ops(Seq::empty()) == Seq::<MmioOp>::empty(),
        ports_ops(ports.push((port, mask))) == ports_ops(ports) + port_ops(port, mask, 16),
{
    assert(ports.push((port, mask)).drop_last() =~= ports);
}

/// The memory is sixty-four megabytes; the controller's registers and the clock
/// gates that lead to it are at their places, and every port that has a pin of
/// the controller is clocked before the pins are set.
pub proof fn law_ports_are_clocked_before_their_pins()
    ensures
        BASE_ADDRESS == 0xC000_0000,
        SIZE_BYTES == 64 * 1024 * 1024,
        FMC_SDCR1 == 0x5200_4140 && FMC_SDTR1 == FMC_SDCR1 + 8,
        RCC_D1CCIPR == 0x5802_444C,
        clock_ops() == seq![
            (MmioOp::Modify { addr: 0x5802_44E0, clear: 0, set: 0b1_1111_1100 }),
            (MmioOp::Modify { addr: 0x5802_44D4, clear: 0, set: 0x1000 }),
            MmioOp::Barrier,
        ],
        fmc_pins().len() == 7,
        forall|i: int| 0 <= i < 7 ==> (#[trigger] fmc_pins()[i]).0 == 2 + i,
{
    assert(clock_ops() =~= seq![
        (MmioOp::Modify { addr: 0x5802_44E0, clear: 0, set: 508 }),
        (MmioOp::Modify { addr: 0x5802_44D4, clear: 0, set: 0x1000 }),
        MmioOp::Barrier,
    ]);
}

/// The pins of the controller, port by port: one of C, seven of D, eleven of E,
/// eleven of F, seven of G, ten of H and ten of I.
pub proof fn law_controller_pins_by_port()
    ensures
        fmc_pins()[0] == (2u32, 0b0000_0000_0000_0001u16),
        fmc_pins()[1] == (3u32, 0b1100_0111_0000_0011u16),
        fmc_pins()[2] == (4u32, 0b1111_1111_1000_0011u16),
        fmc_pins()[3] == (5u32, 0b1111_1000_0011_1111u16),
        fmc_pins()[4] == (6u32, 0b1000_0001_0011_0111u16),
        fmc_pins()[5] == (7u32, 0b1111_1111_0000_1100u16),
        fmc_pins()[6] == (8u32, 0b0000_0110_1111_1111u16),
{
}

} // verus!
