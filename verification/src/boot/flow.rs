//! Boot decisions: whether to start the application or to serve DFU, and what
//! the indicator shows meanwhile.
use crate::boot_check;
use crate::boot_check::is_plausible_image;
use vstd::prelude::*;

verus! {

/// System clock before the clock tree has been set up.
pub const DEFAULT_SYSCLK_HZ: u32 = 400_000_000;

/// Length of the boot window, in processor cycles (eight seconds at 400 MHz).
pub const BOOT_WINDOW_CYCLES: u32 = 3_200_000_000;

/// Half period of the indicator during the boot window.
pub const ALIVE_HALF_PERIOD_CYCLES: u32 = 100_000_000;

/// Half period of the indicator in service mode, before the host has addressed
/// the device.
pub const SERVICE_HALF_PERIOD_CYCLES: u32 = 200_000_000;

/// Cycles burned between two looks at the cycle counter.
pub const BURN_CHUNK: u32 = 4096;

/// USB vendor identifier of the DFU device.
pub const VID: u16 = 0x0483;

/// USB product identifier of the DFU device.
pub const PID: u16 = 0xdf11;

/// `v`, or the largest value if it does not fit.
pub open spec fn saturated_u32(v: int) -> int {
    if v > u32::MAX {
        u32::MAX as int
    } else {
        v
    }
}

fn saturating_product(a: u32, b: u32) -> (r: u32)
    ensures
        r == saturated_u32(a * b),
{
    match a.checked_mul(b) {
        Some(v) => v,
        None => {
            assert(a * b >= 0) by (nonlinear_arith);
            u32::MAX
        },
    }
}

/// Cycles in `ms` milliseconds at `sysclk_hz`.
pub fn delay_ms(ms: u32, sysclk_hz: u32) -> (cycles: u32)
    ensures
        cycles == saturated_u32(ms * (sysclk_hz as int / 1000)),
{
    saturating_product(ms, sysclk_hz / 1000)
}

/// Cycles in `us` microseconds at `sysclk_hz`.
pub fn delay_us(us: u32, sysclk_hz: u32) -> (cycles: u32)
    ensures
        cycles == saturated_u32(us * (sysclk_hz as int / 1_000_000)),
{
    saturating_product(us, sysclk_hz / 1_000_000)
}

/// Most chunks that are burned in a delay of `cycles`.
pub open spec fn most_chunks(cycles: int) -> int {
    (cycles / 4096 + 64) * 3
}

/// A delay from cycle count `started` on is over at look `k`, at cycle count
/// `now`.
pub open spec fn delay_over(started: u32, cycles: u32, k: int, now: u32) -> bool {
    (now - started) % 0x1_0000_0000 >= cycles || k >= most_chunks(cycles as int)
}

/// A blocking delay of a number of cycles. The exit is decided by the cycle
/// counter; the number of looks is capped, so that a stalled counter cannot
/// hang the caller.
#[derive(Debug, Clone, Copy)]
pub struct Delay {
    start: u32,
    cycles: u32,
    max_iters: u32,
    iters: u32,
}

impl Delay {
    /// Cycle count at the start.
    pub closed spec fn started(&self) -> u32 {
        self.start
    }

    /// Cycles to wait for.
    pub closed spec fn length(&self) -> u32 {
        self.cycles
    }

    /// Chunks burned so far.
    pub closed spec fn burned(&self) -> u32 {
        self.iters
    }

    /// Validity of a delay.
    pub closed spec fn wf(&self) -> bool {
        &&& self.max_iters == most_chunks(self.cycles as int)
        &&& self.iters <= self.max_iters
    }

    /// A delay of `n` cycles from cycle count `now`.
    pub fn delay_cycles(n: u32, now: u32) -> (d: Self)
        ensures
            d.wf(),
            d.started() == now,
            d.length() == n,
            d.burned() == 0,
    {
        Delay { start: now, cycles: n, max_iters: (n / BURN_CHUNK + 64) * 3, iters: 0 }
    }

    /// Looks at the cycle counter: `true` when the delay is over, else one more
    /// chunk is to be burned before the next look.
    pub fn look(&mut self, now: u32) -> (over: bool)
        requires
            old(self).wf(),
        ensures
            final(self).wf(),
            final(self).started() == old(self).started(),
            final(self).length() == old(self).length(),
            over == delay_over(
                old(self).started(),
                old(self).length(),
                old(self).burned() as int,
                now,
            ),
            final(self).burned() == if over {
                old(self).burned() as int
            } else {
                old(self).burned() + 1
            },
    {
        if now.wrapping_sub(self.start) >= self.cycles {
            return true;
        }
        if self.iters >= self.max_iters {
            return true;
        }
        self.iters = self.iters + 1;
        false
    }
}

/// A delay ends whatever the counter shows; if the counter runs on by the chunks
/// that are burned between two looks, it lasts as long as it was asked to.
/// `nows[k]` is what the counter shows at look `k`.
pub proof fn law_delays_end_in_time(started: u32, cycles: u32, nows: Seq<u32>) -> (k: int)
    requires
        nows.len() > most_chunks(cycles as int),
    ensures
        0 <= k <= most_chunks(cycles as int),
        delay_over(started, cycles, k, nows[k]),
        forall|j: int| 0 <= j < k ==> !#[trigger] delay_over(started, cycles, j, nows[j]),
        (nows[k] - started) % 0x1_0000_0000 >= k * 4096 ==> (nows[k] - started) % 0x1_0000_0000
            >= cycles,
{
    let k = first_over(started, cycles, nows, 0);
    if k >= most_chunks(cycles as int) {
        assert(k * 4096 >= cycles) by {
            assert(k >= cycles as int / 4096 + 1);
        }
    }
    k
}

proof fn first_over(started: u32, cycles: u32, nows: Seq<u32>, from: int) -> (k: int)
    requires
        nows.len() > most_chunks(cycles as int),
        0 <= from <= most_chunks(cycles as int),
        forall|j: int| 0 <= j < from ==> !#[trigger] delay_over(started, cycles, j, nows[j]),
    ensures
        from <= k <= most_chunks(cycles as int),
        delay_over(started, cycles, k, nows[k]),
        forall|j: int| 0 <= j < k ==> !#[trigger] delay_over(started, cycles, j, nows[j]),
    decreases most_chunks(cycles as int) - from,
{
    if delay_over(started, cycles, from, nows[from]) {
        from
    } else {
        first_over(started, cycles, nows, from + 1)
    }
}

/// The indicator at `elapsed` cycles of a square wave that starts lit.
pub open spec fn blink(elapsed: int, half_period: int) -> bool {
    (elapsed / half_period) % 2 == 0
}

/// Silicon before revision V needs the AXI SRAM read-issuing capability set to
/// one: the revision is in the upper half of the device's identity code.
pub fn needs_axi_sram_fix(idcode: u32) -> (b: bool)
    ensures
        b == ((idcode as int / 0x1_0000) * 0x1_0000 < 0x2000_0000),
{
    idcode / 0x1_0000 < 0x2000
}

/// What the bootloader does once the flash is readable.
#[derive(Debug, Clone, Copy, PartialEq, Eq, Structural)]
pub enum BootPath {
    /// Serve DFU until reset.
    Service,
    /// Give a host the boot window to ask for DFU, then start the application.
    Window,
}

/// Service mode if an application asked for it or there is no plausible image.
pub fn boot_path(force_dfu: bool, msp: u32, reset: u32) -> (p: BootPath)
    ensures
        p == if force_dfu || !(boot_check::in_sram(msp) && boot_check::is_entry(reset)) {
            BootPath::Service
        } else {
            BootPath::Window
        },
{
    if force_dfu || !is_plausible_image(msp, reset) {
        BootPath::Service
    } else {
        BootPath::Window
    }
}

/// What follows one turn of the boot window.
#[derive(Debug, Clone, Copy, PartialEq, Eq, Structural)]
pub enum WindowNext {
    /// Poll on.
    Poll,
    /// A host has asked for a write: serve DFU at once, indicator lit.
    Service,
    /// The window is over: disconnect from the bus and start the application.
    Start,
}

/// Head of a turn of the boot window at `elapsed` cycles: `None` when the window
/// is over, else what the indicator shows.
pub fn window_open(elapsed: u32) -> (r: Option<bool>)
    ensures
        r == if elapsed >= BOOT_WINDOW_CYCLES {
            None::<bool>
        } else {
            Some(blink(elapsed as int, ALIVE_HALF_PERIOD_CYCLES as int))
        },
{
    if elapsed >= BOOT_WINDOW_CYCLES {
        None
    } else {
        Some((elapsed / ALIVE_HALF_PERIOD_CYCLES) % 2 == 0)
    }
}

/// The outcome of a turn of the boot window.
pub open spec fn window_result(elapsed: u32, saw_write: bool) -> WindowNext {
    if elapsed >= BOOT_WINDOW_CYCLES {
        WindowNext::Start
    } else if saw_write {
        WindowNext::Service
    } else {
        WindowNext::Poll
    }
}

/// A whole turn of the boot window: the window's end comes first, then a host's
/// request. USB enumeration alone is no request.
pub fn window_turn(elapsed: u32, saw_write: bool) -> (n: WindowNext)
    ensures
        n == window_result(elapsed, saw_write),
{
    match window_open(elapsed) {
        None => WindowNext::Start,
        Some(_) => if saw_write {
            WindowNext::Service
        } else {
            WindowNext::Poll
        },
    }
}

/// How far a host has come with the device.
#[derive(Debug, Clone, Copy, PartialEq, Eq, Structural)]
pub enum UsbState {
    Default,
    Addressed,
    Configured,
    Suspend,
}

/// Half period of the service indicator: it shows the state of the bus, 1 Hz
/// unaddressed, 3 Hz addressed, 5 Hz configured; `None` for steadily lit.
pub open spec fn service_half_period(state: UsbState) -> Option<int> {
    match state {
        UsbState::Default => Some(200_000_000),
        UsbState::Addressed => Some(66_666_666),
        UsbState::Configured => Some(40_000_000),
        UsbState::Suspend => None,
    }
}

/// The indicator in service mode.
pub fn service_indicator(state: UsbState, elapsed: u32) -> (on: bool)
    ensures
        on == match service_half_period(state) {
            Some(h) => blink(elapsed as int, h),
            None => true,
        },
{
    let half_period: u32 = match state {
        UsbState::Default => SERVICE_HALF_PERIOD_CYCLES,
        UsbState::Addressed => SERVICE_HALF_PERIOD_CYCLES / 3,
        UsbState::Configured => SERVICE_HALF_PERIOD_CYCLES / 5,
        UsbState::Suspend => u32::MAX,
    };
    if half_period == u32::MAX {
        true
    } else {
        (elapsed / half_period) % 2 == 0
    }
}

/// What to do with the indicator so that it shows `should_be_on`: nothing if it
/// does already.
pub fn indicator_change(should_be_on: bool, led_on: bool) -> (c: Option<bool>)
    ensures
        c == if should_be_on != led_on {
            Some(should_be_on)
        } else {
            None::<bool>
        },
{
    if should_be_on != led_on {
        Some(should_be_on)
    } else {
        None
    }
}

/// The indicator set to `on` and left so for `ms` milliseconds.
#[derive(Debug, Clone, Copy, PartialEq, Eq, Structural)]
pub struct LedStep {
    pub on: bool,
    pub ms: u32,
}

/// `count` pulses, then a gap: step `i` of the pattern.
pub open spec fn pulse_step(i: int, count: int, on_ms: u32, off_ms: u32, gap_ms: u32) -> LedStep {
    if i == 2 * count {
        LedStep { on: false, ms: gap_ms }
    } else if i % 2 == 0 {
        LedStep { on: true, ms: on_ms }
    } else {
        LedStep { on: false, ms: off_ms }
    }
}

/// `count` pulses of `on_ms` lit and `off_ms` dark, then `gap_ms` dark.
pub fn pulse_pattern(count: u32, on_ms: u32, off_ms: u32, gap_ms: u32) -> (steps: Vec<LedStep>)
    ensures
        steps@ == Seq::new(
            (2 * count + 1) as nat,
            |i: int| pulse_step(i, count as int, on_ms, off_ms, gap_ms),
        ),
{
    let mut steps: Vec<LedStep> = Vec::new();
    let mut k: u32 = 0;
    while k < count
        invariant
            k <= count,
            steps@ == Seq::new(
                (2 * k) as nat,
                |i: int| pulse_step(i, count as int, on_ms, off_ms, gap_ms),
            ),
        decreases count - k,
    {
        steps.push(LedStep { on: true, ms: on_ms });
        steps.push(LedStep { on: false, ms: off_ms });
        k = k + 1;
        assert(steps@ =~= Seq::new(
            (2 * k) as nat,
            |i: int| pulse_step(i, count as int, on_ms, off_ms, gap_ms),
        ));
    }
    steps.push(LedStep { on: false, ms: gap_ms });
    assert(steps@ =~= Seq::new(
        (2 * count + 1) as nat,
        |i: int| pulse_step(i, count as int, on_ms, off_ms, gap_ms),
    ));
    steps
}

/// The bursts that mark the stages on the way to the application: 200 ms pulses
/// and a gap of one second.
pub fn stage_pulses(count: u32) -> (steps: Vec<LedStep>)
    ensures
        steps@ == Seq::new(
            (2 * count + 1) as nat,
            |i: int| pulse_step(i, count as int, 200, 200, 1000),
        ),
{
    pulse_pattern(count, 200, 200, 1000)
}

/// A host that only enumerates the device never holds it in the bootloader: as
/// long as no write is asked for, the window ends by starting the application,
/// and not before its time.
pub proof fn law_enumeration_does_not_stop_the_boot(elapsed: u32)
    ensures
        elapsed < BOOT_WINDOW_CYCLES <==> window_result(elapsed, false) == WindowNext::Poll,
        elapsed >= BOOT_WINDOW_CYCLES <==> window_result(elapsed, false) == WindowNext::Start,
        window_result(elapsed, false) != WindowNext::Service,
{
}

/// A delay is over exactly once the counter has moved on far enough, or once a
/// third more chunks than three times the delay's length have been burned: the
/// counter wraps.
pub proof fn law_delays_follow_the_counter(started: u32, cycles: u32, k: int, now: u32)
    ensures
        now >= started && now - started >= cycles ==> delay_over(started, cycles, k, now),
        now < started && now + 0x1_0000_0000 - started >= cycles ==> delay_over(
            started,
            cycles,
            k,
            now,
        ),
        now >= started && now - started < cycles && k < 3 * (cycles as int / 4096 + 64)
            ==> !delay_over(started, cycles, k, now),
        k >= 3 * (cycles as int / 4096 + 64) ==> delay_over(started, cycles, k, now),
{
}

/// The longest delay is what a counter can hold; every shorter one is exact.
pub proof fn law_long_delays_saturate(v: int)
    requires
        v >= 0,
    ensures
        v <= 0xFFFF_FFFF ==> saturated_u32(v) == v,
        v > 0xFFFF_FFFF ==> saturated_u32(v) == 0xFFFF_FFFF,
{
}

/// A blink starts lit and changes at every half period.
pub proof fn law_blinks_change_every_half_period(elapsed: int, half_period: int)
    requires
        elapsed >= 0,
        half_period > 0,
    ensures
        elapsed < half_period ==> blink(elapsed, half_period),
        blink(elapsed + half_period, half_period) == !blink(elapsed, half_period),
{
    if elapsed < half_period {
        vstd::arithmetic::div_mod::lemma_basic_div(elapsed, half_period);
    }
    vstd::arithmetic::div_mod::lemma_div_plus_one(elapsed, half_period);
    assert(half_period + elapsed == elapsed + half_period);
}

/// The boot window lasts eight seconds of the 400 MHz clock: inside it a host's
/// request is served and nothing else ends the polling; after it the application
/// starts, request or not.
pub proof fn law_window_lasts_eight_seconds(elapsed: u32, saw_write: bool)
    ensures
        window_result(elapsed, saw_write) == WindowNext::Start <==> elapsed >= 8 * 400_000_000,
        window_result(elapsed, saw_write) == WindowNext::Service <==> elapsed < 8 * 400_000_000
            && saw_write,
        window_result(elapsed, saw_write) == WindowNext::Poll <==> elapsed < 8 * 400_000_000
            && !saw_write,
{
}

/// In service mode the indicator blinks the faster the farther a host has come:
/// half a second, a third and a fifth of it; a suspended bus leaves it lit.
pub proof fn law_service_blinks_show_the_host()
    ensures
        service_half_period(UsbState::Default) == Some(400_000_000int / 2),
        service_half_period(UsbState::Addressed) == Some(400_000_000int / 2 / 3),
        service_half_period(UsbState::Configured) == Some(400_000_000int / 2 / 5),
        service_half_period(UsbState::Suspend) is None,
{
}

/// A pattern is its pulses and a gap: pulse `p` lights the indicator, then leaves
/// it dark, and the last step is the gap.
pub proof fn law_patterns_are_pulses_and_a_gap(p: int, count: int, on_ms: u32, off_ms: u32, gap_ms: u32)
    requires
        0 <= p < count,
    ensures
        pulse_step(2 * p, count, on_ms, off_ms, gap_ms) == (LedStep { on: true, ms: on_ms }),
        pulse_step(2 * p + 1, count, on_ms, off_ms, gap_ms) == (LedStep { on: false, ms: off_ms }),
        pulse_step(2 * count, count, on_ms, off_ms, gap_ms) == (LedStep { on: false, ms: gap_ms }),
{
}

/// The bootloader shows itself to the host as the device that the tools look for.
pub proof fn law_host_tools_find_the_bootloader()
    ensures
        VID == 0x0483 && PID == 0xDF11,
        VID == crate::cli::device::ST_DFU_VID && PID == crate::cli::device::ST_DFU_PID,
{
}

} // verus!
