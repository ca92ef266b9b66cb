//! The memory test's screen: target, statistics, progress, the list of tests,
//! the error log and the verdict.
use super::draw;
use super::draw::{bold_style, plain_style, put, Color, DrawOp, Style};
use crate::sdram;
use crate::sdram::BASE_ADDRESS;
use crate::text;
use crate::text::{number_text, owned, push_decimal, push_hex8, push_repeated};
use vstd::prelude::*;

verus! {

// ---------------------------------------------------------------------------
// The error log
// ---------------------------------------------------------------------------

/// How many recent failures the log keeps.
pub const ERRLOG_CAP: usize = 8;

/// One failure: address, expected word, word read.
pub type Failure = (u32, u32, u32);

/// A ring of the most recent failures.
#[derive(Debug, Clone, Copy)]
pub struct ErrLog {
    buf: [(u32, u32, u32); ERRLOG_CAP],
    len: usize,
    head: usize,
    total: u32,
}

/// The first (newest) `n` of a list.
pub open spec fn newest(s: Seq<Failure>, n: int) -> Seq<Failure> {
    if s.len() <= n {
        s
    } else {
        s.take(n)
    }
}

impl ErrLog {
    /// Validity of a log.
    pub closed spec fn wf(&self) -> bool {
        &&& self.len <= 8
        &&& self.head < 8
    }

    /// The retained failures, most recent first.
    pub closed spec fn view(&self) -> Seq<Failure> {
        Seq::new(self.len as nat, |k: int| self.buf@[(self.head + 7 - k) % 8])
    }

    /// Failures ever logged.
    pub closed spec fn count(&self) -> u32 {
        self.total
    }

    /// An empty log.
    pub fn new() -> (l: Self)
        ensures
            l.wf(),
            l@ == Seq::<Failure>::empty(),
            l.count() == 0,
    {
        let l = ErrLog { buf: [(0, 0, 0); ERRLOG_CAP], len: 0, head: 0, total: 0 };
        assert(l@ =~= Seq::<Failure>::empty());
        l
    }

    /// Logs a failure; the oldest one makes room.
    pub fn push(&mut self, addr: u32, exp: u32, got: u32)
        requires
            old(self).wf(),
        ensures
            final(self).wf(),
            final(self)@ == newest(seq![(addr, exp, got)] + old(self)@, 8),
            final(self).count() == if old(self).count() < u32::MAX {
                old(self).count() + 1
            } else {
                u32::MAX as int
            },
    {
        let ghost before = self@;
        let ghost was = *self;
        self.buf[self.head] = (addr, exp, got);
        self.head = (self.head + 1) % ERRLOG_CAP;
        self.len = if self.len < ERRLOG_CAP {
            self.len + 1
        } else {
            ERRLOG_CAP
        };
        self.total = self.total.saturating_add(1);
        proof {
            let all = seq![(addr, exp, got)] + before;
            assert forall|k: int| 0 <= k < self.len implies #[trigger] self@[k] == all[k] by {
                if k == 0 {
                    assert((self.head + 7) % 8 == was.head);
                } else {
                    assert((self.head + 7 - k) % 8 == (was.head + 7 - (k - 1)) % 8);
                    assert((was.head + 7 - (k - 1)) % 8 != was.head as int);
                }
            }
            assert(self@ =~= newest(all, 8));
        }
    }

    /// The `k`-th most recent failure.
    pub fn recent(&self, k: usize) -> (r: Option<(u32, u32, u32)>)
        requires
            self.wf(),
        ensures
            r == if k < self@.len() {
                Some(self@[k as int])
            } else {
                None::<Failure>
            },
    {
        if k < self.len {
            Some(self.buf[(self.head + ERRLOG_CAP - 1 - k) % ERRLOG_CAP])
        } else {
            None
        }
    }

    /// Failures ever logged.
    pub fn total(&self) -> (n: u32)
        ensures
            n == self.count(),
    {
        self.total
    }
}

impl Default for ErrLog {
    fn default() -> (l: Self)
        ensures
            l.wf(),
            l@ == Seq::<Failure>::empty(),
            l.count() == 0,
    {
        ErrLog::new()
    }
}

// ---------------------------------------------------------------------------
// State
// ---------------------------------------------------------------------------

/// Overall state of the run.
#[derive(Debug, Clone, Copy, PartialEq, Eq, Structural)]
pub enum Status {
    Waiting,
    BringUp,
    Running,
    Paused,
    Stopped,
}

/// Everything that the screen shows.
pub struct TestState {
    pub status: Status,
    pub words: usize,
    pub sdclk_mhz: u32,
    /// Full-suite loops, the current one included.
    pub pass: u32,
    pub elapsed_s: u32,
    pub throughput_mb_s: u32,
    /// Current group, by its place in the list of groups.
    pub cur_group: usize,
    pub phase_label: String,
    pub addr: u32,
    /// Progress through the current phase, in percent.
    pub phase_pct: u16,
    /// Errors by group.
    pub group_errs: Vec<u32>,
    pub errlog: ErrLog,
}

/// The sum of error counts.
pub open spec fn sum(errs: Seq<u32>) -> int
    decreases errs.len(),
{
    if errs.len() == 0 {
        0
    } else {
        sum(errs.drop_last()) + errs.last()
    }
}

proof fn lemma_sum_grows(errs: Seq<u32>, n: int)
    requires
        0 <= n <= errs.len(),
    ensures
        0 <= sum(errs.take(n)) <= sum(errs),
    decreases errs.len() - n,
{
    if n < errs.len() {
        lemma_sum_grows(errs, n + 1);
        assert(errs.take(n + 1).drop_last() =~= errs.take(n));
        lemma_sum_nonnegative(errs.take(n));
    } else {
        assert(errs.take(n) =~= errs);
        lemma_sum_nonnegative(errs);
    }
}

proof fn lemma_sum_nonnegative(errs: Seq<u32>)
    ensures
        sum(errs) >= 0,
    decreases errs.len(),
{
    if errs.len() > 0 {
        lemma_sum_nonnegative(errs.drop_last());
    }
}

impl TestState {
    /// Validity of a state.
    pub open spec fn wf(&self) -> bool {
        self.errlog.wf()
    }

    /// Target and progress are those of `other`.
    pub open spec fn kept(&self, other: TestState) -> bool {
        &&& self.words == other.words
        &&& self.sdclk_mhz == other.sdclk_mhz
        &&& self.elapsed_s == other.elapsed_s
        &&& self.throughput_mb_s == other.throughput_mb_s
        &&& self.cur_group == other.cur_group
        &&& self.phase_label == other.phase_label
        &&& self.addr == other.addr
        &&& self.phase_pct == other.phase_pct
    }

    /// A test of `words` words that has not begun, with `groups` groups.
    pub fn new(words: usize, sdclk_mhz: u32, groups: usize) -> (s: Self)
        ensures
            s.wf(),
            s.status == Status::Waiting,
            s.words == words,
            s.sdclk_mhz == sdclk_mhz,
            s.pass == 0,
            s.elapsed_s == 0,
            s.throughput_mb_s == 0,
            s.cur_group == 0,
            s.phase_label@ == Seq::<char>::empty(),
            s.addr == 0xC000_0000,
            s.phase_pct == 0,
            s.group_errs@ == Seq::new(groups as nat, |i: int| 0u32),
            s.errlog@ == Seq::<Failure>::empty(),
            s.errlog.count() == 0,
    {
        let mut group_errs: Vec<u32> = Vec::new();
        while group_errs.len() < groups
            invariant
                group_errs@.len() <= groups,
                forall|i: int| 0 <= i < group_errs@.len() ==> group_errs@[i] == 0,
            decreases groups - group_errs@.len(),
        {
            group_errs.push(0);
        }
        assert(group_errs@ =~= Seq::new(groups as nat, |i: int| 0u32));
        TestState {
            status: Status::Waiting,
            words,
            sdclk_mhz,
            pass: 0,
            elapsed_s: 0,
            throughput_mb_s: 0,
            cur_group: 0,
            phase_label: String::new(),
            addr: BASE_ADDRESS,
            phase_pct: 0,
            group_errs,
            errlog: ErrLog::new(),
        }
    }

    /// Errors of all groups.
    pub fn total_errs(&self) -> (n: u32)
        requires
            sum(self.group_errs@) <= u32::MAX,
        ensures
            n == sum(self.group_errs@),
    {
        let mut n: u32 = 0;
        let mut i: usize = 0;
        assert(self.group_errs@.take(0) =~= Seq::empty());
        while i < self.group_errs.len()
            invariant
                i <= self.group_errs@.len(),
                sum(self.group_errs@) <= u32::MAX,
                n == sum(self.group_errs@.take(i as int)),
            decreases self.group_errs@.len() - i,
        {
            proof {
                lemma_sum_grows(self.group_errs@, i + 1);
                assert(self.group_errs@.take(i + 1).drop_last() =~= self.group_errs@.take(
                    i as int,
                ));
            }
            n = n + self.group_errs[i];
            i = i + 1;
        }
        assert(self.group_errs@.take(i as int) =~= self.group_errs@);
        n
    }

    /// Takes a failure of word `index` in the current group.
    pub fn on_error(&mut self, index: usize, expected: u32, got: u32)
        requires
            old(self).wf(),
            old(self).cur_group < old(self).group_errs@.len(),
            index < 0x100_0000,
        ensures
            final(self).wf(),
            final(self).group_errs@ == old(self).group_errs@.update(
                old(self).cur_group as int,
                if old(self).group_errs@[old(self).cur_group as int] < u32::MAX {
                    (old(self).group_errs@[old(self).cur_group as int] + 1) as u32
                } else {
                    u32::MAX
                },
            ),
            final(self).errlog@ == newest(
                seq![((BASE_ADDRESS + index * 4) as u32, expected, got)] + old(self).errlog@,
                8,
            ),
            final(self).errlog.count() == if old(self).errlog.count() < u32::MAX {
                old(self).errlog.count() + 1
            } else {
                u32::MAX as int
            },
            final(self).kept(*old(self)),
            final(self).status == old(self).status,
            final(self).pass == old(self).pass,
    {
        let g = self.cur_group;
        let n = self.group_errs[g].saturating_add(1);
        self.group_errs.set(g, n);
        self.errlog.push(BASE_ADDRESS + index as u32 * 4, expected, got);
    }

    /// The verdict that the indicator shows: no error so far.
    pub fn clean(&self) -> (b: bool)
        requires
            sum(self.group_errs@) <= u32::MAX,
        ensures
            b == (sum(self.group_errs@) == 0),
    {
        self.total_errs() == 0
    }

    /// Starts afresh after a stop: counts and log are cleared.
    pub fn restart(&mut self)
        ensures
            final(self).wf(),
            final(self).group_errs@ == Seq::new(old(self).group_errs@.len(), |i: int| 0u32),
            final(self).errlog@ == Seq::<Failure>::empty(),
            final(self).errlog.count() == 0,
            final(self).kept(*old(self)),
            final(self).status == old(self).status,
            final(self).pass == old(self).pass,
    {
        let groups = self.group_errs.len();
        let mut i: usize = 0;
        while i < groups
            invariant
                i <= groups,
                groups == self.group_errs@.len(),
                groups == old(self).group_errs@.len(),
                self.kept(*old(self)),
                self.status == old(self).status,
                self.pass == old(self).pass,
                forall|j: int| 0 <= j < i ==> self.group_errs@[j] == 0,
            decreases groups - i,
        {
            self.group_errs.set(i, 0);
            i = i + 1;
        }
        assert(self.group_errs@ =~= Seq::new(groups as nat, |i: int| 0u32));
        self.errlog = ErrLog::new();
    }
}

// ---------------------------------------------------------------------------
// The run
// ---------------------------------------------------------------------------

/// Words under test.
pub const SDRAM_WORDS: usize = 0x100_0000;

/// Words between two services of the interface.
pub const CHUNK: usize = 0x1_0000;

/// Processor cycles in a millisecond.
pub const CYCLES_PER_MS: u32 = 400_000;

/// Where a run stands, for its statistics.
#[derive(Debug, Clone, Copy)]
pub struct Runner {
    pub ascending: bool,
    /// Words processed in this run.
    pub processed: u64,
    /// Words of the current phase that are already counted.
    pub last_done: usize,
    /// Cycle count at the start.
    pub start_cyc: u32,
    /// The user has asked to stop.
    pub stopped: bool,
}

/// The word that the address display shows after `done` words of a phase.
pub open spec fn shown_word(ascending: bool, done: int) -> int {
    if ascending {
        if done < SDRAM_WORDS {
            done
        } else {
            SDRAM_WORDS - 1
        }
    } else if done < SDRAM_WORDS {
        SDRAM_WORDS - done
    } else {
        0
    }
}

impl Runner {
    /// A run that starts at cycle count `now`.
    pub fn new(now: u32) -> (r: Self)
        ensures
            r == (Runner {
                ascending: true,
                processed: 0,
                last_done: 0,
                start_cyc: now,
                stopped: false,
            }),
    {
        Runner { ascending: true, processed: 0, last_done: 0, start_cyc: now, stopped: false }
    }

    /// Starts a phase.
    pub fn begin_phase(&mut self)
        ensures
            *final(self) == (Runner { last_done: 0, ..*old(self) }),
    {
        self.last_done = 0;
    }

    /// Updates elapsed time, throughput, progress and address after `done` words
    /// of the phase, at cycle count `now`.
    pub fn update_stats(&mut self, state: &mut TestState, done: usize, now: u32)
        requires
            old(self).last_done <= done,
            done * 100 <= u64::MAX,
            old(self).processed + (done - old(self).last_done) <= u64::MAX,
        ensures
            *final(self) == (Runner {
                processed: (old(self).processed + (done - old(self).last_done)) as u64,
                last_done: done,
                ..*old(self)
            }),
            ({
                let ms = ((now - old(self).start_cyc) % 0x1_0000_0000) / 400_000;
                let bytes = if final(self).processed * 4 <= u64::MAX {
                    final(self).processed * 4
                } else {
                    u64::MAX as int
                };
                &&& final(state).elapsed_s == ms / 1000
                &&& final(state).throughput_mb_s == if ms > 0 {
                    (bytes / ms / 1000) as u64 as u32
                } else {
                    old(state).throughput_mb_s
                }
            }),
            final(state).phase_pct == done * 100 / (SDRAM_WORDS as int) % 0x1_0000,
            final(state).addr == BASE_ADDRESS + shown_word(old(self).ascending, done as int) * 4,
            final(state).status == old(state).status,
            final(state).group_errs == old(state).group_errs,
            final(state).errlog == old(state).errlog,
            final(state).cur_group == old(state).cur_group,
            final(state).pass == old(state).pass,
            final(state).words == old(state).words,
            final(state).sdclk_mhz == old(state).sdclk_mhz,
            final(state).phase_label == old(state).phase_label,
    {
        self.processed = self.processed + (done - self.last_done) as u64;
        self.last_done = done;
        let elapsed_cyc = now.wrapping_sub(self.start_cyc);
        let elapsed_ms: u32 = elapsed_cyc / CYCLES_PER_MS;
        state.elapsed_s = elapsed_ms / 1000;
        if elapsed_ms > 0 {
            let bytes: u64 = match self.processed.checked_mul(4) {
                Some(b) => b,
                None => u64::MAX,
            };
            state.throughput_mb_s = (bytes / elapsed_ms as u64 / 1000) as u32;
        }
        let pct: u64 = done as u64 * 100 / SDRAM_WORDS as u64;
        assert(pct as u16 == pct % 0x1_0000) by (bit_vector);
        state.phase_pct = pct as u16;
        let word: usize = if self.ascending {
            if done < SDRAM_WORDS {
                done
            } else {
                SDRAM_WORDS - 1
            }
        } else if done < SDRAM_WORDS {
            SDRAM_WORDS - done
        } else {
            0
        };
        state.addr = BASE_ADDRESS + word as u32 * 4;
    }
}

/// Keys that the user has pressed.
#[derive(Debug, Clone, Copy, PartialEq, Eq, Structural)]
pub struct Keys {
    /// Start, pause or resume.
    pub toggle: bool,
    /// Stop.
    pub stop: bool,
}

/// What the input asks for.
#[derive(Debug, Clone, Copy, PartialEq, Eq, Structural)]
pub enum Request {
    /// These keys.
    Keys { keys: Keys },
    /// Reboot at once.
    Reboot,
    /// Reboot into the bootloader at once.
    RebootToBootloader,
}

/// A key that reboots: lower case only, since a terminal's size report ends in
/// an upper-case `R`.
pub open spec fn reboots(b: u8) -> bool {
    b == 0x72 || b == 0x62
}

/// The keys among `input`.
pub open spec fn keys_in(input: Seq<u8>) -> Keys {
    Keys {
        toggle: exists|i: int| 0 <= i < input.len() && #[trigger] input[i] == 0x20,
        stop: exists|i: int|
            0 <= i < input.len() && (#[trigger] input[i] == 0x73 || input[i] == 0x53),
    }
}

/// `i` is the first byte that reboots.
pub open spec fn first_reboot(input: Seq<u8>, i: int) -> bool {
    0 <= i < input.len() && reboots(input[i]) && forall|j: int|
        0 <= j < i ==> !reboots(#[trigger] input[j])
}

/// Scans the input for control keys; a reboot key takes effect where it stands.
pub fn scan_keys(input: &[u8]) -> (r: Request)
    ensures
        (r matches Request::Keys { keys } ==> keys == keys_in(input@)),
        r is Keys <==> forall|i: int| 0 <= i < input@.len() ==> !reboots(#[trigger] input@[i]),
        r is Reboot ==> exists|i: int| first_reboot(input@, i) && input@[i] == 0x72,
        r is RebootToBootloader ==> exists|i: int| first_reboot(input@, i) && input@[i] == 0x62,
{
    let mut keys = Keys { toggle: false, stop: false };
    let mut i: usize = 0;
    while i < input.len()
        invariant
            i <= input@.len(),
            forall|j: int| 0 <= j < i ==> !reboots(#[trigger] input@[j]),
            keys.toggle == exists|j: int| 0 <= j < i && #[trigger] input@[j] == 0x20,
            keys.stop == exists|j: int|
                0 <= j < i && (#[trigger] input@[j] == 0x73 || input@[j] == 0x53),
        decreases input@.len() - i,
    {
        let b = input[i];
        if b == 0x20 {
            keys.toggle = true;
        } else if b == 0x73 || b == 0x53 {
            keys.stop = true;
        } else if b == 0x72 {
            assert(first_reboot(input@, i as int));
            return Request::Reboot;
        } else if b == 0x62 {
            assert(first_reboot(input@, i as int));
            return Request::RebootToBootloader;
        }
        i = i + 1;
    }
    Request::Keys { keys }
}

/// What a turn of the service loop leads to.
#[derive(Debug, Clone, Copy, PartialEq, Eq, Structural)]
pub enum Service {
    /// Go on with the phase.
    Continue,
    /// Paused: poll again.
    Hold,
    /// End the phase and the run.
    Stop,
}

/// State and outcome after one turn with these keys: stop wins; otherwise the
/// toggle key pauses or resumes.
pub open spec fn serviced(status: Status, keys: Keys) -> (Status, Service) {
    if keys.stop {
        (status, Service::Stop)
    } else {
        let s = if !keys.toggle {
            status
        } else if status == Status::Paused {
            Status::Running
        } else {
            Status::Paused
        };
        (
            s,
            if s == Status::Paused {
                Service::Hold
            } else {
                Service::Continue
            },
        )
    }
}

/// One turn of the service loop.
pub fn service(status: Status, keys: Keys) -> (r: (Status, Service))
    ensures
        r == serviced(status, keys),
{
    if keys.stop {
        return (status, Service::Stop);
    }
    let s = if !keys.toggle {
        status
    } else if status == Status::Paused {
        Status::Running
    } else {
        Status::Paused
    };
    if s == Status::Paused {
        (s, Service::Hold)
    } else {
        (s, Service::Continue)
    }
}

/// Waiting for a terminal to open the port.
#[derive(Debug, Clone, Copy, PartialEq, Eq, Structural)]
pub struct Waiting {
    pub waited: u32,
    pub dtr_prev: bool,
}

/// What a turn of waiting leads to.
#[derive(Debug, Clone, Copy, PartialEq, Eq, Structural)]
pub struct WaitTurn {
    /// The terminal has just attached: repaint for it.
    pub connected: bool,
    /// Set the indicator to this.
    pub led: Option<bool>,
    /// The wait is over: a terminal is there, or none will come.
    pub over: bool,
}

/// Turns after which the test runs without a terminal.
pub const WAIT_LIMIT: u32 = 60_000_000;

impl Waiting {
    /// A wait that begins.
    pub fn new() -> (w: Self)
        ensures
            w == (Waiting { waited: 0, dtr_prev: false }),
    {
        Waiting { waited: 0, dtr_prev: false }
    }

    /// One turn, with the line's state. The indicator blinks by the count.
    pub fn turn(&mut self, dtr: bool) -> (t: WaitTurn)
        requires
            old(self).waited <= WAIT_LIMIT,
        ensures
            final(self).dtr_prev == dtr,
            t.connected == (dtr && !old(self).dtr_prev),
            dtr ==> t.over && t.led is None && final(self).waited == old(self).waited,
            !dtr ==> {
                &&& final(self).waited == old(self).waited + 1
                &&& t.over == (final(self).waited > WAIT_LIMIT)
                &&& t.led == Some(final(self).waited / 0x80_0000 % 2 == 1)
            },
    {
        let connected = dtr && !self.dtr_prev;
        self.dtr_prev = dtr;
        if dtr {
            return WaitTurn { connected, led: None, over: true };
        }
        self.waited = self.waited + 1;
        WaitTurn {
            connected,
            led: Some(self.waited / 0x80_0000 % 2 == 1),
            over: self.waited > WAIT_LIMIT,
        }
    }
}

/// Whether the suite runs, and its loops since the start.
#[derive(Debug, Clone, Copy, PartialEq, Eq, Structural)]
pub struct Control {
    pub running: bool,
    pub pass: u32,
}

impl Control {
    /// The suite runs from power-up on.
    pub fn new() -> (c: Self)
        ensures
            c == (Control { running: true, pass: 0 }),
    {
        Control { running: true, pass: 0 }
    }

    /// A turn while stopped: the toggle key starts afresh, with counts and log
    /// cleared.
    pub fn idle(&mut self, state: &mut TestState, keys: Keys)
        requires
            old(state).wf(),
        ensures
            final(state).wf(),
            final(state).kept(*old(state)),
            final(state).status == Status::Stopped,
            final(state).pass == old(state).pass,
            keys.toggle ==> {
                &&& *final(self) == (Control { running: true, pass: 0 })
                &&& final(state).group_errs@ == Seq::new(
                    old(state).group_errs@.len(),
                    |i: int| 0u32,
                )
                &&& final(state).errlog@ == Seq::<Failure>::empty()
                &&& final(state).errlog.count() == 0
            },
            !keys.toggle ==> {
                &&& *final(self) == *old(self)
                &&& final(state).group_errs == old(state).group_errs
                &&& final(state).errlog == old(state).errlog
            },
    {
        state.status = Status::Stopped;
        if keys.toggle {
            self.running = true;
            self.pass = 0;
            state.restart();
        }
    }

    /// Starts a loop of the suite, at cycle count `now`.
    pub fn start_pass(&mut self, state: &mut TestState, now: u32) -> (r: Runner)
        ensures
            *final(self) == (Control {
                pass: ((old(self).pass + 1) % 0x1_0000_0000) as u32,
                ..*old(self)
            }),
            final(state).pass == final(self).pass,
            final(state).status == Status::Running,
            final(state).kept(*old(state)),
            final(state).group_errs == old(state).group_errs,
            final(state).errlog == old(state).errlog,
            r == (Runner {
                ascending: true,
                processed: 0,
                last_done: 0,
                start_cyc: now,
                stopped: false,
            }),
    {
        self.pass = self.pass.wrapping_add(1);
        state.pass = self.pass;
        state.status = Status::Running;
        Runner::new(now)
    }

    /// Ends a loop of the suite.
    pub fn end_pass(&mut self, stopped: bool)
        ensures
            *final(self) == (Control {
                running: old(self).running && !stopped,
                ..*old(self)
            }),
    {
        if stopped {
            self.running = false;
        }
    }
}

/// Two presses of the toggle key while running or paused leave the run as it
/// was.
pub proof fn law_pause_and_resume_cancel(status: Status)
    requires
        status == Status::Running || status == Status::Paused,
    ensures
        ({
            let press = Keys { toggle: true, stop: false };
            serviced(serviced(status, press).0, press).0 == status
        }),
{
}

// ---------------------------------------------------------------------------
// The screen
// ---------------------------------------------------------------------------

/// Width of the screen.
pub const CONTENT_W: u16 = 68;

/// Cells of a gauge that are filled.
pub open spec fn gauge_filled(pct: int, inner: int) -> int {
    inner * (if pct < 100 {
        pct
    } else {
        100
    }) / 100
}

/// A progress gauge of `w` cells, brackets and a blank included.
pub open spec fn gauge_text(pct: int, w: int) -> Seq<char> {
    let inner = if w >= 3 {
        w - 3
    } else {
        0
    };
    let filled = gauge_filled(pct, inner);
    "\u{2595}"@ + text::repeated('\u{2588}', filled) + text::repeated('\u{2591}', inner - filled)
        + "\u{258f}"@
}

/// A horizontal progress gauge of total width `w`.
pub fn gauge(pct: u16, w: u16) -> (s: String)
    ensures
        s@ == gauge_text(pct as int, w as int),
{
    proof {
        reveal_strlit("\u{2588}");
        reveal_strlit("\u{2591}");
        assert("\u{2588}"@ =~= seq!['\u{2588}']);
        assert("\u{2591}"@ =~= seq!['\u{2591}']);
    }
    let inner: usize = w.saturating_sub(3) as usize;
    let p: u32 = if pct < 100 {
        pct as u32
    } else {
        100
    };
    assert(inner * p <= 65535 * 100) by (nonlinear_arith)
        requires
            inner <= 65535,
            p <= 100,
    ;
    let filled: usize = (inner as u32 * p / 100) as usize;
    assert(filled <= inner) by (nonlinear_arith)
        requires
            filled == inner * p / 100,
            p <= 100,
    ;
    let mut s = owned("\u{2595}");
    push_repeated(&mut s, "\u{2588}", filled, Ghost('\u{2588}'));
    push_repeated(&mut s, "\u{2591}", inner - filled, Ghost('\u{2591}'));
    s.append("\u{258f}");
    s
}

/// A gauge is empty at nothing, full at a hundred, and always of one width.
pub proof fn law_gauge_spans_its_width(pct: int, w: int)
    requires
        0 <= pct,
        3 <= w <= 65535,
    ensures
        gauge_text(pct, w).len() == w - 1,
        gauge_filled(0, w - 3) == 0,
        pct >= 100 ==> gauge_filled(pct, w - 3) == w - 3,
{
    let inner = w - 3;
    let p = if pct < 100 {
        pct
    } else {
        100
    };
    reveal_strlit("\u{2595}");
    reveal_strlit("\u{258f}");
    assert(0 <= inner * p / 100 <= inner) by (nonlinear_arith)
        requires
            0 <= p <= 100,
            0 <= inner,
    ;
    assert(inner * 100 / 100 == inner);
    assert(inner * 0 / 100 == 0);
}


/// Style of a passed mark.
pub open spec fn ok() -> Style {
    draw::bold(Color::Green)
}

/// Style of a failure.
pub open spec fn bad() -> Style {
    draw::bold(Color::Red)
}

/// Style of what is under way.
pub open spec fn run() -> Style {
    draw::bold(Color::Yellow)
}

/// Style of a minor remark.
pub open spec fn dim() -> Style {
    draw::plain(Color::DarkGray)
}

/// Style of a label.
pub open spec fn key() -> Style {
    draw::plain(Color::Gray)
}

/// Style of a value.
pub open spec fn val() -> Style {
    draw::plain(Color::White)
}

/// The target line.
pub open spec fn target_text(words: int, mhz: int) -> Seq<char> {
    "64 MiB @ 0xC0000000  "@ + text::decimal(words) + " words  SDCLK "@ + text::decimal(mhz)
        + " MHz  non-cacheable"@
}

/// The statistics line; the elapsed time in minutes and seconds.
pub open spec fn stats_text(pass: int, elapsed_s: int, mb_s: int) -> Seq<char> {
    "Pass "@ + text::left_aligned(text::decimal(pass), 4, ' ') + "   Elapsed "@
        + text::right_aligned(text::decimal(elapsed_s / 60), 2, '0') + ":"@ + text::right_aligned(
        text::decimal(elapsed_s % 60),
        2,
        '0',
    ) + "   Throughput "@ + text::decimal(mb_s) + " MB/s"@
}

/// The current test: its number among `n`, its name and the phase.
pub open spec fn current_text(group: int, n: int, name: Seq<char>, label: Seq<char>) -> Seq<char> {
    "["@ + text::decimal(
        if group + 1 < n {
            group + 1
        } else {
            n
        },
    ) + "/"@ + text::decimal(n) + "] "@ + name + "  \u{2014}  "@ + label
}

/// A failure, with the data bits at fault.
pub open spec fn failure_text(f: Failure, bits: int) -> Seq<char> {
    "0x"@ + text::hex8(f.0 as int, true) + "  exp "@ + text::hex8(f.1 as int, true) + " got "@
        + text::hex8(f.2 as int, true) + "  D~0x"@ + text::hex8(bits, true)
}

/// A text filled with blanks to `width`.
fn padded(mut s: String, width: usize) -> (r: String)
    ensures
        r@ == text::left_aligned(s@, width as int, ' '),
{
    proof {
        reveal_strlit(" ");
        assert(" "@ =~= seq![' ']);
    }
    let len = s.as_str().unicode_len();
    let n: usize = if len < width {
        width - len
    } else {
        0
    };
    push_repeated(&mut s, " ", n, Ghost(' '));
    s
}

fn target_line(words: usize, mhz: u32) -> (s: String)
    ensures
        s@ == target_text(words as int, mhz as int),
{
    let mut s = owned("64 MiB @ 0xC0000000  ");
    push_decimal(&mut s, words as u64);
    s.append(" words  SDCLK ");
    push_decimal(&mut s, mhz as u64);
    s.append(" MHz  non-cacheable");
    s
}

fn stats_line(pass: u32, elapsed_s: u32, mb_s: u32) -> (s: String)
    ensures
        s@ == stats_text(pass as int, elapsed_s as int, mb_s as int),
{
    let mut p = String::new();
    push_decimal(&mut p, pass as u64);
    assert(p@ =~= text::decimal(pass as int));
    let p = padded(p, 4);
    let mut s = owned("Pass ");
    s.append(p.as_str());
    s.append("   Elapsed ");
    let mm = number_text((elapsed_s / 60) as u64, 10, false, 2, true);
    s.append(mm.as_str());
    s.append(":");
    let ss = number_text((elapsed_s % 60) as u64, 10, false, 2, true);
    s.append(ss.as_str());
    s.append("   Throughput ");
    push_decimal(&mut s, mb_s as u64);
    s.append(" MB/s");
    s
}

fn current_line(group: usize, n: usize, name: &str, label: &String) -> (s: String)
    ensures
        s@ == current_text(group as int, n as int, name@, label@),
{
    let number: usize = if group < n && group + 1 < n {
        group + 1
    } else {
        n
    };
    let mut s = owned("[");
    push_decimal(&mut s, number as u64);
    s.append("/");
    push_decimal(&mut s, n as u64);
    s.append("] ");
    s.append(name);
    s.append("  \u{2014}  ");
    s.append(label.as_str());
    s
}

fn failure_line(f: (u32, u32, u32), bits: u32) -> (s: String)
    ensures
        s@ == failure_text(f, bits as int),
{
    let mut s = owned("0x");
    push_hex8(&mut s, f.0 as u64, true);
    s.append("  exp ");
    push_hex8(&mut s, f.1 as u64, true);
    s.append(" got ");
    push_hex8(&mut s, f.2 as u64, true);
    s.append("  D~0x");
    push_hex8(&mut s, bits as u64, true);
    s
}

// ---- header and progress ---------------------------------------------------

/// Title, target and statistics: rows 0 to 2.
pub open spec fn header_ops(s: TestState, rows: int) -> Seq<draw::Drawn> {
    draw::placed(
        rows,
        1,
        0,
        text::left_aligned(" Daisy SDRAM March Test"@, 68, ' '),
        Style { fg: Color::Black, on_cyan: true, bold: true },
        68,
    ) + draw::placed(rows, 1, 1, "Target "@, key(), 7) + draw::placed(
        rows,
        8,
        1,
        target_text(s.words as int, s.sdclk_mhz as int),
        val(),
        61,
    ) + draw::placed(
        rows,
        1,
        2,
        stats_text(s.pass as int, s.elapsed_s as int, s.throughput_mb_s as int),
        dim(),
        68,
    )
}

fn draw_header(ops: &mut Vec<DrawOp>, s: &TestState, rows: u16)
    ensures
        draw::drawn(final(ops)@) == draw::drawn(old(ops)@) + header_ops(*s, rows as int),
{
    let ghost before = draw::drawn(ops@);
    let title = Style { fg: Color::Black, on_cyan: true, bold: true };
    put(ops, rows, 1, 0, padded(owned(" Daisy SDRAM March Test"), 68), title, CONTENT_W);
    put(ops, rows, 1, 1, owned("Target "), plain_style(Color::Gray), 7);
    put(ops, rows, 8, 1, target_line(s.words, s.sdclk_mhz), plain_style(Color::White), 61);
    put(
        ops,
        rows,
        1,
        2,
        stats_line(s.pass, s.elapsed_s, s.throughput_mb_s),
        plain_style(Color::DarkGray),
        CONTENT_W,
    );
    assert(draw::drawn(ops@) =~= before + header_ops(*s, rows as int));
}

/// The name of the current group; nothing beyond the last.
pub open spec fn group_name(names: Seq<String>, group: int) -> Seq<char> {
    if group < names.len() {
        names[group]@
    } else {
        Seq::empty()
    }
}

/// A percentage in three places.
pub open spec fn percent_text(pct: int) -> Seq<char> {
    text::right_aligned(
        text::decimal(
            if pct < 100 {
                pct
            } else {
                100
            },
        ),
        3,
        ' ',
    ) + "%"@
}

/// Current test, address and gauge: rows 4 to 6; the heading of the list: row 8.
pub open spec fn progress_ops(s: TestState, names: Seq<String>, rows: int) -> Seq<draw::Drawn> {
    draw::placed(rows, 1, 4, "Test  "@, key(), 6) + draw::placed(
        rows,
        7,
        4,
        current_text(
            s.cur_group as int,
            names.len() as int,
            group_name(names, s.cur_group as int),
            s.phase_label@,
        ),
        val(),
        62,
    ) + draw::placed(rows, 1, 5, "Addr  "@, key(), 6) + draw::placed(
        rows,
        7,
        5,
        "0x"@ + text::hex8(s.addr as int, true),
        val(),
        12,
    ) + draw::placed(
        rows,
        1,
        6,
        gauge_text(s.phase_pct as int, 62),
        draw::plain(Color::Cyan),
        62,
    ) + draw::placed(rows, 64, 6, percent_text(s.phase_pct as int), val(), 4) + draw::placed(
        rows,
        1,
        8,
        "Tests"@,
        key(),
        8,
    )
}

fn draw_progress(ops: &mut Vec<DrawOp>, s: &TestState, names: &Vec<String>, rows: u16)
    ensures
        draw::drawn(final(ops)@) == draw::drawn(old(ops)@) + progress_ops(*s, names@, rows as int),
{
    let ghost before = draw::drawn(ops@);
    put(ops, rows, 1, 4, owned("Test  "), plain_style(Color::Gray), 6);
    proof {
        reveal_strlit("");
        assert(""@ =~= Seq::<char>::empty());
    }
    let current = if s.cur_group < names.len() {
        current_line(s.cur_group, names.len(), names[s.cur_group].as_str(), &s.phase_label)
    } else {
        current_line(s.cur_group, names.len(), "", &s.phase_label)
    };
    put(ops, rows, 7, 4, current, plain_style(Color::White), 62);
    put(ops, rows, 1, 5, owned("Addr  "), plain_style(Color::Gray), 6);
    let mut addr = owned("0x");
    push_hex8(&mut addr, s.addr as u64, true);
    put(ops, rows, 7, 5, addr, plain_style(Color::White), 12);
    put(ops, rows, 1, 6, gauge(s.phase_pct, 62), plain_style(Color::Cyan), 62);
    let pct: u64 = if s.phase_pct < 100 {
        s.phase_pct as u64
    } else {
        100
    };
    let mut p = number_text(pct, 10, false, 3, false);
    p.append("%");
    put(ops, rows, 64, 6, p, plain_style(Color::White), 4);
    put(ops, rows, 1, 8, owned("Tests"), plain_style(Color::Gray), 8);
    assert(draw::drawn(ops@) =~= before + progress_ops(*s, names@, rows as int));
}

// ---- the list of tests -----------------------------------------------------

/// Mark and style of group `gi`: failed, under way, passed or still to come.
pub open spec fn group_mark(s: TestState, gi: int) -> (Seq<char>, Style) {
    if s.group_errs@[gi] > 0 {
        ("\u{2717}"@, bad())
    } else if gi == s.cur_group && s.status == Status::Running {
        ("\u{25b6}"@, run())
    } else if gi < s.cur_group || s.pass > 1 {
        ("\u{2713}"@, ok())
    } else {
        ("\u{00b7}"@, dim())
    }
}

/// Most groups that a screen lists: each row, those below the list too, has a
/// 16-bit number.
pub const MAX_GROUPS: usize = 65_000;

/// Group `gi`, on row `9 + gi`.
pub open spec fn group_ops(s: TestState, names: Seq<String>, rows: int, gi: int) -> Seq<
    draw::Drawn,
> {
    let errs = s.group_errs@[gi];
    draw::placed(rows, 3, 9 + gi, group_mark(s, gi).0, group_mark(s, gi).1, 1) + draw::placed(
        rows,
        5,
        9 + gi,
        names[gi]@,
        val(),
        22,
    ) + draw::placed(
        rows,
        29,
        9 + gi,
        text::decimal(errs as int) + " err"@,
        if errs > 0 {
            bad()
        } else {
            dim()
        },
        12,
    )
}

/// The first `n` groups.
pub open spec fn list_ops(s: TestState, names: Seq<String>, rows: int, n: nat) -> Seq<draw::Drawn>
    decreases n,
{
    if n == 0 {
        Seq::empty()
    } else {
        list_ops(s, names, rows, (n - 1) as nat) + group_ops(s, names, rows, n - 1)
    }
}

fn draw_group(ops: &mut Vec<DrawOp>, s: &TestState, names: &Vec<String>, rows: u16, gi: usize)
    requires
        gi < names@.len() <= MAX_GROUPS,
        s.group_errs@.len() == names@.len(),
    ensures
        draw::drawn(final(ops)@) == draw::drawn(old(ops)@) + group_ops(
            *s,
            names@,
            rows as int,
            gi as int,
        ),
{
    let ghost before = draw::drawn(ops@);
    let y: u16 = 9 + gi as u16;
    let errs = s.group_errs[gi];
    let (mark, style) = if errs > 0 {
        ("\u{2717}", bold_style(Color::Red))
    } else if gi == s.cur_group && s.status == Status::Running {
        ("\u{25b6}", bold_style(Color::Yellow))
    } else if gi < s.cur_group || s.pass > 1 {
        ("\u{2713}", bold_style(Color::Green))
    } else {
        ("\u{00b7}", plain_style(Color::DarkGray))
    };
    put(ops, rows, 3, y, owned(mark), style, 1);
    put(ops, rows, 5, y, owned(names[gi].as_str()), plain_style(Color::White), 22);
    let mut e = String::new();
    push_decimal(&mut e, errs as u64);
    e.append(" err");
    assert(e@ =~= text::decimal(errs as int) + " err"@);
    let estyle = if errs > 0 {
        bold_style(Color::Red)
    } else {
        plain_style(Color::DarkGray)
    };
    put(ops, rows, 29, y, e, estyle, 12);
    assert(draw::drawn(ops@) =~= before + group_ops(*s, names@, rows as int, gi as int));
}

fn draw_list(ops: &mut Vec<DrawOp>, s: &TestState, names: &Vec<String>, rows: u16)
    requires
        names@.len() <= MAX_GROUPS,
        s.group_errs@.len() == names@.len(),
    ensures
        draw::drawn(final(ops)@) == draw::drawn(old(ops)@) + list_ops(
            *s,
            names@,
            rows as int,
            names@.len(),
        ),
{
    let ghost before = draw::drawn(ops@);
    assert(before + Seq::<draw::Drawn>::empty() =~= before);
    let mut gi: usize = 0;
    while gi < names.len()
        invariant
            gi <= names@.len() <= MAX_GROUPS,
            s.group_errs@.len() == names@.len(),
            draw::drawn(ops@) == before + list_ops(*s, names@, rows as int, gi as nat),
        decreases names@.len() - gi,
    {
        draw_group(ops, s, names, rows, gi);
        assert(draw::drawn(ops@) =~= before + list_ops(*s, names@, rows as int, (gi + 1) as nat));
        gi = gi + 1;
    }
}

// ---- the error log ---------------------------------------------------------

/// The first `n` failures, from row `y` on.
pub open spec fn failure_ops(
    failures: Seq<Failure>,
    bits: Seq<u32>,
    rows: int,
    y: int,
    n: nat,
) -> Seq<draw::Drawn>
    decreases n,
{
    if n == 0 {
        Seq::empty()
    } else {
        failure_ops(failures, bits, rows, y, (n - 1) as nat) + draw::placed(
            rows,
            3,
            y + n - 1,
            failure_text(failures[n - 1], bits[n - 1] as int),
            bad(),
            66,
        )
    }
}

/// The log under its heading: a dash, or the recent failures as far as there
/// are rows.
pub open spec fn log_ops(s: TestState, bits: Seq<u32>, rows: int, y: int) -> Seq<draw::Drawn> {
    draw::placed(
        rows,
        1,
        y - 1,
        "Errors ("@ + text::decimal(s.errlog.count() as int) + ")"@,
        key(),
        24,
    ) + if s.errlog.count() == 0 {
        draw::placed(rows, 3, y, "\u{2014}"@, dim(), 2)
    } else {
        failure_ops(s.errlog@, bits, rows, y, s.errlog@.len())
    }
}

/// The row after the log.
pub open spec fn log_end(s: TestState, rows: int, y: int) -> int {
    if s.errlog.count() == 0 || y >= rows {
        y
    } else if y + s.errlog@.len() <= rows {
        y + s.errlog@.len()
    } else {
        rows
    }
}

proof fn lemma_rows_below_draw_nothing(
    failures: Seq<Failure>,
    bits: Seq<u32>,
    rows: int,
    y: int,
    n: nat,
    m: nat,
)
    requires
        n <= m,
        y + n >= rows,
    ensures
        failure_ops(failures, bits, rows, y, m) == failure_ops(failures, bits, rows, y, n),
    decreases m,
{
    if n < m {
        lemma_rows_below_draw_nothing(failures, bits, rows, y, n, (m - 1) as nat);
        assert(failure_ops(failures, bits, rows, y, m) =~= failure_ops(
            failures,
            bits,
            rows,
            y,
            (m - 1) as nat,
        ));
    }
}

fn draw_log(ops: &mut Vec<DrawOp>, s: &TestState, bits: &Vec<u32>, rows: u16, y: u16) -> (end: u16)
    requires
        s.wf(),
        bits@.len() == s.errlog@.len() <= 8,
        1 <= y <= 65_100,
    ensures
        draw::drawn(final(ops)@) == draw::drawn(old(ops)@) + log_ops(
            *s,
            bits@,
            rows as int,
            y as int,
        ),
        end == log_end(*s, rows as int, y as int),
{
    let ghost before = draw::drawn(ops@);
    let mut title = owned("Errors (");
    push_decimal(&mut title, s.errlog.total() as u64);
    title.append(")");
    put(ops, rows, 1, y - 1, title, plain_style(Color::Gray), 24);
    let ghost titled = draw::drawn(ops@);
    if s.errlog.total() == 0 {
        put(ops, rows, 3, y, owned("\u{2014}"), plain_style(Color::DarkGray), 2);
        assert(draw::drawn(ops@) =~= before + log_ops(*s, bits@, rows as int, y as int));
        return y;
    }
    let mut k: usize = 0;
    assert(titled + Seq::<draw::Drawn>::empty() =~= titled);
    while k < bits.len() && y + (k as u16) < rows
        invariant
            s.wf(),
            k <= bits@.len(),
            bits@.len() == s.errlog@.len() <= 8,
            1 <= y <= 65_100,
            k > 0 ==> y + k <= rows,
            draw::drawn(ops@) == titled + failure_ops(
                s.errlog@,
                bits@,
                rows as int,
                y as int,
                k as nat,
            ),
        decreases bits@.len() - k,
    {
        if let Some(f) = s.errlog.recent(k) {
            put(ops, rows, 3, y + k as u16, failure_line(f, bits[k]), bold_style(Color::Red), 66);
        }
        assert(draw::drawn(ops@) =~= titled + failure_ops(
            s.errlog@,
            bits@,
            rows as int,
            y as int,
            (k + 1) as nat,
        ));
        k = k + 1;
    }
    proof {
        if k < bits@.len() {
            lemma_rows_below_draw_nothing(
                s.errlog@,
                bits@,
                rows as int,
                y as int,
                k as nat,
                bits@.len(),
            );
        }
        assert(draw::drawn(ops@) =~= before + log_ops(*s, bits@, rows as int, y as int));
    }
    y + k as u16
}

// ---- the footer ------------------------------------------------------------

/// Word and style of a status.
pub open spec fn status_text(s: Status) -> (Seq<char>, Style) {
    match s {
        Status::Waiting => ("WAITING FOR TERMINAL"@, dim()),
        Status::BringUp => ("BRINGING UP SDRAM\u{2026}"@, run()),
        Status::Running => ("RUNNING"@, run()),
        Status::Paused => ("PAUSED"@, draw::plain(Color::Yellow)),
        Status::Stopped => ("STOPPED"@, dim()),
    }
}

/// The verdict on `total` errors.
pub open spec fn badge_text(total: int) -> (Seq<char>, Style) {
    if total == 0 {
        ("\u{2014} PASS (no errors)"@, ok())
    } else {
        ("\u{2014} FAIL ("@ + text::decimal(total) + " errors)"@, bad())
    }
}

/// The keys that do something.
pub open spec fn hint_text(s: Status) -> Seq<char> {
    match s {
        Status::Paused => "[space] resume    [s] stop"@,
        Status::Stopped => "[space] start"@,
        Status::Running => "[space] pause     [s] stop"@,
        _ => ""@,
    }
}

/// Status, verdict and keys, from row `fy` on. There is no verdict before the
/// first run.
pub open spec fn footer_ops(s: TestState, rows: int, fy: int) -> Seq<draw::Drawn> {
    let word = status_text(s.status);
    let badge = badge_text(sum(s.group_errs@));
    draw::placed(rows, 1, fy, "Status:"@, key(), 8) + draw::placed(rows, 9, fy, word.0, word.1, 22)
        + (if s.status == Status::Waiting || s.status == Status::BringUp {
        Seq::empty()
    } else {
        draw::placed(rows, 10int + word.0.len(), fy, badge.0, badge.1, 24)
    }) + draw::placed(rows, 1, fy + 1, hint_text(s.status), dim(), 68)
}

fn status_word(s: Status) -> (r: (&'static str, Style))
    ensures
        (r.0@, r.1) == status_text(s),
        r.0@.len() <= 20,
{
    proof {
        reveal_strlit("WAITING FOR TERMINAL");
        reveal_strlit("BRINGING UP SDRAM\u{2026}");
        reveal_strlit("RUNNING");
        reveal_strlit("PAUSED");
        reveal_strlit("STOPPED");
    }
    match s {
        Status::Waiting => ("WAITING FOR TERMINAL", plain_style(Color::DarkGray)),
        Status::BringUp => ("BRINGING UP SDRAM\u{2026}", bold_style(Color::Yellow)),
        Status::Running => ("RUNNING", bold_style(Color::Yellow)),
        Status::Paused => ("PAUSED", plain_style(Color::Yellow)),
        Status::Stopped => ("STOPPED", plain_style(Color::DarkGray)),
    }
}

fn badge(total: u32) -> (r: (String, Style))
    ensures
        (r.0@, r.1) == badge_text(total as int),
{
    if total == 0 {
        (owned("\u{2014} PASS (no errors)"), bold_style(Color::Green))
    } else {
        let mut b = owned("\u{2014} FAIL (");
        push_decimal(&mut b, total as u64);
        b.append(" errors)");
        (b, bold_style(Color::Red))
    }
}

fn draw_footer(ops: &mut Vec<DrawOp>, s: &TestState, rows: u16, fy: u16)
    requires
        fy < u16::MAX,
        sum(s.group_errs@) <= u32::MAX,
    ensures
        draw::drawn(final(ops)@) == draw::drawn(old(ops)@) + footer_ops(*s, rows as int, fy as int),
{
    let ghost before = draw::drawn(ops@);
    let (word, style) = status_word(s.status);
    put(ops, rows, 1, fy, owned("Status:"), plain_style(Color::Gray), 8);
    put(ops, rows, 9, fy, owned(word), style, 22);
    if !(s.status == Status::Waiting || s.status == Status::BringUp) {
        let (b, bstyle) = badge(s.total_errs());
        let x: u16 = 9 + word.unicode_len() as u16 + 1;
        put(ops, rows, x, fy, b, bstyle, 24);
    }
    let hint = match s.status {
        Status::Paused => "[space] resume    [s] stop",
        Status::Stopped => "[space] start",
        Status::Running => "[space] pause     [s] stop",
        _ => "",
    };
    put(ops, rows, 1, fy + 1, owned(hint), plain_style(Color::DarkGray), CONTENT_W);
    assert(draw::drawn(ops@) =~= before + footer_ops(*s, rows as int, fy as int));
}

// ---- the whole screen ------------------------------------------------------

/// The row of the status.
pub open spec fn footer_row(s: TestState, groups: int, rows: int) -> int {
    let after = log_end(s, rows, 11 + groups) + 1;
    if rows - 3 > after {
        rows - 3
    } else {
        after
    }
}

/// What a frame draws, in order.
pub open spec fn screen_ops(s: TestState, names: Seq<String>, bits: Seq<u32>, rows: int) -> Seq<
    draw::Drawn,
> {
    let n = names.len();
    header_ops(s, rows) + progress_ops(s, names, rows) + list_ops(s, names, rows, n) + log_ops(
        s,
        bits,
        rows,
        11int + n,
    ) + footer_ops(s, rows, footer_row(s, n as int, rows))
}

/// A frame: what is drawn, and the size of the block from the top left corner
/// on that gets an opaque ground.
pub struct Screen {
    pub ops: Vec<DrawOp>,
    pub fill_w: u16,
    pub fill_h: u16,
}

/// Draws the screen on a terminal of `cols` by `rows`. The names are those of
/// the groups; `bits` holds the data bits at fault of each failure in the log.
pub fn render(s: &TestState, names: &Vec<String>, bits: &Vec<u32>, cols: u16, rows: u16) -> (f:
    Screen)
    requires
        s.wf(),
        names@.len() <= MAX_GROUPS,
        s.group_errs@.len() == names@.len(),
        bits@.len() == s.errlog@.len(),
        sum(s.group_errs@) <= u32::MAX,
    ensures
        draw::drawn(f.ops@) == screen_ops(*s, names@, bits@, rows as int),
        f.fill_w == if cols < 70 {
            cols
        } else {
            70
        },
        f.fill_h == ({
            let below = footer_row(*s, names@.len() as int, rows as int) + 1;
            if below < rows {
                below
            } else {
                rows as int
            }
        }),
{
    let mut ops: Vec<DrawOp> = Vec::new();
    proof {
        assert(draw::drawn(ops@) =~= Seq::empty());
        assert(Seq::<draw::Drawn>::empty() + header_ops(*s, rows as int) =~= header_ops(
            *s,
            rows as int,
        ));
    }
    draw_header(&mut ops, s, rows);
    draw_progress(&mut ops, s, names, rows);
    draw_list(&mut ops, s, names, rows);
    let y: u16 = 11 + names.len() as u16;
    let end = draw_log(&mut ops, s, bits, rows, y);
    let low = rows.saturating_sub(3);
    let fy: u16 = if low > end + 1 {
        low
    } else {
        end + 1
    };
    draw_footer(&mut ops, s, rows, fy);
    Screen {
        ops,
        fill_w: if cols < 70 {
            cols
        } else {
            70
        },
        fill_h: if fy + 1 < rows {
            fy + 1
        } else {
            rows
        },
    }
}

proof fn lemma_list_within(s: TestState, names: Seq<String>, rows: int, n: nat)
    ensures
        draw::within(rows, list_ops(s, names, rows, n)),
    decreases n,
{
    broadcast use {draw::lemma_within_both, draw::lemma_within_placed};

    if n > 0 {
        lemma_list_within(s, names, rows, (n - 1) as nat);
        assert(draw::within(rows, group_ops(s, names, rows, n - 1)));
    }
}

proof fn lemma_failures_within(failures: Seq<Failure>, bits: Seq<u32>, rows: int, y: int, n: nat)
    ensures
        draw::within(rows, failure_ops(failures, bits, rows, y, n)),
    decreases n,
{
    broadcast use {draw::lemma_within_both, draw::lemma_within_placed};

    if n > 0 {
        lemma_failures_within(failures, bits, rows, y, (n - 1) as nat);
    }
}

/// However short the terminal is, a frame draws nothing below it.
pub proof fn law_screen_stays_on_the_terminal(
    s: TestState,
    names: Seq<String>,
    bits: Seq<u32>,
    rows: int,
)
    ensures
        draw::within(rows, screen_ops(s, names, bits, rows)),
{
    broadcast use {draw::lemma_within_both, draw::lemma_within_placed};

    let n = names.len();
    lemma_list_within(s, names, rows, n);
    lemma_failures_within(s.errlog@, bits, rows, 11int + n, s.errlog@.len());
    assert(draw::within(rows, header_ops(s, rows)));
    assert(draw::within(rows, progress_ops(s, names, rows)));
    assert(draw::within(rows, log_ops(s, bits, rows, 11int + n)));
    assert(draw::within(rows, footer_ops(s, rows, footer_row(s, n as int, rows))));
}

/// The log keeps the front of its list, and all of it as long as there is room.
pub proof fn law_newest_failures_stay(s: Seq<Failure>, n: int, i: int)
    requires
        n >= 0,
    ensures
        s.len() <= n ==> newest(s, n).len() == s.len(),
        s.len() > n ==> newest(s, n).len() == n,
        0 <= i < newest(s, n).len() ==> newest(s, n)[i] == s[i],
{
}

/// Errors add up: one more group adds its own, and no group adds nothing.
pub proof fn law_errors_add_up(errs: Seq<u32>, more: u32)
    ensures
        sum(Seq::empty()) == 0,
        sum(errs.push(more)) == sum(errs) + more,
{
    assert(errs.push(more).drop_last() =~= errs);
}

/// A phase walks all sixteen million words of the memory, four bytes each. The
/// word shown runs up from the first or down from behind the last, so that at
/// any time the two directions are mirror images.
pub proof fn law_shown_words_run_through_the_memory(done: int)
    requires
        0 <= done,
    ensures
        SDRAM_WORDS * 4 == 64 * 1024 * 1024,
        done < SDRAM_WORDS ==> shown_word(true, done) == done,
        done < SDRAM_WORDS ==> shown_word(true, done) + shown_word(false, done) == SDRAM_WORDS,
        done >= SDRAM_WORDS ==> shown_word(true, done) == SDRAM_WORDS - 1 && shown_word(false, done)
            == 0,
{
}

/// One more byte of input adds at most its own key: a blank toggles, either case
/// of the letter S stops, and no other byte does anything. R reboots, and B
/// reboots to the bootloader.
pub proof fn law_keys_by_byte(input: Seq<u8>, b: u8)
    ensures
        !keys_in(Seq::empty()).toggle && !keys_in(Seq::empty()).stop,
        keys_in(input.push(b)).toggle == (keys_in(input).toggle || b == 0x20),
        keys_in(input.push(b)).stop == (keys_in(input).stop || b == 0x73 || b == 0x53),
        reboots(0x72) && reboots(0x62),
        b != 0x72 && b != 0x62 ==> !reboots(b),
{
    let all = input.push(b);
    assert forall|i: int| 0 <= i < input.len() implies input[i] == #[trigger] all[i] by {}
    assert(all[input.len() as int] == b);
    if keys_in(input).toggle {
        let i = choose|i: int| 0 <= i < input.len() && #[trigger] input[i] == 0x20;
        assert(all[i] == 0x20);
    }
    if keys_in(input).stop {
        let i = choose|i: int|
            0 <= i < input.len() && (#[trigger] input[i] == 0x73 || input[i] == 0x53);
        assert(all[i] == 0x73 || all[i] == 0x53);
    }
    if keys_in(all).toggle {
        let i = choose|i: int| 0 <= i < all.len() && #[trigger] all[i] == 0x20;
        if i < input.len() {
            assert(input[i] == 0x20);
        }
    }
    if keys_in(all).stop {
        let i = choose|i: int| 0 <= i < all.len() && (#[trigger] all[i] == 0x73 || all[i] == 0x53);
        if i < input.len() {
            assert(input[i] == 0x73 || input[i] == 0x53);
        }
    }
}

/// A stop ends the run whatever else was pressed. Without one, a run that is
/// paused holds and any other goes on; the toggle turns the two into each other,
/// and without it the status stays.
pub proof fn law_service_by_keys(status: Status, toggle: bool)
    ensures
        serviced(status, (Keys { toggle, stop: true })) == (status, Service::Stop),
        serviced(status, (Keys { toggle: false, stop: false })).0 == status,
        serviced(Status::Paused, (Keys { toggle: true, stop: false })).0 == Status::Running,
        status != Status::Paused ==> serviced(status, (Keys { toggle: true, stop: false })).0
            == Status::Paused,
        ({
            let r = serviced(status, (Keys { toggle, stop: false }));
            &&& r.0 == Status::Paused ==> r.1 == Service::Hold
            &&& r.0 != Status::Paused ==> r.1 == Service::Continue
        }),
{
}

/// A gauge is filled in proportion, rounded down to whole cells.
pub proof fn law_gauge_is_filled_in_proportion(pct: int, inner: int)
    requires
        0 <= inner,
        0 <= pct,
    ensures
        pct <= 100 ==> 100 * gauge_filled(pct, inner) <= inner * pct < 100 * gauge_filled(pct, inner)
            + 100,
        pct > 100 ==> gauge_filled(pct, inner) == inner,
{
}

/// The filled cells of a gauge come first, then the empty ones, between its two
/// ends.
pub proof fn law_gauge_cells_in_order(pct: int, w: int, i: int)
    requires
        0 <= pct,
        3 <= w <= 65535,
        0 <= i < w - 1,
    ensures
        gauge_text(pct, w).len() == w - 1,
        gauge_text(pct, w)[0] == '\u{2595}',
        gauge_text(pct, w)[w - 2] == '\u{258f}',
        1 <= i <= gauge_filled(pct, w - 3) ==> gauge_text(pct, w)[i] == '\u{2588}',
        gauge_filled(pct, w - 3) < i < w - 2 ==> gauge_text(pct, w)[i] == '\u{2591}',
{
    law_gauge_spans_its_width(pct, w);
    reveal_strlit("\u{2595}");
    reveal_strlit("\u{258f}");
    let inner = w - 3;
    let p = if pct < 100 {
        pct
    } else {
        100
    };
    assert(0 <= inner * p <= 100 * inner) by (nonlinear_arith)
        requires
            0 <= inner,
            0 <= p <= 100,
    ;
    let filled = gauge_filled(pct, inner);
    assert(0 <= filled <= inner);
    assert(text::repeated('\u{2588}', filled).len() == filled);
    assert(text::repeated('\u{2591}', inner - filled).len() == inner - filled);
}

/// The mark of a group: a cross where it has errors, whatever else holds; an
/// arrow where it is under way; a tick where it is done; else a dot.
pub proof fn law_marks_by_state(s: TestState, gi: int)
    ensures
        s.group_errs@[gi] > 0 ==> group_mark(s, gi).0 == "\u{2717}"@ && group_mark(s, gi).1.fg
            == Color::Red,
        s.group_errs@[gi] == 0 && gi == s.cur_group && s.status == Status::Running ==> group_mark(
            s,
            gi,
        ).0 == "\u{25b6}"@ && group_mark(s, gi).1.fg == Color::Yellow,
        s.group_errs@[gi] == 0 && !(gi == s.cur_group && s.status == Status::Running) ==> {
            &&& gi < s.cur_group || s.pass > 1 ==> group_mark(s, gi).0 == "\u{2713}"@
                && group_mark(s, gi).1.fg == Color::Green
            &&& gi >= s.cur_group && s.pass <= 1 ==> group_mark(s, gi).0 == "\u{00b7}"@
                && group_mark(s, gi).1.fg == Color::DarkGray
        },
{
}

/// Each group of the list has a row of its own, in order, with its mark, its name
/// and its number of errors.
pub proof fn law_groups_have_their_rows(s: TestState, names: Seq<String>, rows: int, n: nat, gi: int)
    requires
        9 + n <= rows,
        0 <= gi < n,
    ensures
        list_ops(s, names, rows, n).len() == 3 * n,
        ({
            let mark = list_ops(s, names, rows, n)[3 * gi];
            let name = list_ops(s, names, rows, n)[3 * gi + 1];
            let errs = list_ops(s, names, rows, n)[3 * gi + 2];
            &&& mark.x < name.x < errs.x
            &&& mark.y == 9 + gi && name.y == 9 + gi && errs.y == 9 + gi
            &&& mark.text == group_mark(s, gi).0
            &&& name.text == names[gi]@
            &&& errs.text == text::decimal(s.group_errs@[gi] as int) + " err"@
            &&& s.group_errs@[gi] > 0 <==> errs.style.fg == Color::Red
        }),
    decreases n,
{
    if n > 1 {
        if gi < n - 1 {
            law_groups_have_their_rows(s, names, rows, (n - 1) as nat, gi);
        } else {
            law_groups_have_their_rows(s, names, rows, (n - 1) as nat, 0);
        }
    }
    reveal_with_fuel(list_ops, 2);
    assert(group_ops(s, names, rows, n - 1).len() == 3);
}

/// Each failure of the log has a row of its own, newest first.
pub proof fn law_failures_have_their_rows(
    failures: Seq<Failure>,
    bits: Seq<u32>,
    rows: int,
    y: int,
    n: nat,
    i: int,
)
    requires
        y + n <= rows,
        0 <= i < n,
    ensures
        failure_ops(failures, bits, rows, y, n).len() == n,
        failure_ops(failures, bits, rows, y, n)[i].y == y + i,
        failure_ops(failures, bits, rows, y, n)[i].text == failure_text(failures[i], bits[i] as int),
        failure_ops(failures, bits, rows, y, n)[i].style.fg == Color::Red,
    decreases n,
{
    if n > 1 {
        if i < n - 1 {
            law_failures_have_their_rows(failures, bits, rows, y, (n - 1) as nat, i);
        } else {
            law_failures_have_their_rows(failures, bits, rows, y, (n - 1) as nat, 0);
        }
    }
    reveal_with_fuel(failure_ops, 2);
}

/// The status line: the verdict is a pass exactly where no group has an error,
/// and the hints offer what the keys do in that status.
pub proof fn law_status_line_by_state(total: int, a: Status, b: Status)
    requires
        total >= 0,
    ensures
        total == 0 ==> badge_text(total).0 == "\u{2014} PASS (no errors)"@ && badge_text(total).1.fg
            == Color::Green,
        total > 0 ==> badge_text(total).0 == "\u{2014} FAIL ("@ + text::decimal(total)
            + " errors)"@ && badge_text(total).1.fg == Color::Red,
        a != b ==> status_text(a).0 != status_text(b).0,
        status_text(Status::Running).0 == "RUNNING"@,
        status_text(Status::Paused).0 == "PAUSED"@,
        status_text(Status::Stopped).0 == "STOPPED"@,
        hint_text(Status::Paused) == "[space] resume    [s] stop"@,
        hint_text(Status::Running) == "[space] pause     [s] stop"@,
        hint_text(Status::Stopped) == "[space] start"@,
        hint_text(Status::Waiting) == ""@ && hint_text(Status::BringUp) == ""@,
{
    reveal_strlit("WAITING FOR TERMINAL");
    reveal_strlit("BRINGING UP SDRAM\u{2026}");
    reveal_strlit("RUNNING");
    reveal_strlit("PAUSED");
    reveal_strlit("STOPPED");
    assert(status_text(Status::Waiting).0.len() == 20);
    assert(status_text(Status::BringUp).0.len() == 18);
    assert(status_text(Status::Running).0[0] == 'R');
    assert(status_text(Status::Stopped).0[0] == 'S');
    assert(status_text(Status::Paused).0.len() == 6);
}

/// The status stands three rows above the bottom, or lower where the log needs
/// the room: never on a row of the log.
pub proof fn law_footer_stands_below_the_log(s: TestState, groups: int, rows: int)
    requires
        groups >= 0,
    ensures
        footer_row(s, groups, rows) >= rows - 3,
        footer_row(s, groups, rows) > log_end(s, rows, 11 + groups) >= 11 + groups,
        footer_row(s, groups, rows) == rows - 3 || footer_row(s, groups, rows) == log_end(
            s,
            rows,
            11 + groups,
        ) + 1,
        s.errlog.count() > 0 && 11 + groups + s.errlog@.len() <= rows ==> log_end(
            s,
            rows,
            11 + groups,
        ) == 11 + groups + s.errlog@.len(),
{
}

/// The current test is counted from one; past the last, the last is shown. Its
/// name stands behind it, or nothing where it has none.
pub proof fn law_current_test_is_counted_from_one(
    names: Seq<String>,
    group: int,
    name: Seq<char>,
    label: Seq<char>,
)
    requires
        group >= 0,
    ensures
        group < names.len() ==> current_text(group, names.len() as int, name, label) == "["@
            + text::decimal(group + 1) + "/"@ + text::decimal(names.len() as int) + "] "@ + name
            + "  \u{2014}  "@ + label,
        group >= names.len() ==> current_text(group, names.len() as int, name, label) == "["@
            + text::decimal(names.len() as int) + "/"@ + text::decimal(names.len() as int) + "] "@
            + name + "  \u{2014}  "@ + label,
        group < names.len() ==> group_name(names, group) == names[group]@,
        group >= names.len() ==> group_name(names, group).len() == 0,
{
    if group == names.len() - 1 {
        assert(group + 1 == names.len());
    }
}

/// The elapsed time is shown in minutes and seconds, two places each; the pass
/// stands before it and the throughput behind.
pub proof fn law_time_is_shown_in_minutes_and_seconds(pass: int, minutes: int, seconds: int, mb_s: int)
    requires
        minutes >= 0,
        0 <= seconds < 60,
    ensures
        stats_text(pass, 60 * minutes + seconds, mb_s) == "Pass "@ + text::left_aligned(
            text::decimal(pass),
            4,
            ' ',
        ) + "   Elapsed "@ + text::right_aligned(text::decimal(minutes), 2, '0') + ":"@
            + text::right_aligned(text::decimal(seconds), 2, '0') + "   Throughput "@
            + text::decimal(mb_s) + " MB/s"@,
{
}

/// A failure is shown with its address, the word expected there, the word read,
/// and the bits in which they differ, in this order.
pub proof fn law_failures_are_shown_in_order(addr: u32, expected: u32, read: u32, bits: int)
    ensures
        failure_text((addr, expected, read), bits) == "0x"@ + text::hex8(addr as int, true)
            + "  exp "@ + text::hex8(expected as int, true) + " got "@ + text::hex8(
            read as int,
            true,
        ) + "  D~0x"@ + text::hex8(bits, true),
{
}

/// The log has a heading with the number of failures. Without one a dash stands
/// below it, and otherwise the failures retained.
pub proof fn law_log_shows_a_dash_or_the_failures(s: TestState, bits: Seq<u32>, rows: int, y: int, i: int)
    requires
        y + s.errlog@.len() < rows,
    ensures
        log_ops(s, bits, rows, y)[0].text == "Errors ("@ + text::decimal(s.errlog.count() as int)
            + ")"@,
        log_ops(s, bits, rows, y)[0].y == y - 1,
        s.errlog.count() == 0 ==> log_ops(s, bits, rows, y).len() == 2 && log_ops(
            s,
            bits,
            rows,
            y,
        )[1].text == "\u{2014}"@,
        s.errlog.count() > 0 && 0 <= i < s.errlog@.len() ==> {
            &&& log_ops(s, bits, rows, y).len() == 1 + s.errlog@.len()
            &&& log_ops(s, bits, rows, y)[1 + i].text == failure_text(s.errlog@[i], bits[i] as int)
            &&& log_ops(s, bits, rows, y)[1 + i].y == y + i
            &&& log_ops(s, bits, rows, y)[1 + i].x == 3
        },
{
    if s.errlog.count() > 0 && 0 <= i < s.errlog@.len() {
        law_failures_have_their_rows(s.errlog@, bits, rows, y, s.errlog@.len(), i);
        lemma_failures_column(s.errlog@, bits, rows, y, s.errlog@.len(), i);
    }
}

proof fn lemma_failures_column(
    failures: Seq<Failure>,
    bits: Seq<u32>,
    rows: int,
    y: int,
    n: nat,
    i: int,
)
    requires
        y + n <= rows,
        0 <= i < n,
    ensures
        failure_ops(failures, bits, rows, y, n).len() == n,
        failure_ops(failures, bits, rows, y, n)[i].x == 3,
    decreases n,
{
    if n > 1 {
        lemma_failures_column(
            failures,
            bits,
            rows,
            y,
            (n - 1) as nat,
            if i < n - 1 {
                i
            } else {
                0
            },
        );
    }
    reveal_with_fuel(failure_ops, 2);
}

/// The head of the screen: the title, what is tested, and how it goes.
pub proof fn law_header_names_the_target(s: TestState, rows: int)
    requires
        rows >= 3,
    ensures
        header_ops(s, rows).len() == 4,
        header_ops(s, rows)[0].y == 0 && header_ops(s, rows)[0].style.on_cyan,
        header_ops(s, rows)[2].y == 1,
        header_ops(s, rows)[2].text == "64 MiB @ 0xC0000000  "@ + text::decimal(s.words as int)
            + " words  SDCLK "@ + text::decimal(s.sdclk_mhz as int) + " MHz  non-cacheable"@,
        header_ops(s, rows)[3].y == 2,
        header_ops(s, rows)[3].text == stats_text(
            s.pass as int,
            s.elapsed_s as int,
            s.throughput_mb_s as int,
        ),
{
}

/// The progress of the screen: the current test on row 4, the address on row 5,
/// gauge and percentage on row 6.
pub proof fn law_progress_has_its_rows(s: TestState, names: Seq<String>, rows: int)
    requires
        rows >= 9,
    ensures
        progress_ops(s, names, rows).len() == 7,
        progress_ops(s, names, rows)[1].y == 4,
        progress_ops(s, names, rows)[1].text == current_text(
            s.cur_group as int,
            names.len() as int,
            group_name(names, s.cur_group as int),
            s.phase_label@,
        ),
        progress_ops(s, names, rows)[3].y == 5,
        progress_ops(s, names, rows)[3].text == "0x"@ + text::hex8(s.addr as int, true),
        progress_ops(s, names, rows)[4].y == 6 && progress_ops(s, names, rows)[5].y == 6,
        progress_ops(s, names, rows)[4].text == gauge_text(s.phase_pct as int, 62),
        s.phase_pct <= 100 ==> progress_ops(s, names, rows)[5].text == text::right_aligned(
            text::decimal(s.phase_pct as int),
            3,
            ' ',
        ) + "%"@,
        s.phase_pct > 100 ==> progress_ops(s, names, rows)[5].text == text::right_aligned(
            text::decimal(100),
            3,
            ' ',
        ) + "%"@,
{
    if s.phase_pct == 100 {
        assert(percent_text(100) == text::right_aligned(text::decimal(100), 3, ' ') + "%"@);
    }
}

/// The foot of the screen: status and verdict on one row, the keys below. There
/// is no verdict before the first run.
pub proof fn law_footer_has_a_verdict_once_run(s: TestState, rows: int, fy: int)
    requires
        fy + 1 < rows,
    ensures
        footer_ops(s, rows, fy)[1].text == status_text(s.status).0,
        footer_ops(s, rows, fy)[1].y == fy,
        s.status == Status::Waiting || s.status == Status::BringUp ==> footer_ops(s, rows, fy).len()
            == 3 && footer_ops(s, rows, fy)[2].text == hint_text(s.status) && footer_ops(
            s,
            rows,
            fy,
        )[2].y == fy + 1,
        s.status != Status::Waiting && s.status != Status::BringUp ==> footer_ops(
            s,
            rows,
            fy,
        ).len() == 4 && footer_ops(s, rows, fy)[2].text == badge_text(sum(s.group_errs@)).0
            && footer_ops(s, rows, fy)[2].y == fy && footer_ops(s, rows, fy)[3].text == hint_text(
            s.status,
        ) && footer_ops(s, rows, fy)[3].y == fy + 1,
{
}

/// The verdict stands right behind the status word, a blank between them.
pub proof fn law_verdict_stands_behind_the_status(s: TestState, rows: int, fy: int)
    requires
        fy + 1 < rows,
        s.status != Status::Waiting && s.status != Status::BringUp,
    ensures
        footer_ops(s, rows, fy)[1].x == 9,
        footer_ops(s, rows, fy)[2].x == footer_ops(s, rows, fy)[1].x + status_text(
            s.status,
        ).0.len() + 1,
{
}

/// The title spans the sixty-eight columns of the screen.
pub proof fn law_title_spans_the_screen(s: TestState, rows: int)
    requires
        rows >= 1,
    ensures
        header_ops(s, rows)[0].x == 1,
        header_ops(s, rows)[0].maxw == 68 && CONTENT_W == 68,
        header_ops(s, rows)[0].text == text::left_aligned(" Daisy SDRAM March Test"@, 68, ' '),
{
}

} // verus!
