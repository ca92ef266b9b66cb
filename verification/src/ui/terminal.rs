//! A terminal on the other end of the serial link: its size, when to repaint,
//! and how output drains.
use vstd::prelude::*;

verus! {

/// What the interface knows of its terminal.
#[derive(Debug, Clone, Copy, PartialEq, Eq, Structural)]
pub struct Terminal {
    pub cols: u16,
    pub rows: u16,
}

/// What a size report leads to.
#[derive(Debug, Clone, Copy, PartialEq, Eq, Structural)]
pub struct SizeAction {
    /// The drawing area takes the terminal's new size.
    pub resize: bool,
    /// The client is known to listen: wipe its screen and repaint in full.
    pub clear: bool,
}

/// A report of a size is heeded if neither side is zero.
pub open spec fn heeded(reported: Option<(u16, u16)>) -> bool {
    reported matches Some(s) && s.0 > 0 && s.1 > 0
}

impl Terminal {
    /// The pedal panel's terminal before it has answered.
    pub fn panel() -> (t: Self)
        ensures
            t == (Terminal { cols: 80, rows: 24 }),
    {
        Terminal { cols: 80, rows: 24 }
    }

    /// The memory test's terminal before it has answered.
    pub fn memory_test() -> (t: Self)
        ensures
            t == (Terminal { cols: 72, rows: 28 }),
    {
        Terminal { cols: 72, rows: 28 }
    }

    /// Takes the size that the input held, if it held one. `clears` tells whether
    /// the interface wipes the screen on every answer.
    pub fn on_input(&mut self, reported: Option<(u16, u16)>, clears: bool) -> (a: SizeAction)
        ensures
            *final(self) == if heeded(reported) {
                Terminal { cols: (reported->0).0, rows: (reported->0).1 }
            } else {
                *old(self)
            },
            a.resize == (heeded(reported) && *final(self) != *old(self)),
            a.clear == (clears && heeded(reported)),
    {
        if let Some((cols, rows)) = reported {
            if cols > 0 && rows > 0 {
                let resize = cols != self.cols || rows != self.rows;
                if resize {
                    self.cols = cols;
                    self.rows = rows;
                }
                return SizeAction { resize, clear: clears };
            }
        }
        SizeAction { resize: false, clear: false }
    }
}

/// A terminal attaches: its ready line goes from off to on.
pub fn attached(dtr: bool, last_dtr: bool) -> (b: bool)
    ensures
        b == (dtr && !last_dtr),
{
    dtr && !last_dtr
}

/// Whether a rendered frame is still waiting to be sent.
pub fn output_pending(pending: &Vec<u8>) -> (b: bool)
    ensures
        b == (pending@.len() > 0),
{
    pending.len() > 0
}

/// Drops what the link has accepted: `None` if it took nothing.
pub fn drain_to(pending: &mut Vec<u8>, accepted: Option<usize>)
    ensures
        final(pending)@ == match accepted {
            Some(n) => if n <= old(pending)@.len() {
                old(pending)@.skip(n as int)
            } else {
                Seq::empty()
            },
            None => old(pending)@,
        },
{
    if let Some(n) = accepted {
        let k: usize = if n < pending.len() {
            n
        } else {
            pending.len()
        };
        let ghost before = pending@;
        let mut rest: Vec<u8> = Vec::new();
        let mut i: usize = k;
        while i < pending.len()
            invariant
                k <= i <= pending@.len(),
                pending@ == before,
                rest@ =~= before.subrange(k as int, i as int),
            decreases pending@.len() - i,
        {
            rest.push(pending[i]);
            i = i + 1;
        }
        *pending = rest;
        proof {
            if n <= before.len() {
                assert(pending@ =~= before.skip(n as int));
            } else {
                assert(pending@ =~= Seq::empty());
            }
        }
    }
}

/// Draining in two steps is draining once: no byte is sent twice or lost.
pub proof fn law_draining_is_gapless(pending: Seq<u8>, n: int, m: int)
    requires
        0 <= n,
        0 <= m,
        n + m <= pending.len(),
    ensures
        pending.skip(n).skip(m) == pending.skip(n + m),
        pending.take(n) + pending.skip(n).take(m) == pending.take(n + m),
{
    assert(pending.skip(n).skip(m) =~= pending.skip(n + m));
    assert(pending.take(n) + pending.skip(n).take(m) =~= pending.take(n + m));
}

/// Paces the panel off the cycle counter: switches are sampled every
/// millisecond, and a frame is drawn every fifty.
#[derive(Debug, Clone, Copy)]
pub struct Pacer {
    debounce_period: u32,
    render_period: u32,
    last_debounce: u32,
    last_render: u32,
}

/// Cycles from `since` to `now` on a counter that wraps.
pub open spec fn cycles_since(now: u32, since: u32) -> int {
    (now - since) % 0x1_0000_0000
}

impl Pacer {
    /// Cycles between two samples of the switches.
    pub closed spec fn sample_period(&self) -> int {
        self.debounce_period as int
    }

    /// Cycles between two frames.
    pub closed spec fn frame_period(&self) -> int {
        self.render_period as int
    }

    /// Cycle count of the last sample.
    pub closed spec fn sampled_at(&self) -> u32 {
        self.last_debounce
    }

    /// Cycle count of the last frame.
    pub closed spec fn drawn_at(&self) -> u32 {
        self.last_render
    }

    /// A pacer for a system clock of `sys_ck` hertz, started at cycle count
    /// `now`.
    pub fn new(sys_ck: u32, now: u32) -> (p: Self)
        ensures
            p.sample_period() == sys_ck as int / 1000,
            p.frame_period() == (sys_ck as int / 1000) * 50,
            p.sampled_at() == now,
            p.drawn_at() == now,
    {
        let cyc_per_ms: u32 = sys_ck / 1000;
        Pacer {
            debounce_period: cyc_per_ms,
            render_period: cyc_per_ms * 50,
            last_debounce: now,
            last_render: now,
        }
    }

    /// Whether the switches are due for a sample at `now`; notes it if so.
    pub fn sample_due(&mut self, now: u32) -> (due: bool)
        ensures
            due == (cycles_since(now, old(self).sampled_at()) >= old(self).sample_period()),
            final(self).sampled_at() == if due {
                now
            } else {
                old(self).sampled_at()
            },
            final(self).drawn_at() == old(self).drawn_at(),
            final(self).sample_period() == old(self).sample_period(),
            final(self).frame_period() == old(self).frame_period(),
    {
        if now.wrapping_sub(self.last_debounce) >= self.debounce_period {
            self.last_debounce = now;
            true
        } else {
            false
        }
    }

    /// Whether a frame is due at `now`, the previous one having drained; notes it
    /// if so.
    pub fn frame_due(&mut self, now: u32, pending: bool) -> (due: bool)
        ensures
            due == (cycles_since(now, old(self).drawn_at()) >= old(self).frame_period()
                && !pending),
            final(self).drawn_at() == if due {
                now
            } else {
                old(self).drawn_at()
            },
            final(self).sampled_at() == old(self).sampled_at(),
            final(self).sample_period() == old(self).sample_period(),
            final(self).frame_period() == old(self).frame_period(),
    {
        if now.wrapping_sub(self.last_render) >= self.render_period && !pending {
            self.last_render = now;
            true
        } else {
            false
        }
    }
}

/// A reported size counts only if the terminal has rows and columns at all.
pub proof fn law_empty_sizes_are_ignored(cols: u16, rows: u16)
    ensures
        heeded(Some((cols, rows))) <==> cols != 0 && rows != 0,
        !heeded(None),
{
}

/// Time is counted round the wrap of the counter.
pub proof fn law_cycles_count_round_the_wrap(now: u32, since: u32)
    ensures
        now >= since ==> cycles_since(now, since) == now - since,
        now < since ==> cycles_since(now, since) == now + 0x1_0000_0000 - since,
{
}

} // verus!
