//! A cloud of grains over a ring of recorded input: when a grain starts, which
//! voice takes it, and where in the past it reads.
//!
//! The spread of the grains comes from a seeded generator, so that the same seed
//! and the same input give the same cloud.
use super::fft;
use super::noise;
use super::noise::Prng;
use super::slices::fill;
use vstd::prelude::*;

verus! {

/// Grains that can sound at a time.
pub const MAX_GRAINS: usize = 12;

/// A granular cloud over a borrowed ring.
pub struct Granular<'a, T> {
    buf: &'a mut [T],
    write_pos: usize,
    frozen: bool,
    rng: Prng,
    active: [bool; MAX_GRAINS],
    spawn_interval: usize,
    spawn_timer: usize,
    next_spawn: usize,
    backoff_min: usize,
    spray: usize,
}

/// What a cloud is made of.
#[verifier::ext_equal]
pub struct Cloud<T> {
    /// The recorded samples.
    pub ring: Seq<T>,
    /// Where the next sample is recorded.
    pub head: int,
    /// Recording is stopped.
    pub frozen: bool,
    /// State of the generator.
    pub random: u32,
    /// Voices that sound.
    pub active: Seq<bool>,
    /// Mean samples between two grains.
    pub interval: int,
    /// Samples since the last grain.
    pub timer: int,
    /// Samples from the last grain to the next.
    pub target: int,
    /// Least distance behind the head.
    pub backoff: int,
    /// Range of the random distance on top.
    pub spray: int,
}

/// The larger of two.
pub open spec fn at_least(v: int, least: int) -> int {
    if v < least {
        least
    } else {
        v
    }
}

/// The first voice that does not sound, from `i` on; the number of voices if
/// there is none.
pub open spec fn free_voice(active: Seq<bool>, i: int) -> int
    decreases active.len() - i,
{
    if i >= active.len() {
        active.len() as int
    } else if !active[i] {
        i
    } else {
        free_voice(active, i + 1)
    }
}

/// The place `back` samples behind `head` in a ring of `cap`.
pub open spec fn behind(head: int, cap: int, back: int) -> int {
    (head + cap - back % cap) % cap
}

impl<'a, T: Copy> Granular<'a, T> {
    /// What the cloud is made of.
    pub closed spec fn view(&self) -> Cloud<T> {
        Cloud {
            ring: self.buf@,
            head: self.write_pos as int,
            frozen: self.frozen,
            random: self.rng@,
            active: self.active@,
            interval: self.spawn_interval as int,
            timer: self.spawn_timer as int,
            target: self.next_spawn as int,
            backoff: self.backoff_min as int,
            spray: self.spray as int,
        }
    }

    /// Validity of a cloud.
    pub closed spec fn wf(&self) -> bool {
        &&& fft::is_pow2(self.buf@.len())
        &&& self.buf@.len() >= 4096
        &&& self.buf@.len() * 2 <= usize::MAX
        &&& self.write_pos < self.buf@.len()
        &&& self.spawn_timer < usize::MAX
        &&& self.spray >= 1
        &&& self.backoff_min + self.spray <= usize::MAX
        &&& self.rng@ != 0
    }

    /// A cloud over `buf`, whose length is a power of two; `grain_len` samples in
    /// a grain, six of which overlap on average.
    pub fn new(buf: &'a mut [T], silence: T, grain_len: usize, seed: u32) -> (g: Self)
        requires
            fft::is_pow2(old(buf)@.len()),
            old(buf)@.len() >= 4096,
            old(buf)@.len() * 2 <= usize::MAX,
            grain_len + old(buf)@.len() <= usize::MAX,
        ensures
            g.wf(),
            g@ == (Cloud {
                ring: Seq::new(old(buf)@.len(), |i: int| silence),
                head: 0,
                frozen: false,
                random: if seed == 0 {
                    0x9E37_79B9
                } else {
                    seed
                },
                active: Seq::new(12, |i: int| false),
                interval: at_least(grain_len as int / 6, 1),
                timer: 0,
                target: at_least(grain_len as int / 6, 1),
                backoff: grain_len as int,
                spray: old(buf)@.len() as int / 2,
            }),
    {
        let cap = buf.len();
        fill(buf, silence);
        let spawn_interval: usize = if grain_len / 6 < 1 {
            1
        } else {
            grain_len / 6
        };
        let active = [false; MAX_GRAINS];
        assert(active@ =~= Seq::new(12, |i: int| false));
        Granular {
            buf,
            write_pos: 0,
            frozen: false,
            rng: Prng::new(seed),
            active,
            spawn_interval,
            spawn_timer: 0,
            next_spawn: spawn_interval,
            backoff_min: grain_len,
            spray: cap / 2,
        }
    }

    /// Sets the grain length, in samples.
    pub fn set_grain_len(&mut self, grain_len: usize)
        requires
            old(self).wf(),
            at_least(grain_len as int, 1) + old(self)@.spray <= usize::MAX,
        ensures
            final(self).wf(),
            final(self)@ == (Cloud { backoff: at_least(grain_len as int, 1), ..old(self)@ }),
    {
        self.backoff_min = if grain_len < 1 {
            1
        } else {
            grain_len
        };
    }

    /// Sets the mean samples between two grains.
    pub fn set_density(&mut self, interval: usize)
        requires
            old(self).wf(),
        ensures
            final(self).wf(),
            final(self)@ == (Cloud {
                interval: at_least(interval as int, 1),
                target: at_least(interval as int, 1),
                ..old(self)@
            }),
    {
        self.spawn_interval = if interval < 1 {
            1
        } else {
            interval
        };
        self.next_spawn = self.spawn_interval;
    }

    /// Mean samples between two grains.
    pub fn interval(&self) -> (n: usize)
        ensures
            n == self@.interval,
    {
        self.spawn_interval
    }

    /// Stops or resumes recording; while it is stopped, the cloud keeps grazing
    /// the same moment.
    pub fn set_frozen(&mut self, frozen: bool)
        requires
            old(self).wf(),
        ensures
            final(self).wf(),
            final(self)@ == (Cloud { frozen, ..old(self)@ }),
    {
        self.frozen = frozen;
    }

    /// Whether recording is stopped.
    pub fn is_frozen(&self) -> (b: bool)
        ensures
            b == self@.frozen,
    {
        self.frozen
    }

    /// Records one sample, unless the buffer is held.
    pub fn record(&mut self, x: T)
        requires
            old(self).wf(),
        ensures
            final(self).wf(),
            old(self)@.frozen ==> final(self)@ == old(self)@,
            !old(self)@.frozen ==> final(self)@ == (Cloud {
                ring: old(self)@.ring.update(old(self)@.head, x),
                head: (old(self)@.head + 1) % old(self)@.ring.len() as int,
                ..old(self)@
            }),
    {
        if !self.frozen {
            let cap = self.buf.len();
            let at = self.write_pos;
            self.buf[at] = x;
            self.write_pos = (at + 1) % cap;
        }
    }

    /// Counts one sample; tells whether a grain is due, and starts the count over
    /// if it is.
    pub fn due(&mut self) -> (b: bool)
        requires
            old(self).wf(),
        ensures
            final(self).wf(),
            b == (old(self)@.timer + 1 >= old(self)@.target),
            final(self)@ == (Cloud {
                timer: if b {
                    0
                } else {
                    old(self)@.timer + 1
                },
                ..old(self)@
            }),
    {
        let t: usize = self.spawn_timer + 1;
        if t >= self.next_spawn {
            self.spawn_timer = 0;
            true
        } else {
            self.spawn_timer = t;
            false
        }
    }

    /// Starts a grain in the first voice that is free: the voice, and where the
    /// grain reads. Nothing is drawn when every voice sounds.
    pub fn spawn(&mut self) -> (r: Option<(usize, usize)>)
        requires
            old(self).wf(),
        ensures
            final(self).wf(),
            ({
                let c = old(self)@;
                let v = free_voice(c.active, 0);
                let word = noise::xorshift(c.random);
                let back = c.backoff + word as int % at_least(c.spray, 1);
                if v < 12 {
                    &&& r == Some((v as usize, behind(c.head, c.ring.len() as int, back) as usize))
                    &&& final(self)@ == (Cloud {
                        random: word,
                        active: c.active.update(v, true),
                        ..c
                    })
                } else {
                    &&& r is None
                    &&& final(self)@ == c
                }
            }),
            r matches Some((v, start)) ==> !old(self)@.active[v as int] && start
                < old(self)@.ring.len(),
    {
        let mut v: usize = 0;
        while v < MAX_GRAINS && self.active[v]
            invariant
                v <= 12,
                self@ == old(self)@,
                self.wf(),
                free_voice(self@.active, 0) == free_voice(self@.active, v as int),
            decreases 12 - v,
        {
            v = v + 1;
        }
        assert(free_voice(self@.active, 0) == v);
        if v >= MAX_GRAINS {
            return None;
        }
        let ghost x = self.rng@;
        let word = self.rng.next_u32();
        proof {
            noise::law_state_stays_nonzero(x, 1);
            reveal_with_fuel(noise::state_after, 2);
        }
        let draw: usize = word as usize % self.spray;
        let back: usize = self.backoff_min + draw;
        let cap = self.buf.len();
        let start: usize = (self.write_pos + cap - back % cap) % cap;
        self.active[v] = true;
        Some((v, start))
    }

    /// Sets when the next grain is due, in samples from the last.
    pub fn schedule(&mut self, target: usize)
        requires
            old(self).wf(),
        ensures
            final(self).wf(),
            final(self)@ == (Cloud { target: at_least(target as int, 1), ..old(self)@ }),
    {
        self.next_spawn = if target < 1 {
            1
        } else {
            target
        };
    }

    /// Draws the next 24 random bits.
    pub fn next_bits24(&mut self) -> (r: u32)
        requires
            old(self).wf(),
        ensures
            final(self).wf(),
            r == noise::xorshift(old(self)@.random) / 256,
            final(self)@ == (Cloud {
                random: noise::xorshift(old(self)@.random),
                ..old(self)@
            }),
    {
        let ghost x = self.rng@;
        proof {
            noise::law_state_stays_nonzero(x, 1);
            reveal_with_fuel(noise::state_after, 2);
        }
        self.rng.next_bits24()
    }

    /// Whether a voice sounds.
    pub fn sounds(&self, v: usize) -> (b: bool)
        requires
            v < MAX_GRAINS,
        ensures
            b == self@.active[v as int],
    {
        self.active[v]
    }

    /// Ends the grain of a voice.
    pub fn retire(&mut self, v: usize)
        requires
            old(self).wf(),
            v < MAX_GRAINS,
        ensures
            final(self).wf(),
            final(self)@ == (Cloud {
                active: old(self)@.active.update(v as int, false),
                ..old(self)@
            }),
    {
        self.active[v] = false;
    }

    /// The two recorded samples between which a read at `i` and a fraction lies.
    pub fn pair(&self, i: usize) -> (p: (T, T))
        requires
            self.wf(),
            i < usize::MAX,
        ensures
            p.0 == self@.ring[i as int % self@.ring.len() as int],
            p.1 == self@.ring[(i + 1) % self@.ring.len() as int],
    {
        let cap = self.buf.len();
        (self.buf[i % cap], self.buf[(i + 1) % cap])
    }

    /// Samples that the ring holds.
    pub fn capacity(&self) -> (n: usize)
        ensures
            n == self@.ring.len(),
    {
        self.buf.len()
    }

    /// Silence, no grain, recording.
    pub fn reset(&mut self, silence: T)
        requires
            old(self).wf(),
        ensures
            final(self).wf(),
            final(self)@ == (Cloud {
                ring: Seq::new(old(self)@.ring.len(), |i: int| silence),
                head: 0,
                frozen: false,
                active: Seq::new(12, |i: int| false),
                timer: 0,
                target: old(self)@.interval,
                ..old(self)@
            }),
    {
        fill(self.buf, silence);
        self.write_pos = 0;
        self.frozen = false;
        self.spawn_timer = 0;
        self.next_spawn = self.spawn_interval;
        self.active = [false; MAX_GRAINS];
        assert(self.active@ =~= Seq::new(12, |i: int| false));
    }
}

/// A grain that starts `back` samples in the past, less than the ring holds,
/// reads the sample that was recorded `back` turns of the head ago.
pub proof fn law_grains_read_the_past(head: int, cap: int, back: int)
    requires
        0 <= head < cap,
        0 <= back < cap,
    ensures
        0 <= behind(head, cap, back) < cap,
        (behind(head, cap, back) + back) % cap == head,
{
    vstd::arithmetic::div_mod::lemma_small_mod(back as nat, cap as nat);
    if back <= head {
        vstd::arithmetic::div_mod::lemma_mod_add_multiples_vanish(head - back, cap);
        vstd::arithmetic::div_mod::lemma_small_mod((head - back) as nat, cap as nat);
        vstd::arithmetic::div_mod::lemma_small_mod(head as nat, cap as nat);
    } else {
        vstd::arithmetic::div_mod::lemma_small_mod((head + cap - back) as nat, cap as nat);
        vstd::arithmetic::div_mod::lemma_mod_add_multiples_vanish(head, cap);
        vstd::arithmetic::div_mod::lemma_small_mod(head as nat, cap as nat);
    }
}

/// A new grain never takes a voice that sounds; it finds one exactly if one is
/// free.
pub proof fn law_grains_take_free_voices(active: Seq<bool>, i: int)
    requires
        0 <= i <= active.len(),
    ensures
        i <= free_voice(active, i) <= active.len(),
        free_voice(active, i) < active.len() ==> !active[free_voice(active, i)],
        free_voice(active, i) == active.len() <==> forall|j: int|
            i <= j < active.len() ==> #[trigger] active[j],
    decreases active.len() - i,
{
    if i < active.len() && active[i] {
        law_grains_take_free_voices(active, i + 1);
        if free_voice(active, i) == active.len() {
            assert forall|j: int| i <= j < active.len() implies #[trigger] active[j] by {
                if j > i {
                    assert(active[j]);
                }
            }
        }
    }
}

/// The voice taken is the first that is free.
pub proof fn law_grains_take_the_first_free_voice(active: Seq<bool>, i: int, j: int)
    requires
        0 <= i <= j < free_voice(active, i),
    ensures
        j < active.len(),
        active[j],
    decreases active.len() - i,
{
    if i < active.len() && active[i] && i < j {
        law_grains_take_the_first_free_voice(active, i + 1, j);
    }
}

/// A step of `back` samples behind the head, walked forward again, ends at the
/// head, however often it goes round the ring.
pub proof fn law_steps_back_are_undone(head: int, cap: int, back: int)
    requires
        0 <= head < cap,
        0 <= back,
    ensures
        0 <= behind(head, cap, back) < cap,
        (behind(head, cap, back) + back) % cap == head,
{
    let r = back % cap;
    vstd::arithmetic::div_mod::lemma_fundamental_div_mod(back, cap);
    law_grains_read_the_past(head, cap, r);
    vstd::arithmetic::div_mod::lemma_small_mod(r as nat, cap as nat);
    let p = behind(head, cap, back);
    assert(p == behind(head, cap, r));
    assert(p + back == cap * (back / cap) + (p + r));
    vstd::arithmetic::div_mod::lemma_mod_multiples_vanish(back / cap, p + r, cap);
}

/// A lower bound is a lower bound, and changes nothing that is not below it.
pub proof fn law_lower_bounds_hold(v: int, least: int)
    ensures
        at_least(v, least) >= least,
        v >= least ==> at_least(v, least) == v,
        v < least ==> at_least(v, least) == least,
{
}

} // verus!
