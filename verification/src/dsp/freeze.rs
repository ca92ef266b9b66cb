//! Capture-and-sustain ("freeze"): the infinite-sustain core of a pad.
//!
//! While live it records the input into a borrowed ring. On `freeze` it
//! snapshots the ring, oldest sample first, and loops it forever. The loop's
//! seam is smoothed once, at freeze time, by a short crossfade of the tail into
//! the head; the steady state is one buffer read and a compare.
use super::slices::{fill, rotate_left};
use vstd::prelude::*;

verus! {

/// A looping capture over a caller-provided buffer.
pub struct Freeze<'a, T> {
    buf: &'a mut [T],
    xfade: usize,
    /// Loop period once frozen.
    period: usize,
    write_pos: usize,
    play_pos: usize,
    frozen: bool,
}

/// The ring's samples in the order they were recorded, oldest first.
pub open spec fn oldest_first<T>(storage: Seq<T>, write_pos: int) -> Seq<T> {
    storage.skip(write_pos) + storage.take(write_pos)
}

/// The place after `pos` in a ring of `len`.
pub open spec fn next_place(pos: int, len: int) -> int {
    if pos + 1 == len {
        0
    } else {
        pos + 1
    }
}

/// Crossfade length used for a buffer of `len`: at least one, at most a quarter.
pub open spec fn fade_length(len: int, asked: int) -> int {
    if asked < 1 {
        1
    } else if asked > len / 4 {
        len / 4
    } else {
        asked
    }
}

/// `out` is `rec` with its tail blended into its head: place `i` of the fade
/// holds an outcome of `blend` on the head sample, the tail sample that it meets,
/// the place and the fade's length.
pub open spec fn seam_blended<T, F: Fn(T, T, usize, usize) -> T>(
    rec: Seq<T>,
    out: Seq<T>,
    xfade: int,
    blend: F,
) -> bool {
    &&& out.len() == rec.len()
    &&& forall|i: int|
        0 <= i < xfade ==> call_ensures(
            blend,
            (rec[i], rec[rec.len() - xfade + i], i as usize, xfade as usize),
            #[trigger] out[i],
        )
    &&& forall|i: int| xfade <= i < rec.len() ==> #[trigger] out[i] == rec[i]
}

impl<'a, T: Copy> Freeze<'a, T> {
    /// Validity of a capture.
    pub closed spec fn wf(&self) -> bool {
        &&& self.buf@.len() >= 8
        &&& 1 <= self.xfade <= self.buf@.len() / 4
        &&& self.period == self.buf@.len() - self.xfade
        &&& self.write_pos < self.buf@.len()
        &&& self.play_pos < self.period
    }

    /// The raw storage.
    pub closed spec fn storage(&self) -> Seq<T> {
        self.buf@
    }

    /// The next place to record into.
    pub closed spec fn write_place(&self) -> int {
        self.write_pos as int
    }

    /// The next place to play from.
    pub closed spec fn play_place(&self) -> int {
        self.play_pos as int
    }

    /// Whether the loop is held.
    pub closed spec fn held(&self) -> bool {
        self.frozen
    }

    /// Length of the seam crossfade.
    pub closed spec fn fade(&self) -> int {
        self.xfade as int
    }

    /// Loop period: the storage less the crossfade.
    pub open spec fn loop_period(&self) -> int {
        self.storage().len() - self.fade()
    }

    /// Builds over `buf`, cleared to `silence`; the loop is the whole buffer.
    /// `xfade_samples` is the seam crossfade length, at most a quarter of the
    /// buffer.
    pub fn new(buf: &'a mut [T], xfade_samples: usize, silence: T) -> (f: Self)
        requires
            old(buf)@.len() >= 8,
        ensures
            f.wf(),
            f.storage() == Seq::new(old(buf)@.len(), |i: int| silence),
            f.fade() == fade_length(old(buf)@.len() as int, xfade_samples as int),
            f.write_place() == 0,
            f.play_place() == 0,
            !f.held(),
    {
        let cap_len = buf.len();
        let xfade: usize = if xfade_samples < 1 {
            1
        } else if xfade_samples > cap_len / 4 {
            cap_len / 4
        } else {
            xfade_samples
        };
        fill(buf, silence);
        Freeze { buf, xfade, period: cap_len - xfade, write_pos: 0, play_pos: 0, frozen: false }
    }

    /// Whether the loop is currently held.
    pub fn is_frozen(&self) -> (b: bool)
        ensures
            b == self.held(),
    {
        self.frozen
    }

    /// Snapshots the recording and starts looping it. The oldest sample moves to
    /// the start of the buffer, where recording goes on after the release. `blend`
    /// mixes a head sample with the tail sample that it meets, given the place in
    /// the fade and the fade's length.
    pub fn freeze<F: Fn(T, T, usize, usize) -> T>(&mut self, blend: F)
        requires
            old(self).wf(),
            forall|h: T, t: T, i: usize, n: usize|
                i < n && n == old(self).fade() ==> call_requires(blend, (h, t, i, n)),
        ensures
            final(self).wf(),
            final(self).held(),
            final(self).fade() == old(self).fade(),
            old(self).held() ==> *final(self) == *old(self),
            !old(self).held() ==> {
                &&& final(self).write_place() == 0
                &&& final(self).play_place() == 0
                &&& seam_blended(
                    oldest_first(old(self).storage(), old(self).write_place()),
                    final(self).storage(),
                    old(self).fade(),
                    blend,
                )
            },
    {
        if self.frozen {
            return ;
        }
        let ghost rec = oldest_first(self.buf@, self.write_pos as int);
        rotate_left(self.buf, self.write_pos);
        assert(self.buf@ =~= rec);
        let period = self.period;
        let xfade = self.xfade;
        self.write_pos = 0;
        let mut i: usize = 0;
        while i < xfade
            invariant
                rec.len() == self.buf@.len(),
                rec.len() >= 8,
                1 <= xfade <= rec.len() / 4,
                period == rec.len() - xfade,
                self.xfade == xfade,
                self.period == period,
                self.write_pos == 0,
                xfade == old(self).fade(),
                i <= xfade,
                forall|h: T, t: T, i: usize, n: usize|
                    i < n && n == old(self).fade() ==> call_requires(blend, (h, t, i, n)),
                forall|j: int|
                    0 <= j < i ==> call_ensures(
                        blend,
                        (rec[j], rec[rec.len() - xfade + j], j as usize, xfade),
                        #[trigger] self.buf@[j],
                    ),
                forall|j: int| i <= j < rec.len() ==> #[trigger] self.buf@[j] == rec[j],
            decreases xfade - i,
        {
            let head = self.buf[i];
            let tail = self.buf[period + i];
            let mixed = blend(head, tail, i, xfade);
            self.buf[i] = mixed;
            i = i + 1;
        }
        self.play_pos = 0;
        self.frozen = true;
    }

    /// Releases the hold and resumes recording.
    pub fn unfreeze(&mut self)
        requires
            old(self).wf(),
        ensures
            final(self).wf(),
            !final(self).held(),
            final(self).storage() == old(self).storage(),
            final(self).fade() == old(self).fade(),
            final(self).write_place() == old(self).write_place(),
            final(self).play_place() == old(self).play_place(),
    {
        self.frozen = false;
    }

    /// Processes one sample: records and passes it through when live; returns the
    /// next looped sample when frozen.
    pub fn tick(&mut self, x: T) -> (y: T)
        requires
            old(self).wf(),
        ensures
            final(self).wf(),
            final(self).held() == old(self).held(),
            final(self).fade() == old(self).fade(),
            old(self).held() ==> {
                &&& y == old(self).storage()[old(self).play_place()]
                &&& final(self).storage() == old(self).storage()
                &&& final(self).write_place() == old(self).write_place()
                &&& final(self).play_place() == next_place(
                    old(self).play_place(),
                    old(self).loop_period(),
                )
            },
            !old(self).held() ==> {
                &&& y == x
                &&& final(self).storage() == old(self).storage().update(old(self).write_place(), x)
                &&& final(self).write_place() == next_place(
                    old(self).write_place(),
                    old(self).storage().len() as int,
                )
                &&& final(self).play_place() == old(self).play_place()
            },
    {
        if self.frozen {
            let y = self.buf[self.play_pos];
            self.play_pos = self.play_pos + 1;
            if self.play_pos == self.period {
                self.play_pos = 0;
            }
            y
        } else {
            self.buf[self.write_pos] = x;
            self.write_pos = self.write_pos + 1;
            if self.write_pos == self.buf.len() {
                self.write_pos = 0;
            }
            x
        }
    }

    /// Flushes the capture to `silence` and returns to recording from the buffer
    /// start.
    pub fn reset(&mut self, silence: T)
        requires
            old(self).wf(),
        ensures
            final(self).wf(),
            final(self).storage() == Seq::new(old(self).storage().len(), |i: int| silence),
            final(self).fade() == old(self).fade(),
            final(self).write_place() == 0,
            final(self).play_place() == 0,
            !final(self).held(),
    {
        fill(self.buf, silence);
        self.write_pos = 0;
        self.play_pos = 0;
        self.frozen = false;
    }
}

/// The place reached from `pos` after `n` steps round a ring of `len`.
pub open spec fn place_after(pos: int, len: int, n: nat) -> int
    decreases n,
{
    if n == 0 {
        pos
    } else {
        next_place(place_after(pos, len, (n - 1) as nat), len)
    }
}

/// Closed form of the walk round a ring.
pub proof fn lemma_place_after(pos: int, len: int, n: nat)
    requires
        0 <= pos < len,
    ensures
        place_after(pos, len, n) == (pos + n) % len,
        0 <= place_after(pos, len, n) < len,
    decreases n,
{
    if n > 0 {
        lemma_place_after(pos, len, (n - 1) as nat);
        let q = (pos + n - 1) / len;
        let r = (pos + n - 1) % len;
        assert(pos + n - 1 == q * len + r && 0 <= r < len) by (nonlinear_arith)
            requires
                q == (pos + n - 1) / len,
                r == (pos + n - 1) % len,
                len > 0,
        ;
        if r + 1 == len {
            assert((q + 1) * len == q * len + len) by (nonlinear_arith);
            vstd::arithmetic::div_mod::lemma_fundamental_div_mod_converse(pos + n, len, q + 1, 0);
        } else {
            vstd::arithmetic::div_mod::lemma_fundamental_div_mod_converse(pos + n, len, q, r + 1);
        }
    } else {
        vstd::arithmetic::div_mod::lemma_small_mod(pos as nat, len as nat);
    }
}

/// A held loop is exactly periodic: output `n` and output `n + period` come from
/// the same place.
pub proof fn law_frozen_output_is_periodic(play: int, period: int, n: nat)
    requires
        0 <= play < period,
    ensures
        place_after(play, period, n + period as nat) == place_after(play, period, n),
{
    lemma_place_after(play, period, n);
    lemma_place_after(play, period, n + period as nat);
    vstd::arithmetic::div_mod::lemma_mod_add_multiples_vanish(play + n, period);
    assert(play + (n + period) == period + (play + n));
}

/// Recording one more sample drops the oldest and appends the new one.
pub proof fn law_recording_keeps_the_latest<T>(storage: Seq<T>, write_pos: int, x: T)
    requires
        0 <= write_pos < storage.len(),
    ensures
        oldest_first(
            storage.update(write_pos, x),
            next_place(write_pos, storage.len() as int),
        ) == oldest_first(storage, write_pos).skip(1).push(x),
{
    assert(oldest_first(storage.update(write_pos, x), next_place(write_pos, storage.len() as int))
        =~= oldest_first(storage, write_pos).skip(1).push(x));
}

/// Storage and next place after recording `xs` from `write_pos` on.
pub open spec fn recorded<T>(storage: Seq<T>, write_pos: int, xs: Seq<T>) -> (Seq<T>, int)
    decreases xs.len(),
{
    if xs.len() == 0 {
        (storage, write_pos)
    } else {
        let (s, p) = recorded(storage, write_pos, xs.drop_last());
        (s.update(p, xs.last()), next_place(p, storage.len() as int))
    }
}

/// However much is recorded, the ring holds the latest samples, oldest first.
pub proof fn law_the_ring_holds_the_latest<T>(storage: Seq<T>, write_pos: int, xs: Seq<T>)
    requires
        0 <= write_pos < storage.len(),
    ensures
        ({
            let (s, p) = recorded(storage, write_pos, xs);
            &&& s.len() == storage.len()
            &&& 0 <= p < s.len()
            &&& oldest_first(s, p) == (oldest_first(storage, write_pos) + xs).skip(xs.len() as int)
        }),
    decreases xs.len(),
{
    let first = oldest_first(storage, write_pos);
    if xs.len() == 0 {
        assert((first + xs).skip(0) =~= first);
    } else {
        let but_last = xs.drop_last();
        law_the_ring_holds_the_latest(storage, write_pos, but_last);
        let (s, p) = recorded(storage, write_pos, but_last);
        law_recording_keeps_the_latest(s, p, xs.last());
        assert((first + but_last).skip(but_last.len() as int).skip(1).push(xs.last()) =~= (first
            + xs).skip(xs.len() as int));
    }
}

/// A freeze does not disturb the order of the recording: released again, the
/// ring holds the loop's samples followed by those recorded since, and once the
/// blended head has been recorded over, just the latest samples, as if it had
/// never been frozen.
pub proof fn law_recording_goes_on_after_a_freeze<T, F: Fn(T, T, usize, usize) -> T>(
    storage: Seq<T>,
    write_pos: int,
    looped: Seq<T>,
    xfade: int,
    blend: F,
    xs: Seq<T>,
)
    requires
        0 <= write_pos < storage.len(),
        seam_blended(oldest_first(storage, write_pos), looped, xfade, blend),
    ensures
        ({
            let (s, p) = recorded(looped, 0, xs);
            &&& oldest_first(s, p) == (looped + xs).skip(xs.len() as int)
            &&& xs.len() >= xfade ==> oldest_first(s, p) == (oldest_first(storage, write_pos)
                + xs).skip(xs.len() as int)
        }),
{
    law_the_ring_holds_the_latest(looped, 0, xs);
    assert(oldest_first(looped, 0) =~= looped);
    let rec = oldest_first(storage, write_pos);
    if xs.len() >= xfade {
        assert((looped + xs).skip(xs.len() as int) =~= (rec + xs).skip(xs.len() as int));
    }
}

/// The ring read from the write place on is the storage turned: what was at the
/// write place comes first, and what is just before it comes last.
pub proof fn law_oldest_sample_is_next_to_go<T>(storage: Seq<T>, write_pos: int, i: int)
    requires
        0 <= write_pos < storage.len(),
        0 <= i < storage.len(),
    ensures
        oldest_first(storage, write_pos).len() == storage.len(),
        oldest_first(storage, write_pos)[i] == storage[(write_pos + i) % (storage.len() as int)],
{
    if write_pos + i < storage.len() {
        vstd::arithmetic::div_mod::lemma_small_mod((write_pos + i) as nat, storage.len());
    } else {
        vstd::arithmetic::div_mod::lemma_mod_add_multiples_vanish(
            write_pos + i - storage.len(),
            storage.len() as int,
        );
        vstd::arithmetic::div_mod::lemma_small_mod(
            (write_pos + i - storage.len()) as nat,
            storage.len(),
        );
    }
}

/// A place moves on by one, and from the last to the first.
pub proof fn law_places_follow_in_turn(pos: int, len: int)
    requires
        0 <= pos < len,
    ensures
        pos < len - 1 ==> next_place(pos, len) == pos + 1,
        pos == len - 1 ==> next_place(pos, len) == 0,
{
}

/// The crossfade is as long as asked, but at most a quarter of the buffer and at
/// least a sample.
pub proof fn law_fade_is_at_most_a_quarter(len: int, asked: int)
    requires
        len >= 8,
        asked >= 0,
    ensures
        1 <= fade_length(len, asked),
        4 * fade_length(len, asked) <= len,
        asked >= 1 && 4 * asked <= len ==> fade_length(len, asked) == asked,
        4 * asked > len ==> len < 4 * fade_length(len, asked) + 4,
        asked == 0 ==> fade_length(len, asked) == 1,
{
}

/// The seam closes the loop: where the fade begins, the head meets the very
/// sample that would follow the end of a period, and so on through the fade;
/// behind it the recording is untouched.
pub proof fn law_seam_goes_on_from_the_period<T, F: Fn(T, T, usize, usize) -> T>(
    rec: Seq<T>,
    out: Seq<T>,
    period: int,
    xfade: int,
    blend: F,
    i: int,
)
    requires
        seam_blended(rec, out, xfade, blend),
        period + xfade == rec.len(),
        0 <= xfade <= period,
        0 <= i < rec.len(),
    ensures
        out.len() == rec.len(),
        i < xfade ==> call_ensures(
            blend,
            (rec[i], rec[period + i], i as usize, xfade as usize),
            out[i],
        ),
        i >= xfade ==> out[i] == rec[i],
{
    if i < xfade {
        assert(rec.len() - xfade + i == period + i);
        assert(call_ensures(
            blend,
            (rec[i], rec[rec.len() - xfade + i], i as usize, xfade as usize),
            out[i],
        ));
    }
}

} // verus!
