//! Keymap of a multisampled pad: sustain loops, the recording nearest to a note,
//! and how a chord's notes share the voices.
use vstd::prelude::*;

verus! {

/// Voices that can sound at a time.
pub const MAX_VOICES: usize = 24;

/// A recording with its sustain loop.
#[derive(Debug, Clone, Copy)]
pub struct Zone<'a, T> {
    /// The recorded samples.
    pub sample: &'a [T],
    /// First sample of the sustain loop.
    pub loop_start: usize,
    /// Samples of the sustain loop.
    pub loop_len: usize,
}

/// The smaller of two.
pub open spec fn least(a: int, b: int) -> int {
    if a < b {
        a
    } else {
        b
    }
}

/// Where a loop asked for at `start` begins in a recording of `n` samples: two
/// samples before the end at the latest.
pub open spec fn clamped_start(n: int, start: int) -> int {
    least(
        start,
        if n >= 2 {
            n - 2
        } else {
            0
        },
    )
}

/// Length of a loop asked for from `start` on, `len` samples long: cut at the end
/// of the recording, at least two samples.
pub open spec fn clamped_len(n: int, start: int, len: int) -> int {
    let l = least(start + len, n) - clamped_start(n, start);
    if l < 2 {
        2
    } else {
        l
    }
}

impl<'a, T> Zone<'a, T> {
    /// A zone that loops the whole recording.
    #[must_use]
    pub fn new(sample: &'a [T]) -> (z: Self)
        ensures
            z.sample@ == sample@,
            z.loop_start == 0,
            z.loop_len == sample@.len(),
    {
        Zone { sample, loop_start: 0, loop_len: sample.len() }
    }

    /// Restricts the loop to `len` samples from `start` on.
    #[must_use]
    pub fn with_loop(self, start: usize, len: usize) -> (z: Self)
        requires
            start + len <= usize::MAX,
        ensures
            z.sample@ == self.sample@,
            z.loop_start == clamped_start(self.sample@.len() as int, start as int),
            z.loop_len == clamped_len(self.sample@.len() as int, start as int, len as int),
    {
        let n = self.sample.len();
        let end: usize = if start + len < n {
            start + len
        } else {
            n
        };
        let last = n.saturating_sub(2);
        let loop_start: usize = if start < last {
            start
        } else {
            last
        };
        let l = end.saturating_sub(loop_start);
        Zone {
            sample: self.sample,
            loop_start,
            loop_len: if l < 2 {
                2
            } else {
                l
            },
        }
    }
}

/// A loop stays within its recording, whatever was asked for, if the recording
/// has two samples at all.
pub proof fn law_loops_stay_in_the_recording(n: int, start: int, len: int)
    requires
        n >= 2,
        start >= 0,
        len >= 0,
    ensures
        0 <= clamped_start(n, start),
        2 <= clamped_len(n, start, len),
        clamped_start(n, start) + clamped_len(n, start, len) <= n,
        2 <= len && start + len <= n ==> clamped_start(n, start) == start && clamped_len(
            n,
            start,
            len,
        ) == len,
{
}

/// Samples over which a loop's tail fades into its head: at most a quarter of
/// the loop, at least one.
pub open spec fn seam(xfade: int, loop_len: int) -> int {
    let s = least(xfade, loop_len / 4);
    if s < 1 {
        1
    } else {
        s
    }
}

/// Samples over which a loop's tail fades into its head.
pub fn seam_len(xfade: usize, loop_len: usize) -> (n: usize)
    ensures
        n == seam(xfade as int, loop_len as int),
{
    let quarter: usize = loop_len / 4;
    let s: usize = if xfade < quarter {
        xfade
    } else {
        quarter
    };
    if s < 1 {
        1
    } else {
        s
    }
}

/// The fade never reaches beyond the loop.
pub proof fn law_seams_fit_the_loop(xfade: int, loop_len: int)
    requires
        xfade >= 0,
        loop_len >= 2,
    ensures
        1 <= seam(xfade, loop_len) <= loop_len,
{
}

/// `i` is the first place with the least distance.
pub open spec fn is_nearest(distances: Seq<u32>, i: int) -> bool {
    &&& 0 <= i < distances.len()
    &&& forall|j: int| 0 <= j < i ==> #[trigger] distances[j] > distances[i]
    &&& forall|j: int| i <= j < distances.len() ==> #[trigger] distances[j] >= distances[i]
}

/// The zone nearest to a note. Distances are given as integers in the order of
/// the distances; of equal ones the first counts.
pub fn nearest_zone(distances: &[u32]) -> (i: usize)
    requires
        distances@.len() > 0,
    ensures
        is_nearest(distances@, i as int),
{
    let mut best: usize = 0;
    let mut k: usize = 1;
    while k < distances.len()
        invariant
            1 <= k <= distances@.len(),
            best < k,
            forall|j: int| 0 <= j < best ==> #[trigger] distances@[j] > distances@[best as int],
            forall|j: int| best <= j < k ==> #[trigger] distances@[j] >= distances@[best as int],
        decreases distances@.len() - k,
    {
        if distances[k] < distances[best] {
            best = k;
        }
        k = k + 1;
    }
    best
}

/// There is only one nearest zone.
pub proof fn law_nearest_zone_is_unique(distances: Seq<u32>, i: int, j: int)
    requires
        is_nearest(distances, i),
        is_nearest(distances, j),
    ensures
        i == j,
{
    if i < j {
        assert(distances[i] > distances[j]);
        assert(distances[j] >= distances[i]);
    } else if j < i {
        assert(distances[j] > distances[i]);
        assert(distances[i] >= distances[j]);
    }
}

/// The note of each voice of a chord of `notes`, with `per_note` voices for each
/// as long as there are any.
pub open spec fn allotted(notes: int, per_note: int) -> Seq<int> {
    let wanted = notes * per_note;
    Seq::new(least(wanted, 24) as nat, |v: int| v / per_note)
}

/// Shares the voices among the notes of a chord.
pub fn set_chord(notes: usize, per_note: usize) -> (v: Vec<usize>)
    requires
        per_note >= 1,
    ensures
        v@.len() == allotted(notes as int, per_note as int).len(),
        forall|i: int|
            0 <= i < v@.len() ==> v@[i] == allotted(notes as int, per_note as int)[i],
{
    let mut v: Vec<usize> = Vec::new();
    let mut note: usize = 0;
    assert(notes * per_note >= 0) by (nonlinear_arith)
        requires
            notes >= 0,
            per_note >= 1,
    ;
    assert(0 * per_note == 0);
    while note < notes
        invariant
            note <= notes,
            per_note >= 1,
            v@.len() == note * per_note,
            v@.len() <= 24,
            forall|i: int| 0 <= i < v@.len() ==> v@[i] == i / (per_note as int),
        decreases notes - note,
    {
        let mut k: usize = 0;
        proof {
            lemma_room(note as int, notes as int, per_note as int);
        }
        while k < per_note
            invariant
                k <= per_note,
                note < notes,
                per_note >= 1,
                v@.len() == note * per_note + k,
                v@.len() <= 24,
                (note + 1) * per_note <= notes * per_note,
                forall|i: int| 0 <= i < v@.len() ==> v@[i] == i / (per_note as int),
            decreases per_note - k,
        {
            if v.len() >= MAX_VOICES {
                proof {
                    assert((note + 1) * per_note == note * per_note + per_note)
                        by (nonlinear_arith);
                }
                return v;
            }
            proof {
                let x = v@.len() as int;
                vstd::arithmetic::div_mod::lemma_fundamental_div_mod_converse(
                    x,
                    per_note as int,
                    note as int,
                    k as int,
                );
            }
            v.push(note);
            k = k + 1;
        }
        assert((note + 1) * per_note == note * per_note + per_note) by (nonlinear_arith);
        note = note + 1;
    }
    v
}

proof fn lemma_room(note: int, notes: int, per_note: int)
    requires
        0 <= note < notes,
        per_note >= 1,
    ensures
        (note + 1) * per_note <= notes * per_note,
{
    assert((note + 1) * per_note <= notes * per_note) by (nonlinear_arith)
        requires
            0 <= note < notes,
            per_note >= 1,
    ;
}

/// A chord takes no more voices than there are, and every voice sings one of its
/// notes.
pub proof fn law_notes_share_the_voices(notes: int, per_note: int, v: int)
    requires
        notes >= 0,
        per_note >= 1,
        0 <= v < allotted(notes, per_note).len(),
    ensures
        allotted(notes, per_note).len() <= 24,
        0 <= allotted(notes, per_note)[v] < notes,
{
    assert(v / per_note < notes && v / per_note >= 0) by (nonlinear_arith)
        requires
            0 <= v < notes * per_note,
            per_note >= 1,
    ;
}

/// A loop begins where it was asked to, or two samples before the end. It runs
/// as long as it was asked to, or to the end, or for two samples where less is
/// left.
pub proof fn law_loops_are_cut_at_the_end(n: int, start: int, len: int)
    requires
        start >= 0,
        len >= 0,
        n >= 0,
    ensures
        n >= 2 && start <= n - 2 ==> clamped_start(n, start) == start,
        n >= 2 && start > n - 2 ==> clamped_start(n, start) == n - 2,
        n < 2 ==> clamped_start(n, start) == 0,
        start <= n - 2 && len >= 2 && start + len >= n ==> clamped_len(n, start, len) == n - start,
        start <= n - 2 && len < 2 ==> clamped_len(n, start, len) == 2,
        start > n - 2 ==> clamped_len(n, start, len) == 2,
{
}

/// A seam is as long as asked, but never more than a quarter of the loop, and
/// never shorter than a sample.
pub proof fn law_seams_are_at_most_a_quarter(xfade: int, loop_len: int)
    requires
        xfade >= 0,
        loop_len >= 0,
    ensures
        xfade >= 1 && 4 * xfade <= loop_len ==> seam(xfade, loop_len) == xfade,
        4 * xfade > loop_len >= 4 ==> 4 * seam(xfade, loop_len) <= loop_len < 4 * seam(
            xfade,
            loop_len,
        ) + 4,
        xfade == 0 || loop_len < 4 ==> seam(xfade, loop_len) == 1,
{
}

/// No zone lies nearer to the note than the one taken, and none before it lies
/// as near.
pub proof fn law_no_zone_is_nearer(distances: Seq<u32>, i: int, j: int)
    requires
        is_nearest(distances, i),
        0 <= j < distances.len(),
    ensures
        0 <= i < distances.len(),
        distances[i] <= distances[j],
        j < i ==> distances[i] < distances[j],
{
    if j < i {
        assert(distances[j] > distances[i]);
    } else {
        assert(distances[j] >= distances[i]);
    }
}

/// The voices come note by note, `per_note` to each, until there are twenty-four
/// or every note has its share.
pub proof fn law_voices_come_note_by_note(notes: int, per_note: int, v: int)
    requires
        notes >= 0,
        per_note >= 1,
    ensures
        notes * per_note <= 24 ==> allotted(notes, per_note).len() == notes * per_note,
        notes * per_note > 24 ==> allotted(notes, per_note).len() == 24,
        0 <= v < allotted(notes, per_note).len() ==> {
            let note = allotted(notes, per_note)[v];
            per_note * note <= v < per_note * (note + 1)
        },
{
    assert(notes * per_note >= 0) by (nonlinear_arith)
        requires
            notes >= 0,
            per_note >= 1,
    ;
    let q = v / per_note;
    assert(per_note * q <= v < per_note * (q + 1)) by (nonlinear_arith)
        requires
            per_note >= 1,
            q == v / per_note,
    ;
}

} // verus!
