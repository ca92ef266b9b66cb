//! Voicing of the additive choir: how a chord's notes become singers and
//! harmonics within the bank's capacity.
use vstd::prelude::*;

verus! {

/// Oscillators of the bank.
pub const MAX_PARTIALS: usize = 256;

/// Singers of the bank.
pub const MAX_SINGERS: usize = 24;

/// A vowel.
#[derive(Debug, Clone, Copy, PartialEq, Eq, Structural)]
pub enum Vowel {
    /// Open and present.
    Ah,
    /// Rounder and darker.
    Ooh,
}

/// The voicing of a chord under way: singers join note by note, and each brings
/// its harmonics, until the bank is full.
#[derive(Debug)]
pub struct Voicing {
    notes: usize,
    per_note: usize,
    note: usize,
    of_note: usize,
    singers: usize,
    owners: Vec<u8>,
    over: bool,
}

/// A voicing.
#[verifier::ext_equal]
pub struct Bank {
    /// Notes of the chord.
    pub notes: int,
    /// Singers of each note.
    pub per_note: int,
    /// Singers that have joined.
    pub singers: int,
    /// The singer of each harmonic, in the order in which they were added.
    pub owners: Seq<u8>,
    /// The bank is full, or all notes are sung.
    pub over: bool,
}

impl Voicing {
    /// The voicing so far.
    pub closed spec fn view(&self) -> Bank {
        Bank {
            notes: self.notes as int,
            per_note: self.per_note as int,
            singers: self.singers as int,
            owners: self.owners@,
            over: self.over,
        }
    }

    /// Validity of a voicing.
    pub closed spec fn wf(&self) -> bool {
        &&& self.per_note >= 1
        &&& self.singers <= 24
        &&& self.owners@.len() <= 256
        &&& self.note <= self.notes
        &&& self.of_note < self.per_note
        &&& self.singers == self.note * self.per_note + self.of_note
        &&& self.note == self.notes ==> self.of_note == 0
        &&& forall|i: int| 0 <= i < self.owners@.len() ==> self.owners@[i] < self.singers
        &&& forall|i: int, j: int|
            0 <= i <= j < self.owners@.len() ==> self.owners@[i] <= self.owners@[j]
    }

    /// Starts to voice a chord of `notes` with `per_note` singers for each; at
    /// least one.
    pub fn new(notes: usize, per_note: usize) -> (v: Self)
        ensures
            v.wf(),
            v@ == (Bank {
                notes: notes as int,
                per_note: if per_note < 1 {
                    1
                } else {
                    per_note as int
                },
                singers: 0,
                owners: Seq::empty(),
                over: false,
            }),
    {
        let per_note: usize = if per_note < 1 {
            1
        } else {
            per_note
        };
        assert(0 * per_note == 0);
        let v = Voicing {
            notes,
            per_note,
            note: 0,
            of_note: 0,
            singers: 0,
            owners: Vec::new(),
            over: false,
        };
        assert(v@.owners =~= Seq::empty());
        v
    }

    /// The next singer and its note, unless the chord is voiced or the bank has
    /// no singer left.
    pub fn next_singer(&mut self) -> (r: Option<(usize, u8)>)
        requires
            old(self).wf(),
        ensures
            final(self).wf(),
            ({
                let b = old(self)@;
                if !b.over && b.singers < 24 && b.singers < b.notes * b.per_note {
                    &&& r == Some(((b.singers / b.per_note) as usize, b.singers as u8))
                    &&& final(self)@ == (Bank { singers: b.singers + 1, ..b })
                } else {
                    &&& r is None
                    &&& final(self)@ == (Bank { over: true, ..b })
                }
            }),
    {
        proof {
            lemma_more(
                self.note as int,
                self.notes as int,
                self.per_note as int,
                self.of_note as int,
            );
        }
        if self.over || self.singers >= MAX_SINGERS || self.note >= self.notes {
            self.over = true;
            return None;
        }
        let r = (self.note, self.singers as u8);
        proof {
            vstd::arithmetic::div_mod::lemma_fundamental_div_mod_converse(
                self.singers as int,
                self.per_note as int,
                self.note as int,
                self.of_note as int,
            );
            assert((self.note + 1) * self.per_note == self.note * self.per_note + self.per_note)
                by (nonlinear_arith);
        }
        self.singers = self.singers + 1;
        if self.of_note + 1 == self.per_note {
            self.of_note = 0;
            self.note = self.note + 1;
        } else {
            self.of_note = self.of_note + 1;
        }
        Some(r)
    }

    /// Adds a harmonic of the singer who joined last: its oscillator, unless the
    /// bank has none left, which ends the voicing.
    pub fn next_partial(&mut self) -> (r: Option<usize>)
        requires
            old(self).wf(),
            old(self)@.singers >= 1,
        ensures
            final(self).wf(),
            ({
                let b = old(self)@;
                if b.owners.len() < 256 {
                    &&& r == Some(b.owners.len() as usize)
                    &&& final(self)@ == (Bank {
                        owners: b.owners.push((b.singers - 1) as u8),
                        ..b
                    })
                } else {
                    &&& r is None
                    &&& final(self)@ == (Bank { over: true, ..b })
                }
            }),
    {
        let n = self.owners.len();
        if n >= MAX_PARTIALS {
            self.over = true;
            return None;
        }
        self.owners.push((self.singers - 1) as u8);
        Some(n)
    }

    /// Singers that have joined.
    pub fn singers(&self) -> (n: usize)
        ensures
            n == self@.singers,
    {
        self.singers
    }

    /// Harmonics that were added.
    pub fn partials(&self) -> (n: usize)
        ensures
            n == self@.owners.len(),
    {
        self.owners.len()
    }

    /// The singer of a harmonic.
    pub fn owner(&self, i: usize) -> (s: u8)
        requires
            i < self@.owners.len(),
        ensures
            s == self@.owners[i as int],
    {
        self.owners[i]
    }

    /// The bank is never overdrawn, every harmonic belongs to a singer who has
    /// joined, and each singer's harmonics stand together.
    pub proof fn law_bank_is_sound(&self)
        requires
            self.wf(),
        ensures
            self@.singers <= 24,
            self@.owners.len() <= 256,
            forall|i: int| 0 <= i < self@.owners.len() ==> self@.owners[i] < self@.singers,
            forall|i: int, j: int|
                0 <= i <= j < self@.owners.len() ==> self@.owners[i] <= self@.owners[j],
    {
    }
}

proof fn lemma_more(note: int, notes: int, per_note: int, of_note: int)
    requires
        0 <= note <= notes,
        per_note >= 1,
        0 <= of_note < per_note,
        note == notes ==> of_note == 0,
    ensures
        note < notes <==> note * per_note + of_note < notes * per_note,
{
    if note < notes {
        assert(note * per_note + of_note < notes * per_note) by (nonlinear_arith)
            requires
                note + 1 <= notes,
                per_note >= 1,
                0 <= of_note < per_note,
        ;
    }
}

} // verus!
