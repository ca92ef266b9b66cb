//! Framing of the short-time transform: the sliding window that each hop moves,
//! and when a spectral freeze captures and when it plays back.
use super::fft;
use vstd::prelude::*;

verus! {

/// A window after `new` samples have come in: the oldest make room.
pub open spec fn slid<T>(window: Seq<T>, new: Seq<T>) -> Seq<T> {
    window.skip(new.len() as int) + new
}

/// Moves a window on by the length of `new` and appends it.
pub fn slide<T: Copy>(window: &mut [T], new: &[T])
    requires
        new@.len() <= old(window)@.len(),
    ensures
        final(window)@ == slid(old(window)@, new@),
{
    let n = window.len();
    let h = new.len();
    let ghost s = window@;
    let mut i: usize = 0;
    while i < n - h
        invariant
            n == window@.len(),
            n == s.len(),
            h == new@.len(),
            h <= n,
            i <= n - h,
            forall|j: int| 0 <= j < i ==> window@[j] == s[j + h],
            forall|j: int| i <= j < n ==> window@[j] == s[j],
        decreases n - h - i,
    {
        window[i] = window[i + h];
        i = i + 1;
    }
    let mut k: usize = 0;
    while k < h
        invariant
            n == window@.len(),
            n == s.len(),
            h == new@.len(),
            h <= n,
            k <= h,
            forall|j: int| 0 <= j < n - h ==> window@[j] == s[j + h],
            forall|j: int| n - h <= j < n - h + k ==> window@[j] == new@[j - (n - h)],
        decreases h - k,
    {
        window[n - h + k] = new[k];
        k = k + 1;
    }
    assert(window@ =~= slid(s, new@));
}

/// Four hops of a quarter each fill the window with themselves, whatever it held
/// before.
pub proof fn law_window_is_the_last_four_hops<T>(
    window: Seq<T>,
    a: Seq<T>,
    b: Seq<T>,
    c: Seq<T>,
    d: Seq<T>,
)
    requires
        window.len() == 4 * a.len(),
        b.len() == a.len(),
        c.len() == a.len(),
        d.len() == a.len(),
    ensures
        slid(slid(slid(slid(window, a), b), c), d) == a + b + c + d,
{
    assert(slid(slid(slid(slid(window, a), b), c), d) =~= a + b + c + d);
}

/// A streaming transform of frames of `N` samples, a power of two, moved on by a
/// quarter frame each time.
#[derive(Debug)]
pub struct Stft<T, const N: usize> {
    inbuf: [T; N],
    ola: [T; N],
}

impl<T: Copy, const N: usize> Stft<T, N> {
    /// The last `N` input samples.
    pub closed spec fn input(&self) -> Seq<T> {
        self.inbuf@
    }

    /// The overlapping output frames so far.
    pub closed spec fn output(&self) -> Seq<T> {
        self.ola@
    }

    /// A transform at rest.
    #[must_use]
    pub fn new(silence: T) -> (s: Self)
        requires
            fft::is_pow2(N as nat),
            N >= 64,
        ensures
            s.input() == Seq::new(N as nat, |i: int| silence),
            s.output() == Seq::new(N as nat, |i: int| silence),
    {
        let s = Stft { inbuf: [silence; N], ola: [silence; N] };
        assert(s.input() =~= Seq::new(N as nat, |i: int| silence));
        assert(s.output() =~= Seq::new(N as nat, |i: int| silence));
        s
    }

    /// Samples in a hop.
    #[must_use]
    pub fn hop(&self) -> (n: usize)
        ensures
            n == N / 4,
    {
        N / 4
    }

    /// Samples from input to reconstructed output.
    #[must_use]
    pub fn latency(&self) -> (n: usize)
        ensures
            n == N - N / 4,
    {
        N - N / 4
    }

    /// Bins of a frame's spectrum.
    #[must_use]
    pub fn bins(&self) -> (n: usize)
        requires
            N >= 2,
        ensures
            n == N / 2 + 1,
    {
        N / 2 + 1
    }

    /// Takes a hop of input.
    pub fn take_hop(&mut self, in_hop: &[T])
        requires
            in_hop@.len() == N / 4,
        ensures
            final(self).input() == slid(old(self).input(), in_hop@),
            final(self).output() == old(self).output(),
    {
        slide(&mut self.inbuf, in_hop);
    }

    /// The input sample at place `i` of the frame.
    pub fn input_at(&self, i: usize) -> (x: T)
        requires
            i < N,
        ensures
            x == self.input()[i as int],
    {
        self.inbuf[i]
    }

    /// Moves the output on by a hop, silence coming in.
    pub fn move_output(&mut self, silent_hop: &[T])
        requires
            silent_hop@.len() == N / 4,
        ensures
            final(self).output() == slid(old(self).output(), silent_hop@),
            final(self).input() == old(self).input(),
    {
        slide(&mut self.ola, silent_hop);
    }

    /// The output sample at place `i`.
    pub fn output_at(&self, i: usize) -> (x: T)
        requires
            i < N,
        ensures
            x == self.output()[i as int],
    {
        self.ola[i]
    }

    /// Replaces the output sample at place `i`.
    pub fn set_output(&mut self, i: usize, x: T)
        requires
            i < N,
        ensures
            final(self).output() == old(self).output().update(i as int, x),
            final(self).input() == old(self).input(),
    {
        self.ola[i] = x;
    }
}

/// What happens to a frame's spectrum.
#[derive(Debug, Clone, Copy, PartialEq, Eq, Structural)]
pub enum SpectrumStep {
    /// It passes as it is.
    Pass,
    /// It passes, and is captured.
    Capture,
    /// The captured one is played instead.
    Resynthesize,
}

/// A spectral freeze.
#[derive(Debug, Clone, Copy, PartialEq, Eq, Structural)]
pub struct SpectralFreeze {
    pub frozen: bool,
    pub captured: bool,
}

/// What a hop does in a state.
pub open spec fn spectrum_step(s: SpectralFreeze) -> SpectrumStep {
    if !s.frozen {
        SpectrumStep::Pass
    } else if !s.captured {
        SpectrumStep::Capture
    } else {
        SpectrumStep::Resynthesize
    }
}

/// The state after a hop.
pub open spec fn after_hop(s: SpectralFreeze) -> SpectralFreeze {
    SpectralFreeze { captured: s.captured || s.frozen, ..s }
}

/// The state after arming or disarming.
pub open spec fn armed(s: SpectralFreeze, frozen: bool) -> SpectralFreeze {
    SpectralFreeze { frozen, captured: s.captured && frozen }
}

impl SpectralFreeze {
    /// Not frozen.
    #[must_use]
    pub fn new() -> (s: Self)
        ensures
            s == (SpectralFreeze { frozen: false, captured: false }),
    {
        SpectralFreeze { frozen: false, captured: false }
    }

    /// Arms or disarms the freeze.
    pub fn set_frozen(&mut self, frozen: bool)
        ensures
            *final(self) == armed(*old(self), frozen),
    {
        self.frozen = frozen;
        if !frozen {
            self.captured = false;
        }
    }

    /// Goes through a hop.
    pub fn step(&mut self) -> (a: SpectrumStep)
        ensures
            a == spectrum_step(*old(self)),
            *final(self) == after_hop(*old(self)),
    {
        if !self.frozen {
            return SpectrumStep::Pass;
        }
        if !self.captured {
            self.captured = true;
            return SpectrumStep::Capture;
        }
        SpectrumStep::Resynthesize
    }
}

/// The state after `n` hops.
pub open spec fn after_hops(s: SpectralFreeze, n: nat) -> SpectralFreeze
    decreases n,
{
    if n == 0 {
        s
    } else {
        after_hop(after_hops(s, (n - 1) as nat))
    }
}

/// The first hop after arming captures the spectrum, and every later one plays
/// it back, until the freeze is released and armed again.
pub proof fn law_freeze_captures_once(s: SpectralFreeze, n: nat)
    ensures
        ({
            let a = armed(armed(s, false), true);
            spectrum_step(after_hops(a, n)) == if n == 0 {
                SpectrumStep::Capture
            } else {
                SpectrumStep::Resynthesize
            }
        }),
        spectrum_step(armed(s, false)) == SpectrumStep::Pass,
    decreases n,
{
    if n > 0 {
        law_freeze_captures_once(s, (n - 1) as nat);
        lemma_stays_frozen(armed(armed(s, false), true), (n - 1) as nat);
    }
}

proof fn lemma_stays_frozen(s: SpectralFreeze, n: nat)
    requires
        s.frozen,
    ensures
        after_hops(s, n).frozen,
    decreases n,
{
    if n > 0 {
        lemma_stays_frozen(s, (n - 1) as nat);
    }
}

/// A window that slides keeps its length: what was behind the new samples'
/// count moves to the front, and the new samples stand at the end.
pub proof fn law_sliding_keeps_the_newest<T>(window: Seq<T>, new: Seq<T>, i: int)
    requires
        new.len() <= window.len(),
        0 <= i < window.len(),
    ensures
        slid(window, new).len() == window.len(),
        i < window.len() - new.len() ==> slid(window, new)[i] == window[i + new.len()],
        i >= window.len() - new.len() ==> slid(window, new)[i] == new[i - (window.len()
            - new.len())],
{
}

/// Arming again keeps what was captured, disarming forgets it, and only a hop
/// while frozen captures.
pub proof fn law_capture_lasts_while_frozen(s: SpectralFreeze, frozen: bool)
    ensures
        armed(s, frozen).frozen == frozen,
        armed(s, true).captured == s.captured,
        !armed(s, false).captured,
        after_hop(s).frozen == s.frozen,
        s.frozen ==> after_hop(s).captured,
        !s.frozen ==> after_hop(s).captured == s.captured,
        !s.frozen ==> spectrum_step(s) == SpectrumStep::Pass,
        s.frozen && !s.captured ==> spectrum_step(s) == SpectrumStep::Capture,
        s.frozen && s.captured ==> spectrum_step(s) == SpectrumStep::Resynthesize,
{
}

} // verus!
