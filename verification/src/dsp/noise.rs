//! Deterministic pseudo-random source: a 32-bit xorshift generator (Marsaglia).
//! The same seed gives the same sequence on every platform.
use vstd::prelude::*;

verus! {

/// One step of the generator: `x ^= x << 13; x ^= x >> 17; x ^= x << 5`.
pub open spec fn xorshift(x: u32) -> u32 {
    let a = x ^ (x << 13);
    let b = a ^ (a >> 17);
    b ^ (b << 5)
}

/// The state after `n` steps.
pub open spec fn state_after(x: u32, n: nat) -> u32
    decreases n,
{
    if n == 0 {
        x
    } else {
        xorshift(state_after(x, (n - 1) as nat))
    }
}

/// xorshift32 generator.
#[derive(Debug, Copy, Clone)]
pub struct Prng {
    state: u32,
}

impl Prng {
    /// The generator's state.
    pub closed spec fn view(&self) -> u32 {
        self.state
    }

    /// Seeds the generator. A zero seed, which xorshift cannot leave, is replaced
    /// with a fixed non-zero constant.
    #[must_use]
    pub fn new(seed: u32) -> (p: Self)
        ensures
            p@ == if seed == 0 {
                0x9E37_79B9
            } else {
                seed
            },
            p@ != 0,
    {
        Prng {
            state: if seed == 0 {
                0x9E37_79B9
            } else {
                seed
            },
        }
    }

    /// Next raw 32-bit word.
    pub fn next_u32(&mut self) -> (r: u32)
        ensures
            r == xorshift(old(self)@),
            final(self)@ == r,
    {
        let mut x: u32 = self.state;
        x = x ^ (x << 13);
        x = x ^ (x >> 17);
        x = x ^ (x << 5);
        self.state = x;
        x
    }

    /// Next 24-bit value: the top bits of the next word. Scaled by `2^-23` and
    /// shifted down by one it is a sample in `[-1, 1)`, exact in single
    /// precision.
    pub fn next_bits24(&mut self) -> (r: u32)
        ensures
            final(self)@ == xorshift(old(self)@),
            r == final(self)@ / 256,
            r < 0x100_0000,
    {
        self.next_u32() / 256
    }

    /// Fills a block with the 24-bit values of successive words.
    pub fn fill_bits24(&mut self, out: &mut [u32])
        ensures
            final(out)@ == Seq::new(
                old(out)@.len(),
                |i: int| state_after(old(self)@, (i + 1) as nat) / 256,
            ),
            final(self)@ == state_after(old(self)@, old(out)@.len()),
    {
        let n = out.len();
        let ghost start = self@;
        let mut i: usize = 0;
        while i < n
            invariant
                n == out@.len(),
                i <= n,
                self@ == state_after(start, i as nat),
                forall|j: int| 0 <= j < i ==> out@[j] == state_after(start, (j + 1) as nat) / 256,
            decreases n - i,
        {
            out[i] = self.next_bits24();
            i = i + 1;
        }
        assert(out@ =~= Seq::new(n as nat, |i: int| state_after(start, (i + 1) as nat) / 256));
    }
}

/// The generator never reaches the zero state, which it could not leave.
pub proof fn law_state_stays_nonzero(x: u32, n: nat)
    requires
        x != 0,
    ensures
        state_after(x, n) != 0,
    decreases n,
{
    if n > 0 {
        let y = state_after(x, (n - 1) as nat);
        law_state_stays_nonzero(x, (n - 1) as nat);
        assert(y != 0 ==> xorshift(y) != 0) by (bit_vector);
    }
}

/// Distinct states have distinct successors: the generator loses nothing.
pub proof fn law_step_is_injective(x: u32, y: u32)
    requires
        xorshift(x) == xorshift(y),
    ensures
        x == y,
{
    assert(xorshift(x) == xorshift(y) ==> x == y) by (bit_vector);
}

/// The generator is the xorshift by 13, 17 and 5.
pub proof fn law_generator_is_xorshift(x: u32)
    ensures
        xorshift(x) == ({
            let a = x ^ (x << 13);
            let b = a ^ (a >> 17);
            b ^ (b << 5)
        }),
{
}

} // verus!
