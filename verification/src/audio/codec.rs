//! Codecs of the Daisy Seed's revisions.
use vstd::prelude::*;

verus! {

/// Audio codec fitted to a board.
#[derive(Clone, Copy, Debug, PartialEq, Eq, Structural)]
pub enum Codec {
    /// First revision.
    Ak4556,
    /// Revision 1.1.
    Wm8731,
    /// Second generation.
    Pcm3060,
    /// Third generation.
    Tac5242,
}

impl Codec {
    /// Detects the codec from the two version straps; the first one wins.
    pub fn from_straps(pd3_low: bool, pd4_low: bool) -> (c: Codec)
        ensures
            c == if pd3_low {
                Codec::Wm8731
            } else if pd4_low {
                Codec::Pcm3060
            } else {
                Codec::Ak4556
            },
    {
        if pd3_low {
            Codec::Wm8731
        } else if pd4_low {
            Codec::Pcm3060
        } else {
            Codec::Ak4556
        }
    }

    /// Bits of a sample word.
    pub open spec fn word_bits(self) -> int {
        if self == Codec::Tac5242 {
            32
        } else {
            24
        }
    }

    /// Bits of a sample word.
    pub fn bits(self) -> (b: u8)
        ensures
            b == self.word_bits(),
    {
        match self {
            Codec::Tac5242 => 32,
            _ => 24,
        }
    }

    /// Full scale: two to the power of one less than the word's bits.
    pub fn scale(self) -> (s: u32)
        ensures
            s == vstd::arithmetic::power2::pow2((self.word_bits() - 1) as nat),
    {
        proof {
            vstd::arithmetic::power2::lemma2_to64();
        }
        match self {
            Codec::Tac5242 => 0x8000_0000,
            _ => 0x80_0000,
        }
    }

    /// Whether the audio interface's master block captures.
    pub fn a_is_rx(self) -> (b: bool)
        ensures
            b == (self == Codec::Wm8731),
    {
        match self {
            Codec::Wm8731 => true,
            _ => false,
        }
    }

    /// Whether left and right arrive exchanged.
    pub fn swap_lr(self) -> (b: bool)
        ensures
            b == (self == Codec::Tac5242),
    {
        match self {
            Codec::Tac5242 => true,
            _ => false,
        }
    }

    /// Whether the codec is programmed over I2C.
    pub fn uses_i2c(self) -> (b: bool)
        ensures
            b == (self == Codec::Wm8731),
    {
        match self {
            Codec::Wm8731 => true,
            _ => false,
        }
    }
}

/// Bus address of the WM8731.
pub const WM8731_I2C_ADDR: u8 = 0x1A;

/// Register program of the WM8731: register index and nine-bit value, in order.
/// I2S, 24 bits, 48 kHz, slave to an external master clock.
pub const WM8731_INIT: [(u8, u16); 10] = [
    (0x0F, 0x000),
    (0x06, 0x062),
    (0x00, 0x017),
    (0x01, 0x017),
    (0x04, 0x012),
    (0x05, 0x000),
    (0x07, 0x00A),
    (0x08, 0x000),
    (0x09, 0x001),
    (0x06, 0x062),
];

/// Control word of a register write: the seven bits of the index, then the nine
/// bits of the value; bits beyond are dropped.
pub open spec fn control_word(reg: u8, val: u16) -> Seq<u8> {
    seq![
        ((reg as int % 128) * 2 + (val as int / 256) % 2) as u8,
        (val as int % 256) as u8,
    ]
}

/// Packs a register write of the WM8731.
pub fn wm8731_control_word(reg: u8, val: u16) -> (w: [u8; 2])
    ensures
        w@ == control_word(reg, val),
{
    let w = [(reg % 128) * 2 + ((val / 256) % 2) as u8, (val % 256) as u8];
    assert(w@ =~= control_word(reg, val));
    w
}

/// A control word carries its register and value: both can be read back.
pub proof fn law_control_word_is_lossless(reg: u8, val: u16)
    requires
        reg < 128,
        val < 512,
    ensures
        control_word(reg, val)[0] / 2 == reg,
        (control_word(reg, val)[0] % 2) * 256 + control_word(reg, val)[1] == val,
{
}

/// The third generation works in words of 32 bits, all others of 24.
pub proof fn law_words_by_generation(c: Codec)
    ensures
        c.word_bits() == match c {
            Codec::Ak4556 | Codec::Wm8731 | Codec::Pcm3060 => 24int,
            Codec::Tac5242 => 32,
        },
{
}

/// A control word is two bytes, the index before the value: read as one number,
/// highest byte first, it is 512 times the index and the value.
pub proof fn law_control_word_is_index_and_value(reg: u8, val: u16)
    requires
        reg < 128,
        val < 512,
    ensures
        control_word(reg, val).len() == 2,
        control_word(reg, val)[0] * 256 + control_word(reg, val)[1] == reg * 512 + val,
{
}

/// What the register program does: it resets the part, powers what is used, gives
/// both inputs one level, selects the converter and opens the output, sets words
/// of 24 bits in I2S as a slave at 48 kHz, and only then activates the interface.
/// The power setting is written again at the end.
pub proof fn law_program_sets_the_format_before_it_starts()
    ensures
        WM8731_I2C_ADDR == 0x1A,
        WM8731_INIT@[0] == (15u8, 0u16),
        WM8731_INIT@[1] == (6u8, 0x62u16) && WM8731_INIT@[9] == WM8731_INIT@[1],
        WM8731_INIT@[2].0 == 0 && WM8731_INIT@[3].0 == 1,
        WM8731_INIT@[2].1 == 0x17 && WM8731_INIT@[3].1 == WM8731_INIT@[2].1,
        WM8731_INIT@[4] == (4u8, 0x12u16),
        WM8731_INIT@[5] == (5u8, 0u16),
        WM8731_INIT@[6].0 == 7,
        WM8731_INIT@[6].1 % 4 == 2 && WM8731_INIT@[6].1 / 4 == 2,
        WM8731_INIT@[7] == (8u8, 0u16),
        WM8731_INIT@[8] == (9u8, 1u16),
{
}

} // verus!
