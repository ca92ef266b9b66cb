//! The block path: bring-up of the codec and of the serial interface, and the
//! exchange of a DMA half with the processing callback.
use super::codec;
use super::codec::{wm8731_control_word, Codec, WM8731_I2C_ADDR, WM8731_INIT};
use vstd::prelude::*;

verus! {

/// Frames per processing block.
pub const BLOCK_SIZE: usize = 48;

/// Interleaved stereo samples per block.
pub const STEREO_BLOCK: usize = 96;

/// The DMA ring holds two blocks.
pub const DMA_BUFFER_LEN: usize = 192;

/// Sample rate, in hertz.
pub const SAMPLE_RATE_HZ: u32 = 48_000;

/// Clock of the codec's control bus, in hertz.
pub const I2C_HZ: u32 = 400_000;

// ---------------------------------------------------------------------------
// Bring-up
// ---------------------------------------------------------------------------

/// One step of the bring-up.
#[derive(Debug, Clone, Copy, PartialEq, Eq, Structural)]
pub enum AudioStep {
    /// Burn processor cycles.
    Pause { cycles: u32 },
    /// Open the control bus.
    OpenI2c { hz: u32 },
    /// Write two bytes over the control bus.
    I2cWrite { addr: u8, first: u8, second: u8 },
    /// Drive the codec's control pin.
    Control { high: bool },
    /// Configure and start the serial interface: which direction its master
    /// block has, and the sample word.
    StartInterface { master_captures: bool, bits: u8 },
}

/// The write of one register, and the pause after it.
pub open spec fn register_steps(reg: u8, val: u16) -> Seq<AudioStep> {
    seq![
        (AudioStep::I2cWrite {
            addr: WM8731_I2C_ADDR,
            first: codec::control_word(reg, val)[0],
            second: codec::control_word(reg, val)[1],
        }),
        (AudioStep::Pause { cycles: 48_000 }),
    ]
}

/// The first `n` register writes.
pub open spec fn program_steps(n: nat) -> Seq<AudioStep>
    decreases n,
{
    if n == 0 {
        Seq::empty()
    } else {
        program_steps((n - 1) as nat) + register_steps(
            WM8731_INIT@[n - 1].0,
            WM8731_INIT@[n - 1].1,
        )
    }
}

/// Codec-specific part of the bring-up.
pub open spec fn codec_steps(c: Codec) -> Seq<AudioStep> {
    match c {
        Codec::Wm8731 => seq![(AudioStep::OpenI2c { hz: I2C_HZ })] + program_steps(10),
        Codec::Ak4556 => seq![
            (AudioStep::Control { high: true }),
            (AudioStep::Pause { cycles: 480_000 }),
            (AudioStep::Control { high: false }),
            (AudioStep::Pause { cycles: 480_000 }),
            (AudioStep::Control { high: true }),
            (AudioStep::Pause { cycles: 480_000 }),
        ],
        Codec::Pcm3060 => seq![(AudioStep::Control { high: false })],
        Codec::Tac5242 => seq![(AudioStep::Pause { cycles: 1_000_000 })],
    }
}

/// Programs the WM8731.
pub fn init_wm8731(steps: &mut Vec<AudioStep>)
    ensures
        final(steps)@ == old(steps)@ + program_steps(10),
{
    let ghost before = steps@;
    let mut i: usize = 0;
    assert(before + program_steps(0) =~= before);
    while i < 10
        invariant
            i <= 10,
            steps@ == before + program_steps(i as nat),
        decreases 10 - i,
    {
        let (reg, val) = WM8731_INIT[i];
        let word = wm8731_control_word(reg, val);
        steps.push(
            AudioStep::I2cWrite { addr: WM8731_I2C_ADDR, first: word[0], second: word[1] },
        );
        steps.push(AudioStep::Pause { cycles: 48_000 });
        assert(steps@ =~= before + program_steps((i + 1) as nat));
        i = i + 1;
    }
}

/// The audio interface of a board.
#[derive(Debug, Clone, Copy, PartialEq, Eq, Structural)]
pub struct Audio {
    pub codec: Codec,
    /// Full scale of a sample.
    pub scale: u32,
    /// Left and right arrive exchanged.
    pub swap_lr: bool,
}

impl Audio {
    /// Brings the audio path up for a codec: what to remember for the block
    /// path, and the steps to take.
    pub fn new(codec: Codec) -> (r: (Self, Vec<AudioStep>))
        ensures
            r.0.codec == codec,
            r.0.scale == vstd::arithmetic::power2::pow2((codec.word_bits() - 1) as nat),
            r.0.swap_lr == (codec == Codec::Tac5242),
            r.1@ == codec_steps(codec).push(
                AudioStep::StartInterface {
                    master_captures: codec == Codec::Wm8731,
                    bits: codec.word_bits() as u8,
                },
            ),
    {
        let mut steps: Vec<AudioStep> = Vec::new();
        match codec {
            Codec::Wm8731 => {
                steps.push(AudioStep::OpenI2c { hz: I2C_HZ });
                assert(steps@ =~= seq![(AudioStep::OpenI2c { hz: I2C_HZ })]);
                init_wm8731(&mut steps);
            },
            Codec::Ak4556 => {
                steps.push(AudioStep::Control { high: true });
                steps.push(AudioStep::Pause { cycles: 480_000 });
                steps.push(AudioStep::Control { high: false });
                steps.push(AudioStep::Pause { cycles: 480_000 });
                steps.push(AudioStep::Control { high: true });
                steps.push(AudioStep::Pause { cycles: 480_000 });
            },
            Codec::Pcm3060 => {
                steps.push(AudioStep::Control { high: false });
            },
            Codec::Tac5242 => {
                steps.push(AudioStep::Pause { cycles: 1_000_000 });
            },
        }
        assert(steps@ =~= codec_steps(codec));
        let bits = codec.bits();
        steps.push(AudioStep::StartInterface { master_captures: codec.a_is_rx(), bits });
        (Audio { codec, scale: codec.scale(), swap_lr: codec.swap_lr() }, steps)
    }
}

// ---------------------------------------------------------------------------
// The block path
// ---------------------------------------------------------------------------

/// A DMA event: which half of the ring has just filled.
#[derive(Debug, Clone, Copy, PartialEq, Eq, Structural)]
pub enum DmaEvent {
    /// The half-transfer flag, which is then cleared.
    Half,
    /// The transfer-complete flag, which is then cleared.
    Complete,
}

/// The pending event, if any; a half transfer is served first.
pub fn drain(half: bool, complete: bool) -> (e: Option<DmaEvent>)
    ensures
        e == if half {
            Some(DmaEvent::Half)
        } else if complete {
            Some(DmaEvent::Complete)
        } else {
            None
        },
{
    if half {
        Some(DmaEvent::Half)
    } else if complete {
        Some(DmaEvent::Complete)
    } else {
        None
    }
}

/// Where the half that has just filled starts.
pub fn half_offset(e: DmaEvent) -> (o: usize)
    ensures
        o == match e {
            DmaEvent::Half => 0int,
            DmaEvent::Complete => 96,
        },
{
    match e {
        DmaEvent::Half => 0,
        DmaEvent::Complete => STEREO_BLOCK,
    }
}

/// The place of sample `i` of a block, with left and right exchanged on request.
pub open spec fn slot(i: int, swap: bool) -> int {
    if swap {
        if i % 2 == 0 {
            i + 1
        } else {
            i - 1
        }
    } else {
        i
    }
}

fn slot_of(i: usize, swap: bool) -> (s: usize)
    requires
        i < 96,
    ensures
        s == slot(i as int, swap),
        s < 96,
{
    if swap {
        if i % 2 == 0 {
            i + 1
        } else {
            i - 1
        }
    } else {
        i
    }
}

/// The captured half as an interleaved block, left first.
pub open spec fn gathered(rx: Seq<u32>, offset: int, swap: bool) -> Seq<u32> {
    Seq::new(96, |i: int| rx[offset + slot(i, swap)])
}

/// Takes the captured half out of the ring.
pub fn gather(rx: &[u32; 192], event: DmaEvent, swap: bool) -> (block: [u32; 96])
    ensures
        block@ == gathered(
            rx@,
            match event {
                DmaEvent::Half => 0,
                DmaEvent::Complete => 96,
            },
            swap,
        ),
        !swap ==> block@ == match event {
            DmaEvent::Half => rx@.take(96),
            DmaEvent::Complete => rx@.skip(96),
        },
{
    let offset = half_offset(event);
    let mut block: [u32; 96] = [0; 96];
    let mut i: usize = 0;
    while i < 96
        invariant
            i <= 96,
            offset == 0 || offset == 96,
            forall|j: int| 0 <= j < i ==> block@[j] == rx@[offset + slot(j, swap)],
        decreases 96 - i,
    {
        block[i] = rx[offset + slot_of(i, swap)];
        i = i + 1;
    }
    assert(block@ =~= gathered(rx@, offset as int, swap));
    proof {
        law_channels_keep_their_places(rx@, rx@, offset as int, block@);
        assert(rx@.take(96) =~= rx@.subrange(0, 96));
        assert(rx@.skip(96) =~= rx@.subrange(96, 192));
    }
    block
}

/// The ring with a block put into one half.
pub open spec fn scattered(tx: Seq<u32>, offset: int, swap: bool, block: Seq<u32>) -> Seq<u32> {
    Seq::new(
        192,
        |k: int|
            if offset <= k < offset + 96 {
                block[slot(k - offset, swap)]
            } else {
                tx[k]
            },
    )
}

/// Puts the processed block into the matching half of the transmit ring.
pub fn scatter(tx: &mut [u32; 192], event: DmaEvent, swap: bool, block: &[u32; 96])
    ensures
        final(tx)@ == scattered(
            old(tx)@,
            match event {
                DmaEvent::Half => 0,
                DmaEvent::Complete => 96,
            },
            swap,
            block@,
        ),
        !swap ==> final(tx)@ == match event {
            DmaEvent::Half => block@ + old(tx)@.skip(96),
            DmaEvent::Complete => old(tx)@.take(96) + block@,
        },
{
    let offset = half_offset(event);
    let ghost before = tx@;
    let mut i: usize = 0;
    while i < 96
        invariant
            i <= 96,
            offset == 0 || offset == 96,
            before.len() == 192,
            forall|k: int|
                0 <= k < 192 ==> #[trigger] tx@[k] == if offset <= k < offset + i {
                    block@[slot(k - offset, swap)]
                } else {
                    before[k]
                },
        decreases 96 - i,
    {
        tx[offset + i] = block[slot_of(i, swap)];
        i = i + 1;
    }
    assert(tx@ =~= scattered(before, offset as int, swap, block@));
    proof {
        if !swap && offset == 0 {
            assert(tx@ =~= block@ + before.skip(96));
        } else if !swap {
            assert(tx@ =~= before.take(96) + block@);
        }
    }
}

/// Without exchange the channels keep their places: the block is the captured
/// half itself, and the transmit half is the block itself.
pub proof fn law_channels_keep_their_places(
    rx: Seq<u32>,
    tx: Seq<u32>,
    offset: int,
    block: Seq<u32>,
)
    requires
        rx.len() == 192,
        tx.len() == 192,
        block.len() == 96,
        offset == 0 || offset == 96,
    ensures
        gathered(rx, offset, false) == rx.subrange(offset, offset + 96),
        scattered(tx, offset, false, block).subrange(offset, offset + 96) == block,
{
    assert(gathered(rx, offset, false) =~= rx.subrange(offset, offset + 96));
    assert(scattered(tx, offset, false, block).subrange(offset, offset + 96) =~= block);
}

/// With exchange, left and right of every frame change places, and nothing moves
/// from one frame to another.
pub proof fn law_channels_are_exchanged(
    rx: Seq<u32>,
    tx: Seq<u32>,
    offset: int,
    block: Seq<u32>,
    f: int,
)
    requires
        rx.len() == 192,
        tx.len() == 192,
        block.len() == 96,
        offset == 0 || offset == 96,
        0 <= f < 48,
    ensures
        gathered(rx, offset, true).len() == 96,
        gathered(rx, offset, true)[2 * f] == rx[offset + 2 * f + 1],
        gathered(rx, offset, true)[2 * f + 1] == rx[offset + 2 * f],
        scattered(tx, offset, true, block).len() == 192,
        scattered(tx, offset, true, block)[offset + 2 * f] == block[2 * f + 1],
        scattered(tx, offset, true, block)[offset + 2 * f + 1] == block[2 * f],
{
}

/// With no processing in between, the transmit half is the captured half, word
/// for word, whichever way round the channels arrive.
pub proof fn law_passthrough_is_exact(rx: Seq<u32>, tx: Seq<u32>, offset: int, swap: bool)
    requires
        rx.len() == 192,
        tx.len() == 192,
        offset == 0 || offset == 96,
    ensures
        scattered(tx, offset, swap, gathered(rx, offset, swap)).subrange(offset, offset + 96)
            == rx.subrange(offset, offset + 96),
{
    assert forall|i: int| 0 <= i < 96 implies slot(slot(i, swap), swap) == i && 0 <= slot(i, swap)
        < 96 by {}
    assert(scattered(tx, offset, swap, gathered(rx, offset, swap)).subrange(offset, offset + 96)
        =~= rx.subrange(offset, offset + 96));
}

/// An interrupt touches only its own half: the other half keeps playing.
pub proof fn law_other_half_is_untouched(
    tx: Seq<u32>,
    offset: int,
    swap: bool,
    block: Seq<u32>,
    k: int,
)
    requires
        0 <= k < 192,
        !(offset <= k < offset + 96),
    ensures
        scattered(tx, offset, swap, block)[k] == tx[k],
{
}

/// The bring-up of each codec, step by step: the first revision is reset by two
/// pulses' worth of its control pin, the second generation's filter pin is held
/// low, the third needs only time, and only revision 1.1 is programmed.
pub proof fn law_bring_up_by_codec()
    ensures
        codec_steps(Codec::Ak4556) == seq![
            (AudioStep::Control { high: true }),
            (AudioStep::Pause { cycles: 480_000 }),
            (AudioStep::Control { high: false }),
            (AudioStep::Pause { cycles: 480_000 }),
            (AudioStep::Control { high: true }),
            (AudioStep::Pause { cycles: 480_000 }),
        ],
        codec_steps(Codec::Pcm3060) == seq![(AudioStep::Control { high: false })],
        codec_steps(Codec::Tac5242) == seq![(AudioStep::Pause { cycles: 1_000_000 })],
        codec_steps(Codec::Wm8731).len() == 21,
        codec_steps(Codec::Wm8731)[0] == (AudioStep::OpenI2c { hz: 400_000 }),
{
    assert forall|n: nat| #![trigger program_steps(n)] program_steps(n).len() == 2 * n by {
        lemma_program_len(n);
    }
}

proof fn lemma_program_len(n: nat)
    ensures
        program_steps(n).len() == 2 * n,
    decreases n,
{
    if n > 0 {
        lemma_program_len((n - 1) as nat);
    }
}

/// Each register of the program is written once, in its order, and given time to
/// settle: the two bytes of write `k` carry the index and the value.
pub proof fn law_program_writes_every_register(n: nat, k: int)
    requires
        0 <= k < n <= 10,
    ensures
        program_steps(n).len() == 2 * n,
        program_steps(n)[2 * k] matches AudioStep::I2cWrite { addr, first, second } && addr == 0x1A
            && first * 256 + second == WM8731_INIT@[k].0 % 128 * 512 + WM8731_INIT@[k].1 % 512,
        program_steps(n)[2 * k + 1] == (AudioStep::Pause { cycles: 48_000 }),
    decreases n,
{
    lemma_program_len((n - 1) as nat);
    lemma_program_len(n);
    if k < n - 1 {
        law_program_writes_every_register((n - 1) as nat, k);
    }
}

/// A block is a millisecond at the sample rate, in two channels, and the ring
/// holds two of them.
pub proof fn law_blocks_last_a_millisecond()
    ensures
        BLOCK_SIZE * 1000 == SAMPLE_RATE_HZ,
        SAMPLE_RATE_HZ == 48_000,
        STEREO_BLOCK == 2 * BLOCK_SIZE,
        DMA_BUFFER_LEN == 2 * STEREO_BLOCK,
        I2C_HZ == 400_000,
{
}

} // verus!
