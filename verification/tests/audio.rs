use daisy_rs::audio::codec::{wm8731_control_word, Codec, WM8731_I2C_ADDR, WM8731_INIT};
use daisy_rs::audio::stream::{drain, gather, half_offset, scatter, Audio, AudioStep, DmaEvent};

#[test]
fn straps_match_libdaisy_truth_table() {
    // PD3 low ⇒ Seed 1.1; PD4 low ⇒ Seed 2 DFM; neither ⇒ Seed v1.
    assert_eq!(Codec::from_straps(true, false), Codec::Wm8731);
    assert_eq!(Codec::from_straps(true, true), Codec::Wm8731); // PD3 wins
    assert_eq!(Codec::from_straps(false, true), Codec::Pcm3060);
    assert_eq!(Codec::from_straps(false, false), Codec::Ak4556);
}

#[test]
fn word_size_and_scale() {
    for c in [Codec::Ak4556, Codec::Wm8731, Codec::Pcm3060] {
        assert_eq!(c.bits(), 24);
        assert_eq!(c.scale() as f32, 8_388_608.0);
    }
    assert_eq!(Codec::Tac5242.bits(), 32);
    assert_eq!(Codec::Tac5242.scale() as f32, 2_147_483_648.0);
    // scale == 2^(bits-1)
    for c in [Codec::Ak4556, Codec::Tac5242] {
        assert_eq!(c.scale() as f32, 2f32.powi(c.bits() as i32 - 1));
    }
}

#[test]
fn topology_flags() {
    // Only the WM8731 captures on block A.
    assert!(Codec::Wm8731.a_is_rx());
    for c in [Codec::Ak4556, Codec::Pcm3060, Codec::Tac5242] {
        assert!(!c.a_is_rx());
    }
    // Only the TAC5242 swaps L/R.
    assert!(Codec::Tac5242.swap_lr());
    for c in [Codec::Ak4556, Codec::Wm8731, Codec::Pcm3060] {
        assert!(!c.swap_lr());
    }
    // Only the WM8731 talks I²C.
    assert!(Codec::Wm8731.uses_i2c());
    for c in [Codec::Ak4556, Codec::Pcm3060, Codec::Tac5242] {
        assert!(!c.uses_i2c());
    }
}

#[test]
fn wm8731_control_word_packing() {
    // R7 = 0x0A: byte0 = 0x07<<1 | 0 = 0x0E, byte1 = 0x0A.
    assert_eq!(wm8731_control_word(0x07, 0b0_0000_1010), [0x0E, 0x0A]);
    // A 9th data bit lands in byte0 bit0: reg 0, val 0x100 → [0x01, 0x00].
    assert_eq!(wm8731_control_word(0x00, 0x100), [0x01, 0x00]);
    // Reset R15 = 0: [0x1E, 0x00].
    assert_eq!(wm8731_control_word(0x0F, 0), [0x1E, 0x00]);
    // The activate write R9 = 1 → [0x12, 0x01].
    assert_eq!(wm8731_control_word(0x09, 1), [0x12, 0x01]);
}

#[test]
fn codec_program_is_sent_word_by_word() {
    let (audio, steps) = Audio::new(Codec::Wm8731);
    assert_eq!(audio.scale, 1 << 23);
    assert!(!audio.swap_lr);
    assert_eq!(steps[0], AudioStep::OpenI2c { hz: 400_000 });
    for (k, (reg, val)) in WM8731_INIT.iter().enumerate() {
        let [first, second] = wm8731_control_word(*reg, *val);
        let write = AudioStep::I2cWrite { addr: WM8731_I2C_ADDR, first, second };
        assert_eq!(steps[1 + 2 * k], write);
        assert_eq!(steps[2 + 2 * k], AudioStep::Pause { cycles: 48_000 });
    }
    assert_eq!(steps.len(), 22);
    assert_eq!(steps[21], AudioStep::StartInterface { master_captures: true, bits: 24 });
}

#[test]
fn reset_pulse_falls_and_rises() {
    let (_, steps) = Audio::new(Codec::Ak4556);
    let levels: Vec<bool> = steps
        .iter()
        .filter_map(|s| match s {
            AudioStep::Control { high } => Some(*high),
            _ => None,
        })
        .collect();
    assert_eq!(levels, [true, false, true]);
    let (_, steps) = Audio::new(Codec::Pcm3060);
    assert_eq!(steps[0], AudioStep::Control { high: false });
    assert_eq!(steps.len(), 2);
    let (audio, steps) = Audio::new(Codec::Tac5242);
    assert!(audio.swap_lr);
    assert_eq!(steps[1], AudioStep::StartInterface { master_captures: false, bits: 32 });
}

#[test]
fn half_transfer_is_served_first() {
    assert_eq!(drain(true, true), Some(DmaEvent::Half));
    assert_eq!(drain(false, true), Some(DmaEvent::Complete));
    assert_eq!(drain(false, false), None);
    assert_eq!(half_offset(DmaEvent::Half), 0);
    assert_eq!(half_offset(DmaEvent::Complete), 96);
}

#[test]
fn passthrough_returns_every_sample_to_its_slot() {
    let mut rx = [0u32; 192];
    for (i, v) in rx.iter_mut().enumerate() {
        *v = 1000 + i as u32;
    }
    for swap in [false, true] {
        let mut tx = [7u32; 192];
        let block = gather(&rx, DmaEvent::Complete, swap);
        assert_eq!(block[0], if swap { 1097 } else { 1096 });
        scatter(&mut tx, DmaEvent::Complete, swap, &block);
        assert_eq!(tx[96..], rx[96..]);
        assert!(tx[..96].iter().all(|&v| v == 7));
    }
}
