use daisy_rs::midi::{channel_data_len, EventPacket, UsbMidiEncoder};

// Feed a byte slice; collect every emitted packet.
fn run(enc: &mut UsbMidiEncoder, bytes: &[u8]) -> Vec<EventPacket> {
    bytes.iter().filter_map(|&b| enc.push(b)).collect()
}

#[test]
fn note_on_off() {
    let mut e = UsbMidiEncoder::new(0);
    assert_eq!(run(&mut e, &[0x90, 0x3C, 0x40]), [[0x09, 0x90, 0x3C, 0x40]]);
    assert_eq!(run(&mut e, &[0x80, 0x3C, 0x40]), [[0x08, 0x80, 0x3C, 0x40]]);
}

#[test]
fn running_status() {
    let mut e = UsbMidiEncoder::new(0);
    // 0x90 then two note pairs with no repeated status.
    let out = run(&mut e, &[0x90, 0x3C, 0x40, 0x3E, 0x50]);
    assert_eq!(out, [[0x09, 0x90, 0x3C, 0x40], [0x09, 0x90, 0x3E, 0x50]]);
}

#[test]
fn control_change_and_pitchbend() {
    let mut e = UsbMidiEncoder::new(0);
    assert_eq!(run(&mut e, &[0xB0, 0x07, 0x7F]), [[0x0B, 0xB0, 0x07, 0x7F]]);
    assert_eq!(run(&mut e, &[0xE0, 0x00, 0x40]), [[0x0E, 0xE0, 0x00, 0x40]]);
}

#[test]
fn one_data_byte_messages() {
    let mut e = UsbMidiEncoder::new(0);
    // Program change (0xC) and channel pressure (0xD): one data byte, d2 = 0.
    assert_eq!(run(&mut e, &[0xC0, 0x05]), [[0x0C, 0xC0, 0x05, 0x00]]);
    assert_eq!(run(&mut e, &[0xD0, 0x40]), [[0x0D, 0xD0, 0x40, 0x00]]);
}

#[test]
fn realtime_interleaved_mid_message() {
    let mut e = UsbMidiEncoder::new(0);
    // Clock (0xF8) arrives between the note number and velocity.
    let out = run(&mut e, &[0x90, 0x3C, 0xF8, 0x40]);
    assert_eq!(out, [[0x0F, 0xF8, 0x00, 0x00], [0x09, 0x90, 0x3C, 0x40]]);
}

#[test]
fn realtime_standalone() {
    let mut e = UsbMidiEncoder::new(0);
    for b in [0xF8u8, 0xFA, 0xFB, 0xFC, 0xFE, 0xFF] {
        assert_eq!(e.push(b), Some([0x0F, b, 0x00, 0x00]));
    }
}

#[test]
fn system_common() {
    let mut e = UsbMidiEncoder::new(0);
    assert_eq!(run(&mut e, &[0xF1, 0x7F]), [[0x02, 0xF1, 0x7F, 0x00]]); // MTC
    assert_eq!(run(&mut e, &[0xF2, 0x00, 0x40]), [[0x03, 0xF2, 0x00, 0x40]]); // song pos
    assert_eq!(run(&mut e, &[0xF3, 0x05]), [[0x02, 0xF3, 0x05, 0x00]]); // song select
    assert_eq!(e.push(0xF6), Some([0x05, 0xF6, 0x00, 0x00])); // tune request
}

#[test]
fn system_common_clears_running_status() {
    let mut e = UsbMidiEncoder::new(0);
    run(&mut e, &[0x90, 0x3C, 0x40]); // set channel running status
    run(&mut e, &[0xF3, 0x05]); // system common
                                // A bare data byte now has no running status → dropped.
    assert_eq!(e.push(0x3E), None);
}

#[test]
fn sysex_three_then_three() {
    let mut e = UsbMidiEncoder::new(0);
    // F0 7E 7F 09 01 F7 → one full chunk + a 3-byte end chunk.
    let out = run(&mut e, &[0xF0, 0x7E, 0x7F, 0x09, 0x01, 0xF7]);
    assert_eq!(out, [[0x04, 0xF0, 0x7E, 0x7F], [0x07, 0x09, 0x01, 0xF7]]);
}

#[test]
fn sysex_end_lengths() {
    // Empty SysEx F0 F7 → ends with 2 bytes (CIN 0x6).
    let mut e = UsbMidiEncoder::new(0);
    assert_eq!(run(&mut e, &[0xF0, 0xF7]), [[0x06, 0xF0, 0xF7, 0x00]]);
    // F0 41 F7 → single 3-byte end chunk (CIN 0x7).
    let mut e = UsbMidiEncoder::new(0);
    assert_eq!(run(&mut e, &[0xF0, 0x41, 0xF7]), [[0x07, 0xF0, 0x41, 0xF7]]);
    // F0 7E 7F 41 F7 → full chunk then a 2-byte end (CIN 0x6).
    let mut e = UsbMidiEncoder::new(0);
    assert_eq!(
        run(&mut e, &[0xF0, 0x7E, 0x7F, 0x41, 0xF7]),
        [[0x04, 0xF0, 0x7E, 0x7F], [0x06, 0x41, 0xF7, 0x00]]
    );
    // ...one more data byte → a 1-byte end (CIN 0x5).
    let mut e = UsbMidiEncoder::new(0);
    assert_eq!(
        run(&mut e, &[0xF0, 0x7E, 0x7F, 0x41, 0x42, 0xF7]),
        [[0x04, 0xF0, 0x7E, 0x7F], [0x07, 0x41, 0x42, 0xF7]]
    );
}

#[test]
fn realtime_during_sysex() {
    let mut e = UsbMidiEncoder::new(0);
    // Clock lands between SysEx bytes: emitted immediately, SysEx unbroken.
    let out = run(&mut e, &[0xF0, 0x7E, 0xF8, 0x7F, 0x09, 0xF7]);
    assert_eq!(
        out,
        [
            [0x0F, 0xF8, 0x00, 0x00],
            [0x04, 0xF0, 0x7E, 0x7F],
            [0x06, 0x09, 0xF7, 0x00],
        ]
    );
}

#[test]
fn status_byte_ends_sysex_implicitly() {
    let mut e = UsbMidiEncoder::new(0);
    // A note-on interrupts an unterminated SysEx: partial chunk dropped, the
    // note is parsed normally.
    let out = run(&mut e, &[0xF0, 0x12, 0x90, 0x3C, 0x40]);
    assert_eq!(out, [[0x09, 0x90, 0x3C, 0x40]]);
}

#[test]
fn orphan_data_dropped() {
    let mut e = UsbMidiEncoder::new(0);
    assert_eq!(e.push(0x3C), None); // no status yet
    assert_eq!(e.push(0x40), None);
}

#[test]
fn cable_number_in_header() {
    let mut e = UsbMidiEncoder::new(3);
    // Cable 3 → high nibble 0x3 in every header byte.
    assert_eq!(run(&mut e, &[0x90, 0x3C, 0x40]), [[0x39, 0x90, 0x3C, 0x40]]);
    assert_eq!(e.push(0xF8), Some([0x3F, 0xF8, 0x00, 0x00]));
}

#[test]
fn sysex_is_cut_into_threes() {
    for k in 2..12usize {
        let mut bytes = vec![0xF0];
        bytes.extend((0..k - 2).map(|i| i as u8 + 1));
        bytes.push(0xF7);
        let packets = run(&mut UsbMidiEncoder::new(0), &bytes);
        assert_eq!(packets.len(), k.div_ceil(3));
        for (j, p) in packets.iter().enumerate() {
            let piece = &bytes[3 * j..k.min(3 * j + 3)];
            let last = j + 1 == packets.len();
            assert_eq!(p[0] as usize, if last { 4 + piece.len() } else { 4 });
            assert_eq!(&p[1..1 + piece.len()], piece);
        }
    }
}
