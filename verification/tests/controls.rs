use daisy_rs::hothouse::{
    decode_toggle, Debouncer, Footswitch, LedId, Leds, Switches, Toggle, ToggleswitchPosition,
};
use daisy_rs::pod::{Button, Buttons, EncoderDecoder, Led, RgbLeds};

#[test]
fn hothouse_debounce_needs_eight_samples() {
    let mut d = Debouncer::new();
    for _ in 0..7 {
        d.update(true);
        assert!(!d.pressed());
    }
    assert!(d.rising_edge()); // 0x7f — the eighth-from-completing sample
    d.update(true);
    assert!(d.pressed()); // 0xff
    assert!(!d.rising_edge());
}

#[test]
fn debounce_release_edge() {
    let mut d = Debouncer::new();
    for _ in 0..8 {
        d.update(true);
    }
    assert!(d.pressed()); // 0xff
                          // Release: 0xff shifts down 0xfe,fc,f8,f0,e0,c0,...
    for _ in 0..6 {
        d.update(false);
    }
    assert!(!d.falling_edge()); // 0xc0, not yet
    d.update(false);
    assert!(d.falling_edge()); // 0x80 — the release edge
    d.update(false);
    assert!(!d.falling_edge()); // 0x00, fully released
    assert!(!d.pressed());
}

#[test]
fn toggle_decode_matches_reference() {
    assert_eq!(decode_toggle(true, false), ToggleswitchPosition::Up);
    assert_eq!(decode_toggle(false, true), ToggleswitchPosition::Down);
    assert_eq!(decode_toggle(false, false), ToggleswitchPosition::Middle);
    // Up wins if the switch somehow reports both (transient).
    assert_eq!(decode_toggle(true, true), ToggleswitchPosition::Up);
}

#[test]
fn pod_debounce_needs_eight_samples() {
    let mut d = Debouncer::new();
    for _ in 0..7 {
        d.update(true);
        assert!(!d.pressed());
    }
    assert!(d.rising_edge()); // 0x7f
    d.update(true);
    assert!(d.pressed()); // 0xff
}

#[test]
fn encoder_counts_up() {
    // B settles low, then A falls while B low → +1 (libDaisy's CW arm).
    let mut e = EncoderDecoder::new();
    assert_eq!(e.update(true, false), 0);
    assert_eq!(e.update(true, false), 0); // b history now ...00
    assert_eq!(e.update(false, false), 1); // a falls: a=...10, b=...00
}

#[test]
fn encoder_counts_down() {
    // A settles low, then B falls while A low → −1 (the CCW arm).
    let mut e = EncoderDecoder::new();
    assert_eq!(e.update(false, true), 0);
    assert_eq!(e.update(false, true), 0); // a history now ...00
    assert_eq!(e.update(false, false), -1); // b falls: b=...10, a=...00
}

#[test]
fn encoder_idle_is_zero() {
    let mut e = EncoderDecoder::new();
    for _ in 0..8 {
        assert_eq!(e.update(true, true), 0); // no motion, both idle-high
    }
}

#[test]
fn panel_reads_toggles_and_footswitches() {
    let mut s = Switches::new();
    // Toggle 1 up, footswitch 1 down; everything else open (high).
    let low = [true, false, false, false, false, false, true, false];
    for _ in 0..7 {
        s.update(&low);
    }
    assert!(s.footswitch_rising(Footswitch::One));
    s.update(&low);
    assert_eq!(s.toggle(Toggle::One), ToggleswitchPosition::Up);
    assert_eq!(s.toggle(Toggle::Two), ToggleswitchPosition::Middle);
    assert!(s.footswitch_pressed(Footswitch::One));
    assert!(!s.footswitch_pressed(Footswitch::Two));
    assert!(!s.dfu_gesture());
    let both = [false, false, false, false, false, false, true, true];
    for _ in 0..8 {
        s.update(&both);
    }
    assert!(s.dfu_gesture());
}

#[test]
fn indicators_have_their_own_polarity() {
    let mut l = Leds::new();
    l.set(LedId::Two, true);
    assert_eq!((l.led1, l.led2), (false, true));
    let mut rgb = RgbLeds::new();
    assert!(rgb.led1.r && rgb.led1.g && rgb.led1.b);
    rgb.set(Led::One, true, false, true);
    assert_eq!((rgb.led1.r, rgb.led1.g, rgb.led1.b), (false, true, false));
    assert!(rgb.led2.r && rgb.led2.g && rgb.led2.b);
}

#[test]
fn pod_buttons_are_active_low() {
    let mut b = Buttons::new();
    for _ in 0..8 {
        b.update(&[true, false]);
    }
    assert!(b.pressed(Button::One));
    assert!(!b.pressed(Button::Two));
    for _ in 0..7 {
        b.update(&[false, false]);
    }
    assert!(b.falling(Button::One));
}

#[test]
fn bounce_never_counts_as_a_press() {
    let mut d = Debouncer::new();
    for i in 0..64 {
        d.update(i % 5 != 4);
        assert!(!d.pressed());
    }
}
