use daisy_rs::hothouse::ToggleswitchPosition;
use daisy_rs::text::{number_text, push_decimal, push_hex8};
use daisy_rs::ui::draw::{Color, DrawOp};
use daisy_rs::ui::march::{
    gauge, render as render_march, scan_keys, service, Control, ErrLog, Keys, Request, Runner,
    Service, Status, TestState, Waiting, SDRAM_WORDS,
};
use daisy_rs::ui::panel::{render as render_panel, Controls, KnobView};
use daisy_rs::ui::terminal::{attached, drain_to, output_pending, Pacer, Terminal};

fn find<'a>(ops: &'a [DrawOp], text: &str) -> &'a DrawOp {
    ops.iter().find(|o| o.text == text).unwrap_or_else(|| panic!("{text} is not drawn"))
}

fn controls() -> Controls {
    Controls {
        knobs: [KnobView { pointer: 3, percent: 50 }; 6],
        toggles: [
            ToggleswitchPosition::Up,
            ToggleswitchPosition::Middle,
            ToggleswitchPosition::Down,
        ],
        footswitches: [true, false],
    }
}

#[test]
fn panel_shows_every_control() {
    let ops = render_panel(&controls(), 80, 40);
    for k in 1..=6 {
        find(&ops, &format!("KNOB {k}"));
    }
    assert_eq!(ops.iter().filter(|o| o.text == "50%").count(), 6);
    // Centred: the panel is 50 wide on 80 columns.
    assert_eq!(find(&ops, "[\u{25b2}]").x, 15 + 2 + 3);
    find(&ops, "\u{2502} \u{2588}\u{2588}\u{2588} \u{2502}");
    find(&ops, ">cle_");
    assert_eq!(find(&ops, "FOOTSWITCH 1").y, 29);
}

#[test]
fn nothing_is_drawn_below_the_terminal() {
    for rows in [0, 1, 10, 24, 31] {
        assert!(render_panel(&controls(), 80, rows).iter().all(|o| o.y < rows));
        let s = TestState::new(16, 100, 2);
        let names = vec!["a".to_string(), "b".to_string()];
        let screen = render_march(&s, &names, &Vec::new(), 72, rows);
        assert!(screen.ops.iter().all(|o| o.y < rows));
        assert!(screen.fill_h <= rows);
    }
}

#[test]
fn error_log_keeps_the_latest() {
    let mut log = ErrLog::new();
    for i in 0..10 {
        log.push(i, 0, 1);
    }
    assert_eq!(log.total(), 10);
    assert_eq!(log.recent(0), Some((9, 0, 1)));
    assert_eq!(log.recent(7), Some((2, 0, 1)));
    assert_eq!(log.recent(8), None);
}

#[test]
fn memory_test_reports_failures() {
    let mut s = TestState::new(0x100_0000, 100, 2);
    let names = vec!["Own address".to_string(), "March C-".to_string()];
    s.status = Status::Running;
    s.pass = 3;
    s.elapsed_s = 75;
    s.throughput_mb_s = 42;
    s.cur_group = 1;
    s.phase_pct = 50;
    s.on_error(4, 0xFFFF_FFFF, 0xFFFF_FFFE);
    let screen = render_march(&s, &names, &vec![1], 72, 28);
    let ops = &screen.ops;
    find(ops, "64 MiB @ 0xC0000000  16777216 words  SDCLK 100 MHz  non-cacheable");
    find(ops, "Pass 3      Elapsed 01:15   Throughput 42 MB/s");
    find(ops, "[2/2] March C-  \u{2014}  ");
    find(ops, "0xC0000010  exp FFFFFFFF got FFFFFFFE  D~0x00000001");
    assert_eq!(find(ops, "\u{2717}").y, 10);
    assert_eq!(find(ops, "\u{2713}").y, 9);
    assert_eq!(find(ops, "\u{2014} FAIL (1 errors)").style.fg, Color::Red);
    assert_eq!(find(ops, " 50%").x, 64);
    assert_eq!(find(ops, "RUNNING").y, 25);
    find(ops, "[space] pause     [s] stop");
    assert_eq!((screen.fill_w, screen.fill_h), (70, 26));
    assert!(!s.clean());
    let mut c = Control::new();
    c.end_pass(true);
    c.idle(&mut s, Keys { toggle: true, stop: false });
    assert!(s.clean() && c.running);
}

#[test]
fn gauge_fills_with_progress() {
    assert_eq!(gauge(0, 13), "\u{2595}\u{2591}\u{2591}\u{2591}\u{2591}\u{2591}\u{2591}\u{2591}\u{2591}\u{2591}\u{2591}\u{258f}");
    assert_eq!(gauge(50, 13).matches('\u{2588}').count(), 5);
    assert_eq!(gauge(200, 13).matches('\u{2588}').count(), 10);
}

#[test]
fn keys_are_found_in_the_input() {
    let none = Keys { toggle: false, stop: false };
    assert_eq!(scan_keys(b"\x1b[24;80R"), Request::Keys { keys: none });
    assert_eq!(scan_keys(b" S"), Request::Keys { keys: Keys { toggle: true, stop: true } });
    assert_eq!(scan_keys(b"sbr"), Request::RebootToBootloader);
    assert_eq!(scan_keys(b"r"), Request::Reboot);
}

#[test]
fn pause_and_stop() {
    let toggle = Keys { toggle: true, stop: false };
    let none = Keys { toggle: false, stop: false };
    let stop = Keys { toggle: true, stop: true };
    assert_eq!(service(Status::Running, toggle), (Status::Paused, Service::Hold));
    assert_eq!(service(Status::Paused, none), (Status::Paused, Service::Hold));
    assert_eq!(service(Status::Paused, toggle), (Status::Running, Service::Continue));
    assert_eq!(service(Status::Running, stop), (Status::Running, Service::Stop));
}

#[test]
fn statistics_follow_the_cycle_counter() {
    let mut s = TestState::new(0x100_0000, 100, 1);
    let mut c = Control::new();
    let mut r = c.start_pass(&mut s, 0xFFFF_0000);
    assert_eq!(s.pass, 1);
    r.begin_phase();
    // Two seconds later the counter has wrapped.
    r.update_stats(&mut s, 0x80_0000, 0xFFFF_0000u32.wrapping_add(800_000_000));
    assert_eq!(s.elapsed_s, 2);
    assert_eq!(s.phase_pct, 50);
    assert_eq!(s.addr, 0xC200_0000);
    assert_eq!(s.throughput_mb_s, 16);
    r.ascending = false;
    r.update_stats(&mut s, 0x100_0000, 0);
    assert_eq!(s.addr, 0xC000_0000);
}

#[test]
fn progress_beyond_the_memory_is_clamped() {
    let mut s = TestState::new(SDRAM_WORDS, 100, 1);
    let mut r = Runner::new(0);
    r.update_stats(&mut s, SDRAM_WORDS + 5, 0);
    assert_eq!(s.addr, 0xC3FF_FFFC);
    assert_eq!(s.phase_pct, 100);
    r.ascending = false;
    r.update_stats(&mut s, 3 * SDRAM_WORDS, 0);
    assert_eq!(s.addr, 0xC000_0000);
    assert_eq!(s.phase_pct, 300);
    assert_eq!(r.processed, 3 * SDRAM_WORDS as u64);
}

#[test]
fn waiting_ends_with_a_terminal_or_without() {
    let mut w = Waiting::new();
    let t = w.turn(false);
    assert!(!t.over && t.led == Some(false));
    let t = w.turn(true);
    assert!(t.over && t.connected);
    let mut w = Waiting { waited: 60_000_000, dtr_prev: false };
    assert!(w.turn(false).over);
}

#[test]
fn size_reports_are_heeded() {
    let mut t = Terminal::panel();
    assert_eq!((t.cols, t.rows), (80, 24));
    let a = t.on_input(Some((100, 50)), true);
    assert!(a.resize && a.clear);
    let a = t.on_input(Some((0, 50)), true);
    assert!(!a.resize && !a.clear);
    let a = t.on_input(Some((100, 50)), false);
    assert!(!a.resize && !a.clear);
    assert_eq!(Terminal::memory_test().rows, 28);
    assert!(attached(true, false) && !attached(true, true));
}

#[test]
fn output_drains_in_order() {
    let mut pending = vec![1, 2, 3, 4, 5];
    drain_to(&mut pending, None);
    assert_eq!(pending.len(), 5);
    drain_to(&mut pending, Some(2));
    assert_eq!(pending, [3, 4, 5]);
    drain_to(&mut pending, Some(9));
    assert!(!output_pending(&pending));
}

#[test]
fn panel_is_paced_by_the_counter() {
    let mut p = Pacer::new(400_000_000, 0);
    assert!(!p.sample_due(399_999));
    assert!(p.sample_due(400_000));
    assert!(!p.sample_due(400_001));
    assert!(!p.frame_due(20_000_000, true));
    assert!(p.frame_due(20_000_000, false));
}

#[test]
fn numbers_are_written() {
    let mut s = String::new();
    push_decimal(&mut s, 0);
    push_decimal(&mut s, 1_234_567_890);
    push_hex8(&mut s, 0xAB, true);
    assert_eq!(s, "01234567890000000AB");
    assert_eq!(number_text(7, 10, false, 2, true), "07");
    assert_eq!(number_text(7, 10, false, 3, false), "  7");
    assert_eq!(number_text(u64::MAX, 16, false, 1, true), "ffffffffffffffff");
}
