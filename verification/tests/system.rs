use daisy_rs::board::{heartbeat, led_output, led_set, user_led};
use daisy_rs::boot::flow::{
    boot_path, delay_ms, delay_us, indicator_change, needs_axi_sram_fix, pulse_pattern,
    service_indicator, stage_pulses, window_open, window_turn, BootPath, Delay, LedStep, UsbState,
    WindowNext,
};
use daisy_rs::clocks::{handoff_present, init, restore, stash};
use daisy_rs::coherency::{before_reread, marker, second_phase, start, Marker};
use daisy_rs::golden::{compare, deinterleave, lag_range, read_words, Comparison};
use daisy_rs::mmio::MmioOp;
use daisy_rs::reset::{reboot_to_bootloader, take_dfu_request, DFU_REQUEST_MAGIC};
use daisy_rs::startup::{
    arrival_pattern, configure_mpu, enable_dwt, enable_memfault, enables_dcache,
    hard_fault_pulses, led_pattern, memory_fault_pulses, mpu_region, panic_path, running_pattern,
    Failing, MemoryMap, Region,
};

#[test]
fn application_starts_after_the_window() {
    assert_eq!(boot_path(false, 0x2404_0000, 0x9000_0101), BootPath::Window);
    assert_eq!(boot_path(true, 0x2404_0000, 0x9000_0101), BootPath::Service);
    assert_eq!(boot_path(false, 0xFFFF_FFFF, 0xFFFF_FFFF), BootPath::Service);
    assert_eq!(window_turn(0, false), WindowNext::Poll);
    assert_eq!(window_turn(3_199_999_999, true), WindowNext::Service);
    assert_eq!(window_turn(3_200_000_000, true), WindowNext::Start);
    assert_eq!(window_open(100_000_000), Some(false));
    assert_eq!(window_open(3_200_000_000), None);
}

#[test]
fn service_indicator_shows_the_bus() {
    assert!(service_indicator(UsbState::Default, 199_999_999));
    assert!(!service_indicator(UsbState::Default, 200_000_000));
    assert!(!service_indicator(UsbState::Configured, 40_000_000));
    assert!(service_indicator(UsbState::Suspend, 123_456_789));
    assert_eq!(indicator_change(true, false), Some(true));
    assert_eq!(indicator_change(true, true), None);
}

#[test]
fn delays_end_even_if_the_counter_stalls() {
    assert_eq!(delay_ms(3, 400_000_000), 1_200_000);
    assert_eq!(delay_us(3, 400_000_000), 1_200);
    assert_eq!(delay_ms(u32::MAX, 400_000_000), u32::MAX);
    let mut d = Delay::delay_cycles(4096, 7);
    assert!(!d.look(7));
    assert!(d.look(7 + 4096));
    let mut d = Delay::delay_cycles(4096, 7);
    let looks = (1..).find(|_| d.look(7)).unwrap();
    assert_eq!(looks, (1 + 64) * 3 + 1);
}

#[test]
fn patterns_are_pulses_and_a_gap() {
    let p = pulse_pattern(2, 10, 20, 30);
    let lit = LedStep { on: true, ms: 10 };
    let dark = LedStep { on: false, ms: 20 };
    assert_eq!(p, [lit, dark, lit, dark, LedStep { on: false, ms: 30 }]);
    assert_eq!(stage_pulses(3).len(), 7);
    assert!(needs_axi_sram_fix(0x1003_6450));
    assert!(!needs_axi_sram_fix(0x2003_6450));
}

#[test]
fn request_for_dfu_is_consumed() {
    let ops = reboot_to_bootloader();
    let left = ops.iter().find_map(|o| match o {
        MmioOp::Write { addr: 0x3880_0FFC, value } => Some(*value),
        _ => None,
    });
    assert_eq!(left, Some(DFU_REQUEST_MAGIC));
    assert_eq!(take_dfu_request(DFU_REQUEST_MAGIC), (true, Some(0)));
    assert_eq!(take_dfu_request(0), (false, None));
}

#[test]
fn clocks_are_handed_over() {
    let plan = init();
    assert_eq!(plan.sys_ck, 400_000_000);
    assert_eq!((plan.pll2_p, plan.pll2_r, plan.pll3_p), (40_000_000, 200_000_000, 49_152_000));
    let record = stash([1u32, 2, 3], plan.sys_ck);
    assert!(handoff_present(record.magic));
    assert_eq!(restore(&record, 400_000_000), Some([1, 2, 3]));
    assert_eq!(restore(&record, 480_000_000), None);
    let mut bad = record;
    bad.magic ^= 1;
    assert_eq!(restore(&bad, 400_000_000), None);
}

#[test]
fn faults_are_decoded_in_order() {
    assert_eq!(hard_fault_pulses(1 << 10 | 1 << 9), 4);
    assert_eq!(hard_fault_pulses(1 << 9), 3);
    assert_eq!(hard_fault_pulses(1 << 8), 2);
    assert_eq!(hard_fault_pulses(1 << 12), 1);
    assert_eq!(hard_fault_pulses(0), 5);
    assert_eq!(memory_fault_pulses(0x80 | 1), 4);
    assert_eq!(memory_fault_pulses(1 << 4), 3);
    assert_eq!(memory_fault_pulses(1 << 3), 3);
    assert_eq!(memory_fault_pulses(3), 2);
    assert_eq!(memory_fault_pulses(1), 1);
    assert_eq!(memory_fault_pulses(0x100), 5);
    assert_eq!(led_pattern(Failing::HardFault { cfsr: 1 << 9 }).len(), 7);
    assert_eq!(led_pattern(Failing::MemoryManagement { cfsr: 1 })[0].ms, 250);
    assert_eq!(led_pattern(Failing::Panic)[6], LedStep { on: false, ms: 1000 });
}

#[test]
fn memory_regions_are_programmed() {
    let r = Region { base: 0xC000_0000, log2_bytes: 26, tex: 0, s: false, c: true, b: true, xn: false };
    // ENABLE | SIZE=25 | B | C | AP=full.
    let rasr = 1 | 25 << 1 | 1 << 16 | 1 << 17 | 3 << 24;
    assert_eq!(mpu_region(1, r)[2], MmioOp::Write { addr: 0xE000_EDA0, value: rasr });
    let ops = configure_mpu(MemoryMap::SdramUncached);
    assert_eq!(ops[0], MmioOp::Write { addr: 0xE000_ED94, value: 0 });
    assert_eq!(ops[ops.len() - 3], MmioOp::Write { addr: 0xE000_ED94, value: 5 });
    let uncached = 1 | 25 << 1 | 1 << 18 | 1 << 19 | 3 << 24;
    assert!(ops.contains(&MmioOp::Write { addr: 0xE000_EDA0, value: uncached }));
    assert_eq!(configure_mpu(MemoryMap::DefaultFlash).len(), 6 + 9);
    assert!(!enables_dcache(MemoryMap::DefaultFlash));
    assert!(enables_dcache(MemoryMap::Cached));
    assert_eq!(enable_memfault(), MmioOp::Modify { addr: 0xE000_ED24, clear: 0, set: 1 << 16 });
    assert_eq!(enable_dwt()[1], MmioOp::Modify { addr: 0xE000_1000, clear: 0, set: 1 });
}

#[test]
fn panic_record_holds_the_path() {
    let p = panic_path(b"src/main.rs");
    assert_eq!(&p[..11], b"src/main.rs");
    assert!(p[11..].iter().all(|&b| b == 0));
    let long = [b'x'; 60];
    assert_eq!(panic_path(&long), [b'x'; 48]);
}

#[test]
fn template_pattern_starts_with_a_second_of_light() {
    assert_eq!(running_pattern()[0], LedStep { on: true, ms: 1000 });
    assert_eq!(running_pattern().len(), 11);
    assert_eq!(running_pattern()[10], LedStep { on: false, ms: 1000 });
    assert_eq!(arrival_pattern()[9], LedStep { on: false, ms: 500 });
}

#[test]
fn indicator_pin() {
    assert_eq!((user_led().port, user_led().pin), ('C', 7));
    assert_eq!(led_output(0xFFFF_FFFF), 0xFFFF_7FFF);
    assert_eq!(led_output(led_output(0)), 1 << 14);
    assert_eq!((led_set(true), led_set(false)), (1 << 7, 1 << 23));
    assert_eq!(heartbeat(0x7_FFFF), (0x8_0000, true));
    assert_eq!(heartbeat(u32::MAX), (0, false));
}

#[test]
fn cache_maintenance_is_optional() {
    assert_eq!(start().len(), 11);
    assert!(before_reread(0).is_empty());
    assert_eq!(before_reread(1)[0], MmioOp::Write { addr: 0xE000_EF5C, value: 0x3000_0000 });
    assert_eq!(second_phase(9, 0).len() + 2, second_phase(9, 1).len());
    assert_eq!(second_phase(9, 0)[0], MmioOp::Write { addr: marker(Marker::Result), value: 9 });
    assert_eq!(marker(Marker::Done2), 0x2001_F020);
}

#[test]
fn golden_blobs_are_little_endian() {
    assert_eq!(read_words(&[0, 0, 0x80, 0x3F, 1, 2, 3, 4]), Some(vec![0x3F80_0000, 0x0403_0201]));
    assert_eq!(read_words(&[0; 5]), None);
    assert_eq!(deinterleave(&[1, 2, 3, 4, 5]), (vec![1, 3], vec![2, 4]));
    assert_eq!(lag_range(10, 3), (0, 7));
    assert_eq!(lag_range(10, -3), (3, 10));
}

#[test]
fn comparisons_check_length_first() {
    assert_eq!(compare(1, 2, None, None), Comparison::LengthMismatch);
    assert_eq!(compare(2, 2, None, None), Comparison::NoTolerance);
    assert_eq!(compare(2, 2, Some(false), Some(false)), Comparison::TooFarOff);
    assert_eq!(compare(2, 2, Some(true), Some(false)), Comparison::TooNoisy);
    assert_eq!(compare(2, 2, Some(true), None), Comparison::Pass);
}
