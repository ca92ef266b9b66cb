use daisy_rs::mmio::MmioOp;
use daisy_rs::sdram::{configure_af12, init, seed, BASE_ADDRESS, SIZE_BYTES};

#[test]
fn seed_sdcr1_matches_libdaisy() {
    // 9 col / 13 row / 32-bit / 4 banks / CAS3 / SDCLK÷2 / RBURST.
    assert_eq!(seed().sdcr1(), 0x0000_19E9);
}

#[test]
fn seed_sdtr1_is_datasheet_compliant() {
    // Fields (cycles-1): TMRD1 TXSR6 TRAS4 TRC7 TWR2 TRP15 TRCD9.
    // Differs from libDaisy's 0x09F2_7361 only in TRAS (4 vs 3), the
    // fix for the 42 ns tRAS minimum.
    assert_eq!(seed().sdtr1(), 0x09F2_7461);
}

#[test]
fn seed_tras_meets_datasheet_minimum() {
    // tRAS(min) = 42 ns; at SDCLK 100 MHz (10 ns) that needs ≥ 5 cycles.
    assert!(seed().t_ras >= 5, "TRAS under datasheet minimum (42 ns)");
}

#[test]
fn seed_mode_register_matches_libdaisy() {
    assert_eq!(seed().mode_register(), 0x232);
    assert_eq!(seed().sdcmr_mrd(), 0x232 << 9);
}

#[test]
fn seed_refresh_count_is_datasheet_compliant() {
    // COUNT = rows_refresh_interval_cycles - 20, per RM0433 §22.
    assert_eq!(seed().refresh_count, 0x2F9);
    assert_eq!(seed().sdrtr(), 0x0000_05F2);
}

#[test]
fn seed_refresh_is_frequent_enough() {
    // The device needs all 8192 rows refreshed within 64 ms. At
    // SDCLK = 100 MHz the per-row budget is 64ms/8192 = 781.25 cycles;
    // the FMC issues a refresh every (COUNT + 20) cycles, which must
    // not exceed that budget. libDaisy's 0x806 (2054) fails this.
    const ROWS: u64 = 8192;
    const SDCLK_HZ: u64 = 100_000_000;
    const REFRESH_PERIOD_NS: u64 = 64_000_000;
    let per_row_cycles = REFRESH_PERIOD_NS * SDCLK_HZ / (ROWS * 1_000_000_000);
    let actual_interval = seed().refresh_count as u64 + 20;
    assert!(
        actual_interval <= per_row_cycles,
        "refresh interval {actual_interval} cycles exceeds per-row budget {per_row_cycles}"
    );
}

#[test]
fn seed_geometry() {
    assert_eq!(BASE_ADDRESS, 0xC000_0000);
    assert_eq!(SIZE_BYTES, 0x0400_0000); // 64 MiB
                                         // 16M addresses × 4 bytes = 64 MiB.
    let addresses = 1u64 << (seed().row_bits + seed().column_bits + 2/*bank bits*/);
    assert_eq!(addresses * (seed().data_width as u64 / 8), SIZE_BYTES as u64);
}

#[test]
fn power_up_sequence_is_in_order() {
    let ops = init();
    // The clock is selected before the controller is enabled, and refresh starts
    // last.
    assert!(ops.iter().any(|o| matches!(o, MmioOp::DelayUs { .. })));
    let sdcr = MmioOp::Write { addr: 0x5200_4140, value: seed().sdcr1() };
    let sdtr = MmioOp::Write { addr: 0x5200_4148, value: seed().sdtr1() };
    let at = |op: MmioOp| ops.iter().position(|o| *o == op);
    assert!(at(sdcr).unwrap() < at(sdtr).unwrap());
    assert_eq!(
        *ops.iter().rev().find(|o| matches!(o, MmioOp::Write { .. })).unwrap(),
        MmioOp::Write { addr: 0x5200_4154, value: seed().sdrtr() }
    );
}

#[test]
fn pins_are_configured_port_by_port() {
    assert!(configure_af12(0, 0).is_empty());
    let ops = configure_af12(3, 1 << 14);
    assert_eq!(ops.len(), 4);
    assert_eq!(
        ops[3],
        MmioOp::Modify { addr: 0x5802_0C24, clear: 0xF << 24, set: 12 << 24 }
    );
    for op in &ops {
        match op {
            MmioOp::Modify { addr, .. } => assert_eq!(addr & 0xFFFF_FC00, 0x5802_0C00),
            other => panic!("unexpected {other:?}"),
        }
    }
}
