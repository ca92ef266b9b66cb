use daisy_rs::boot_check::{is_plausible_image, is_valid_reset, is_valid_sram};

#[test]
fn erased_flash_is_not_valid_msp() {
    // 0xFFFF_FFFF is what a freshly-erased NOR flash reads as.
    assert!(!is_valid_sram(0xFFFF_FFFF));
}

#[test]
fn zero_is_not_valid_msp() {
    // Uninitialised or intentionally-cleared image.
    assert!(!is_valid_sram(0));
}

#[test]
fn top_of_dtcm_is_valid_msp() {
    // 128 KiB of DTCM → MSP points one past the top (inclusive of the boundary).
    assert!(is_valid_sram(0x2002_0000));
}

#[test]
fn middle_of_axi_is_valid_msp() {
    // Common linker choice: stack near the top of AXI SRAM.
    assert!(is_valid_sram(0x2404_0000));
}

#[test]
fn just_past_axi_is_rejected() {
    // One word past the top of the 512 KiB region.
    assert!(!is_valid_sram(0x2408_0004));
}

#[test]
fn peripheral_address_is_rejected() {
    // Peripheral base — obviously wrong for a stack pointer.
    assert!(!is_valid_sram(0x4000_0000));
}

#[test]
fn qspi_window_is_not_ram() {
    // Reset vector may live here, but MSP never should.
    assert!(!is_valid_sram(0x9000_0000));
}

// Reset-vector acceptance --------------------------------------------

#[test]
fn erased_flash_is_not_valid_reset() {
    assert!(!is_valid_reset(0xFFFF_FFFF));
}

#[test]
fn reset_without_thumb_bit_is_rejected() {
    // Even bytes → CPU would fault; ARMv7-M requires bit 0 set.
    assert!(!is_valid_reset(0x9000_0100));
}

#[test]
fn reset_with_thumb_bit_in_qspi_is_accepted() {
    // Typical: reset handler a few hundred bytes into the app image.
    assert!(is_valid_reset(0x9000_0101));
}

#[test]
fn reset_at_qspi_base_edge_is_accepted() {
    // First byte of the reset vector = base + 1 for Thumb.
    assert!(is_valid_reset(0x9000_0001));
}

#[test]
fn reset_outside_qspi_window_is_rejected() {
    // Just past 8 MiB — outside our accepted window.
    assert!(!is_valid_reset(0x9080_0001));
}

#[test]
fn reset_in_internal_flash_is_rejected() {
    // Bootloader's own range — an app image should not point here.
    assert!(!is_valid_reset(0x0800_0101));
}

// Combined -----------------------------------------------------------

#[test]
fn erased_qspi_fails_combined_check() {
    assert!(!is_plausible_image(0xFFFF_FFFF, 0xFFFF_FFFF));
}

#[test]
fn well_formed_image_passes() {
    assert!(is_plausible_image(0x2404_0000, 0x9000_0101));
}

#[test]
fn valid_msp_bad_reset_fails() {
    assert!(!is_plausible_image(0x2404_0000, 0xDEAD_BEEF));
}

#[test]
fn valid_reset_bad_msp_fails() {
    assert!(!is_plausible_image(0xDEAD_BEEF, 0x9000_0101));
}

#[test]
fn d2_sram_ends_after_288_kib() {
    assert!(is_valid_sram(0x3000_0000));
    assert!(is_valid_sram(0x3004_8000));
    assert!(!is_valid_sram(0x3004_8004));
}
