use daisy_rs::cli::build_args::{
    artifact_path, firmware_args, profile_dir, workspace_args, Args as BuildArgs,
};
use daisy_rs::cli::check::{any_failed, failure, verdict};
use daisy_rs::cli::device::{first_dfu, is_dfu, list_lines, no_device, DfuDevice};
use daisy_rs::cli::elf::{elf_to_bin, place_segments, ElfError, Segment};
use daisy_rs::cli::flash::{
    check_address, default_package, flashing_line, parse_hex_u32, plan, source, startup_gate,
    startup_refusal, target_address, Args as FlashArgs, Refusal, Source,
};
use daisy_rs::cli::monitor::{run as run_monitor, Args as MonitorArgs, Via};
use daisy_rs::cli::new::{run as run_new, Args as NewArgs};
use daisy_rs::cli::symbols::{
    check_startup_ram_invariant, collect_symbols, read_symbols, region_of, Symbols,
};

#[test]
fn parses_bare_hex() {
    assert_eq!(parse_hex_u32("9000_0000").ok(), None); // underscores rejected by u32::from_str_radix
    assert_eq!(parse_hex_u32("90000000"), Ok(0x9000_0000));
}

#[test]
fn parses_0x_prefix() {
    assert_eq!(parse_hex_u32("0x08000000"), Ok(0x0800_0000));
    assert_eq!(parse_hex_u32("0X08000000"), Ok(0x0800_0000));
}

#[test]
fn rejects_non_hex() {
    assert!(parse_hex_u32("xyz").is_err());
    assert!(parse_hex_u32("").is_err());
}

fn syms(pairs: &[(&str, u64)]) -> Symbols {
    let mut s = Symbols::new();
    for &(n, a) in pairs {
        s.insert(n, a);
    }
    s
}

#[test]
fn contiguous_dtcm_layout_passes() {
    // Healthy XIP app: everything inside DTCM.
    let s = syms(&[
        ("__sdata", 0x2000_0000),
        ("__edata", 0x2000_05c4),
        ("__sbss", 0x2000_05c4),
        ("__ebss", 0x2000_2794),
        ("__sheap", 0x2000_2794),
        ("_stack_end", 0x2000_2794),
        ("_stack_start", 0x2002_0000), // one-past-DTCM-top, inclusive
    ]);
    assert!(check_startup_ram_invariant(&s).is_ok());
}

#[test]
fn ebss_dragged_into_d2_is_rejected() {
    // The exact `.sram_d2 INSERT AFTER .bss` bug: __ebss pushed to D2 SRAM.
    let s = syms(&[
        ("__sbss", 0x2000_05c4), // DTCM
        ("__ebss", 0x3000_0600), // D2 SRAM — .bss zero crosses the gap
    ]);
    let errs = check_startup_ram_invariant(&s).unwrap_err();
    assert!(errs
        .iter()
        .any(|e| e.contains(".bss zero") && e.contains("DIFFERENT")));
}

#[test]
fn symbol_in_a_hole_is_rejected() {
    let s = syms(&[("_stack_start", 0x2200_0000)]); // in the DTCM→AXI gap
    assert!(check_startup_ram_invariant(&s).is_err());
}

// A 32-bit little-endian ELF file with the given load segments and symbols.
fn elf32(segments: &[(u32, u32, &[u8])], symbols: &[(&str, u32)]) -> Vec<u8> {
    let half = |v: u16| v.to_le_bytes().to_vec();
    let word = |v: u32| v.to_le_bytes().to_vec();
    let phoff = 52usize;
    let mut at = phoff + 32 * segments.len();
    let mut phdrs = Vec::new();
    let mut data = Vec::new();
    for (kind, paddr, bytes) in segments {
        for v in [*kind, at as u32, *paddr, *paddr, bytes.len() as u32, bytes.len() as u32, 5, 4] {
            phdrs.extend(word(v));
        }
        data.extend_from_slice(bytes);
        at += bytes.len();
    }
    let mut strtab = vec![0u8];
    let mut symtab = vec![0u8; 16];
    for (name, value) in symbols {
        symtab.extend(word(strtab.len() as u32));
        symtab.extend(word(*value));
        symtab.extend(word(0));
        symtab.extend([0x10, 0]);
        symtab.extend(half(1));
        strtab.extend(name.as_bytes());
        strtab.push(0);
    }
    let symoff = at;
    let stroff = symoff + symtab.len();
    let shoff = stroff + strtab.len();
    let mut f = vec![0x7F, b'E', b'L', b'F', 1, 1, 1, 0, 0, 0, 0, 0, 0, 0, 0, 0];
    f.extend(half(2));
    f.extend(half(40));
    f.extend(word(1));
    f.extend(word(0));
    f.extend(word(phoff as u32));
    f.extend(word(shoff as u32));
    f.extend(word(0));
    for v in [52u16, 32, segments.len() as u16, 40, 3, 2] {
        f.extend(half(v));
    }
    f.extend(phdrs);
    f.extend(data);
    f.extend(&symtab);
    f.extend(&strtab);
    let sections: [[u32; 10]; 3] = [
        [0; 10],
        [0, 2, 0, 0, symoff as u32, symtab.len() as u32, 2, 1, 4, 16],
        [0, 3, 0, 0, stroff as u32, strtab.len() as u32, 0, 0, 1, 0],
    ];
    for s in sections {
        for v in s {
            f.extend(word(v));
        }
    }
    f
}

#[test]
fn image_spans_all_segments_with_erased_gaps() {
    let f = elf32(&[(1, 0x9000_0010, b"tail"), (1, 0x9000_0000, b"head"), (2, 0, b"note")], &[]);
    let (base, image) = elf_to_bin(&f).unwrap();
    assert_eq!(base, 0x9000_0000);
    assert_eq!(image.len(), 20);
    assert_eq!(&image[..4], b"head");
    assert!(image[4..16].iter().all(|&b| b == 0xFF));
    assert_eq!(&image[16..], b"tail");
}

#[test]
fn files_without_an_image_are_refused() {
    assert_eq!(elf_to_bin(b"not an object file"), Err(ElfError::Parse));
    assert_eq!(elf_to_bin(&elf32(&[], &[])), Err(ElfError::NoLoadableSegments));
    assert_eq!(elf_to_bin(&elf32(&[(1, 0x9000_0000, b"")], &[])), Err(ElfError::NoLoadableSegments));
    assert_eq!(elf_to_bin(&elf32(&[(1, 0xFFFF_FFFE, b"wrap")], &[])), Err(ElfError::AddressOverflow));
    let cut = vec![Segment { kind: 1, paddr: 0, filesz: 4, data: None }];
    assert_eq!(place_segments(&cut), Err(ElfError::SegmentData));
}

#[test]
fn symbols_are_read_from_the_file() {
    let f = elf32(&[], &[("__sbss", 0x2000_05C4), ("__ebss", 0x3000_0600), ("main", 0x9000_0101)]);
    let s = read_symbols(&f).unwrap();
    assert_eq!(s.get("__sbss"), Some(0x2000_05C4));
    assert_eq!(s.get("main"), Some(0x9000_0101));
    assert_eq!(s.get("missing"), None);
    assert!(check_startup_ram_invariant(&s).is_err());
    assert!(read_symbols(b"junk").is_err());
    assert_eq!(collect_symbols(&Vec::new()).get("main"), None);
}

#[test]
fn later_symbols_of_a_name_count() {
    let s = syms(&[("__sheap", 1), ("__sheap", 2)]);
    assert_eq!(s.get("__sheap"), Some(2));
}

#[test]
fn regions_are_told_apart() {
    let dtcm = region_of(0x2000_0000);
    assert!(dtcm.is_some());
    assert_eq!(dtcm, region_of(0x2002_0000));
    assert_ne!(dtcm, region_of(0x2400_0000));
    assert_eq!(region_of(0x2200_0000), None);
}

#[test]
fn hex_limits() {
    assert_eq!(parse_hex_u32("FFFFFFFF"), Ok(u32::MAX));
    assert!(parse_hex_u32("100000000").is_err());
    assert_eq!(parse_hex_u32("+1f"), Ok(0x1F));
}

fn flash_args() -> FlashArgs {
    FlashArgs {
        package: None,
        bootloader: false,
        elf: None,
        address: None,
        profile: "release".to_string(),
        features: Vec::new(),
        no_check: false,
    }
}

#[test]
fn flash_picks_its_source_and_address() {
    let mut a = flash_args();
    assert_eq!(default_package(true), "daisy-boot");
    match source(&a) {
        Source::Package { name } => assert_eq!(name, "daisy-app-template"),
        _ => panic!("expected a package"),
    }
    a.elf = Some("x.elf".to_string());
    match source(&a) {
        Source::File { path } => assert_eq!(path, "x.elf"),
        _ => panic!("expected a file"),
    }
    assert_eq!(target_address(&a, 0x9000_0000), 0x9000_0000);
    a.address = Some(0x9000_1000);
    assert_eq!(target_address(&a, 0x9000_0000), 0x9000_1000);
}

#[test]
fn flash_refuses_mixed_up_addresses() {
    assert!(check_address(true, false, 0x0800_0000).is_ok());
    assert_eq!(
        check_address(true, true, 0x9000_0000),
        Err("--bootloader was set but image is linked for 0x90000000. Bootloaders must live in internal flash (0x0800_0000..).".to_string())
    );
    assert!(check_address(false, false, 0x9000_0000).is_ok());
    assert!(check_address(false, false, 0x0800_0000).is_err());
    assert!(check_address(false, true, 0x0800_0000).is_ok());
    assert_eq!(
        flashing_line(1234, 0x9000_0000, "app.elf"),
        "Flashing 1234 bytes @ 0x90000000 from app.elf"
    );
}

#[test]
fn startup_gate_can_be_skipped() {
    let bad = Some(syms(&[("_stack_start", 0x2200_0000)]));
    assert_eq!(startup_gate(false, &bad).unwrap_err().len(), 1);
    assert!(startup_gate(true, &bad).is_ok());
    assert!(startup_gate(false, &None).is_ok());
    assert!(startup_refusal(1).ends_with("(1 issue(s)). Pass --no-check to override."));
}

#[test]
fn flash_plan_checks_start_up_then_image_then_address() {
    let mut a = flash_args();
    let good = elf32(&[(1, 0x9000_0000, b"app")], &[("_stack_start", 0x2002_0000)]);
    assert_eq!(plan(&a, &good).unwrap(), (0x9000_0000, b"app".to_vec()));
    a.address = Some(0x9000_1000);
    assert_eq!(plan(&a, &good).unwrap(), (0x9000_1000, b"app".to_vec()));
    a.address = None;

    // Bad start-up symbols come first, even in a file with nothing to load.
    let stray = elf32(&[], &[("_stack_start", 0x2200_0000)]);
    let e = plan(&a, &stray).unwrap_err();
    assert!(matches!(&e, Refusal::Startup { issues } if issues.len() == 1));
    assert_eq!(e.message(), startup_refusal(1));
    a.no_check = true;
    let e = plan(&a, &stray).unwrap_err();
    assert!(matches!(e, Refusal::Image { error: ElfError::NoLoadableSegments }));
    a.no_check = false;
    let e = plan(&a, b"not an object file").unwrap_err();
    assert!(matches!(e, Refusal::Image { error: ElfError::Parse }));
    assert_eq!(e.message(), "parse ELF header");

    let boot = elf32(&[(1, 0x0800_0000, b"boot")], &[]);
    let e = plan(&a, &boot).unwrap_err();
    assert!(matches!(&e, Refusal::Address { address: 0x0800_0000, bytes: 4, .. }));
    assert_eq!(Err(e.message()), check_address(false, false, 0x0800_0000));
    a.bootloader = true;
    assert_eq!(plan(&a, &boot).unwrap(), (0x0800_0000, b"boot".to_vec()));
}

#[test]
fn regions_end_with_their_memory() {
    assert_eq!(region_of(0x3004_8000), Some(2));
    assert_eq!(region_of(0x3004_8004), None);
}

#[test]
fn check_reports_every_violation() {
    let good = verdict("a.elf", &syms(&[("_stack_start", 0x2002_0000)]));
    assert!(good.ok);
    assert_eq!(good.headline, "\u{2713} a.elf \u{2014} startup RAM invariant OK");
    let bad = verdict("b.elf", &syms(&[("_stack_start", 0x2200_0000)]));
    assert!(!bad.ok);
    assert_eq!(bad.details.len(), 1);
    assert_eq!(
        bad.details[0],
        "    - _stack_start=0x22000000 is not in any valid on-chip RAM region"
    );
    assert!(any_failed(&vec![good, bad]));
    assert!(!any_failed(&Vec::new()));
    assert_eq!(failure(), "startup RAM invariant check failed (see above)");
}

#[test]
fn build_arguments() {
    let a = BuildArgs {
        package: Some("daisy-boot".to_string()),
        profile: "dev".to_string(),
        features: vec!["a".to_string(), "b".to_string()],
    };
    assert_eq!(
        workspace_args(&a),
        [
            "build",
            "--target",
            "thumbv7em-none-eabihf",
            "--profile",
            "dev",
            "--features",
            "a,b",
            "-p",
            "daisy-boot"
        ]
    );
    assert_eq!(firmware_args("x", "release", &Vec::new()).last().unwrap(), "x");
    assert_eq!(profile_dir("dev"), "debug");
    assert_eq!(artifact_path("x", "release"), "target/thumbv7em-none-eabihf/release/x");
}

#[test]
fn devices_are_listed() {
    assert!(is_dfu(0x0483, 0xDF11));
    assert!(!is_dfu(0x0483, 0xDF12));
    assert_eq!(first_dfu(&vec![(1, 2), (0x0483, 0xDF11), (0x0483, 0xDF11)]), Some(1));
    assert_eq!(first_dfu(&vec![(1, 2)]), None);
    assert!(no_device().starts_with("no STM32 DFU device found"));
    assert_eq!(list_lines(&Vec::new()).len(), 2);
    let d = DfuDevice { bus: "1".to_string(), address: 7, serial: None };
    assert_eq!(list_lines(&vec![d])[1], "  [0] bus 1, address 7  serial=<none>");
}

#[test]
fn commands_that_are_not_there_say_so() {
    assert!(run_new(NewArgs { path: "x".to_string() }).is_err());
    assert!(run_monitor(MonitorArgs { via: Via::Serial }).is_err());
}
