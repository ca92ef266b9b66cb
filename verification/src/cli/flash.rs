//! `daisy flash`: what to flash, where to, and when to refuse.
use super::elf;
use super::elf::{elf_to_bin, ElfError};
use super::symbols;
use super::symbols::{check_startup_ram_invariant, read_symbols, Symbols};
use crate::text;
use crate::text::{owned, push_decimal, push_hex8};
use vstd::prelude::*;

verus! {

/// Arguments of the command.
#[derive(Debug)]
pub struct Args {
    /// Package to build and flash.
    pub package: Option<String>,
    /// Flash the bootloader to internal flash instead of the application to
    /// QSPI.
    pub bootloader: bool,
    /// Flash this ELF file; skip the build.
    pub elf: Option<String>,
    /// Override the base address.
    pub address: Option<u32>,
    /// Build profile.
    pub profile: String,
    /// Features to enable when building.
    pub features: Vec<String>,
    /// Skip the start-up RAM check.
    pub no_check: bool,
}

// ---------------------------------------------------------------------------
// Addresses on the command line
// ---------------------------------------------------------------------------

/// Why a string is no hexadecimal number of 32 bits.
#[derive(Debug, Clone, Copy, PartialEq, Eq, Structural)]
pub enum HexError {
    Empty,
    InvalidDigit,
    PosOverflow,
}

/// `s` without any run of `0` and `x` at its front.
pub open spec fn without_prefix(s: Seq<char>, x: char) -> Seq<char>
    decreases s.len(),
{
    if s.len() >= 2 && s[0] == '0' && s[1] == x {
        without_prefix(s.skip(2), x)
    } else {
        s
    }
}

/// The value of a hexadecimal digit.
pub open spec fn hex_digit(c: char) -> Option<int> {
    if '0' <= c <= '9' {
        Some(c as int - 48)
    } else if 'a' <= c <= 'f' {
        Some(c as int - 87)
    } else if 'A' <= c <= 'F' {
        Some(c as int - 55)
    } else {
        None
    }
}

/// The value of `acc` followed by the digits of `s`, or the first thing wrong.
pub open spec fn hex_value(acc: int, s: Seq<char>) -> Result<int, HexError>
    decreases s.len(),
{
    if s.len() == 0 {
        Ok(acc)
    } else {
        match hex_digit(s[0]) {
            None => Err(HexError::InvalidDigit),
            Some(d) => if acc * 16 + d > u32::MAX {
                Err(HexError::PosOverflow)
            } else {
                hex_value(acc * 16 + d, s.skip(1))
            },
        }
    }
}

/// The value of a whole numeral: an optional plus sign, then digits.
pub open spec fn hex_numeral(s: Seq<char>) -> Result<int, HexError> {
    if s.len() == 0 {
        Err(HexError::Empty)
    } else if s[0] == '+' && s.len() > 1 {
        hex_value(0, s.skip(1))
    } else {
        hex_value(0, s)
    }
}

/// Text of an error.
pub open spec fn hex_error_text(e: HexError) -> Seq<char> {
    match e {
        HexError::Empty => "cannot parse integer from empty string"@,
        HexError::InvalidDigit => "invalid digit found in string"@,
        HexError::PosOverflow => "number too large to fit in target type"@,
    }
}

/// The digits left of `s` once the prefixes are gone.
pub open spec fn hex_body(s: Seq<char>) -> Seq<char> {
    without_prefix(without_prefix(s, 'x'), 'X')
}

fn hex_digit_value(c: char) -> (r: Option<u32>)
    ensures
        r matches Some(d) ==> hex_digit(c) == Some(d as int) && d < 16,
        r is None <==> hex_digit(c) is None,
{
    if '0' <= c && c <= '9' {
        Some(c as u32 - 48)
    } else if 'a' <= c && c <= 'f' {
        Some(c as u32 - 87)
    } else if 'A' <= c && c <= 'F' {
        Some(c as u32 - 55)
    } else {
        None
    }
}

/// Characters of a prefix run.
fn prefix_length(s: &str, from: usize, x: char) -> (n: usize)
    requires
        from <= s@.len(),
    ensures
        from <= n <= s@.len(),
        without_prefix(s@.skip(from as int), x) == s@.skip(n as int),
{
    let len = s.unicode_len();
    let mut n: usize = from;
    while len - n >= 2 && s.get_char(n) == '0' && s.get_char(n + 1) == x
        invariant
            from <= n <= len,
            len == s@.len(),
            without_prefix(s@.skip(from as int), x) == without_prefix(s@.skip(n as int), x),
        decreases len - n,
    {
        assert(s@.skip(n as int).skip(2) =~= s@.skip(n + 2));
        n = n + 2;
    }
    n
}

fn hex_value_of(s: &str, from: usize) -> (r: Result<u32, HexError>)
    requires
        from <= s@.len(),
    ensures
        r matches Ok(v) ==> hex_value(0, s@.skip(from as int)) == Ok::<int, HexError>(v as int),
        r matches Err(e) ==> hex_value(0, s@.skip(from as int)) == Err::<int, HexError>(e),
{
    let len = s.unicode_len();
    let mut i: usize = from;
    let mut acc: u32 = 0;
    while i < len
        invariant
            from <= i <= len,
            len == s@.len(),
            hex_value(0, s@.skip(from as int)) == hex_value(acc as int, s@.skip(i as int)),
        decreases len - i,
    {
        assert(s@.skip(i as int).skip(1) =~= s@.skip(i + 1));
        match hex_digit_value(s.get_char(i)) {
            None => {
                return Err(HexError::InvalidDigit);
            },
            Some(d) => {
                let wide: u64 = acc as u64 * 16 + d as u64;
                if wide > u32::MAX as u64 {
                    return Err(HexError::PosOverflow);
                }
                acc = wide as u32;
            },
        }
        i = i + 1;
    }
    Ok(acc)
}

/// Parses an address in hexadecimal, with or without `0x` in front.
pub fn parse_hex_u32(s: &str) -> (r: Result<u32, String>)
    ensures
        r is Ok <==> hex_numeral(hex_body(s@)) is Ok,
        r matches Ok(v) ==> hex_numeral(hex_body(s@)) == Ok::<int, HexError>(v as int),
        r matches Err(m) ==> m@ == "invalid hex address `"@ + hex_body(s@) + "`: "@
            + hex_error_text(hex_numeral(hex_body(s@))->Err_0),
{
    let len = s.unicode_len();
    assert(s@.skip(0) =~= s@);
    let first = prefix_length(s, 0, 'x');
    let from = prefix_length(s, first, 'X');
    let body = s.substring_char(from, len);
    assert(body@ =~= hex_body(s@)) by {
        assert(s@.subrange(from as int, len as int) =~= s@.skip(from as int));
    }
    let n: usize = len - from;
    assert(body@.skip(0) =~= body@);
    let parsed = if n == 0 {
        Err(HexError::Empty)
    } else if body.get_char(0) == '+' && n > 1 {
        hex_value_of(body, 1)
    } else {
        hex_value_of(body, 0)
    };
    match parsed {
        Ok(v) => Ok(v),
        Err(e) => {
            let mut m = owned("invalid hex address `");
            m.append(body);
            m.append("`: ");
            m.append(
                match e {
                    HexError::Empty => "cannot parse integer from empty string",
                    HexError::InvalidDigit => "invalid digit found in string",
                    HexError::PosOverflow => "number too large to fit in target type",
                },
            );
            assert(m@ =~= "invalid hex address `"@ + hex_body(s@) + "`: "@ + hex_error_text(e));
            Err(m)
        },
    }
}

// ---------------------------------------------------------------------------
// What to flash
// ---------------------------------------------------------------------------

/// The package that is built when none is named.
pub fn default_package(bootloader: bool) -> (s: &'static str)
    ensures
        s@ == if bootloader {
            "daisy-boot"@
        } else {
            "daisy-app-template"@
        },
{
    if bootloader {
        "daisy-boot"
    } else {
        "daisy-app-template"
    }
}

/// Where the image comes from.
pub enum Source {
    /// This ELF file.
    File { path: String },
    /// A package to be built.
    Package { name: String },
}

/// An ELF file if one is given, else the named or the default package.
pub fn source(args: &Args) -> (s: Source)
    ensures
        args.elf matches Some(p) ==> (s matches Source::File { path } && path@ == p@),
        args.elf is None ==> (s matches Source::Package { name } && name@ == match args.package {
            Some(p) => p@,
            None => if args.bootloader {
                "daisy-boot"@
            } else {
                "daisy-app-template"@
            },
        }),
{
    match &args.elf {
        Some(p) => Source::File { path: owned(p.as_str()) },
        None => Source::Package {
            name: match &args.package {
                Some(p) => owned(p.as_str()),
                None => owned(default_package(args.bootloader)),
            },
        },
    }
}

/// The start-up check before flashing: skipped on request, or if the symbols
/// cannot be read.
pub fn startup_gate(no_check: bool, symbols: &Option<Symbols>) -> (r: Result<(), Vec<String>>)
    ensures
        r is Ok <==> no_check || symbols is None || symbols::violations(symbols->0).len() == 0,
        r matches Err(errs) ==> symbols::texts(errs@) == symbols::violations(symbols->0),
{
    if no_check {
        return Ok(());
    }
    match symbols {
        None => Ok(()),
        Some(s) => check_startup_ram_invariant(s),
    }
}

/// Text of the refusal of an image with `issues` violations.
pub open spec fn startup_refusal_text(issues: int) -> Seq<char> {
    "refusing to flash: this image's startup RAM init would fault on unmapped memory before `main` ("@
        + text::decimal(issues) + " issue(s)). Pass --no-check to override."@
}

/// The refusal of an image with `issues` violations.
pub fn startup_refusal(issues: usize) -> (m: String)
    ensures
        m@ == startup_refusal_text(issues as int),
{
    let mut m = owned(
        "refusing to flash: this image's startup RAM init would fault on unmapped memory before `main` (",
    );
    push_decimal(&mut m, issues as u64);
    m.append(" issue(s)). Pass --no-check to override.");
    m
}

/// The address that the image is written to.
pub fn target_address(args: &Args, elf_base: u32) -> (a: u32)
    ensures
        a == match args.address {
            Some(x) => x,
            None => elf_base,
        },
{
    match args.address {
        Some(x) => x,
        None => elf_base,
    }
}

/// An address in internal flash.
pub open spec fn in_internal_flash(address: u32) -> bool {
    0x0800_0000 <= address <= 0x0801_FFFF
}

/// An address in the QSPI window.
pub open spec fn in_qspi(address: u32) -> bool {
    0x9000_0000 <= address <= 0x907F_FFFF
}

/// The refusal of an address, if it is refused: a bootloader belongs in internal
/// flash, and an application that was built here in QSPI.
pub open spec fn address_refusal(
    bootloader: bool,
    elf_supplied: bool,
    address: u32,
) -> Option<Seq<char>> {
    if bootloader && !in_internal_flash(address) {
        Some(
            "--bootloader was set but image is linked for 0x"@ + text::hex8(address as int, true)
                + ". Bootloaders must live in internal flash (0x0800_0000..)."@,
        )
    } else if !bootloader && !in_qspi(address) && !elf_supplied {
        Some(
            "Image is linked for 0x"@ + text::hex8(address as int, true)
                + " but the app is expected in QSPI (0x9000_0000..). Pass --bootloader if this is the bootloader, or --address to override."@,
        )
    } else {
        None
    }
}

/// Catches obvious mix-ups of addresses.
pub fn check_address(bootloader: bool, elf_supplied: bool, address: u32) -> (r: Result<(), String>)
    ensures
        r is Ok <==> address_refusal(bootloader, elf_supplied, address) is None,
        r matches Err(m) ==> Some(m@) == address_refusal(bootloader, elf_supplied, address),
{
    if bootloader && !(0x0800_0000 <= address && address <= 0x0801_FFFF) {
        let mut m = owned("--bootloader was set but image is linked for 0x");
        push_hex8(&mut m, address as u64, true);
        m.append(". Bootloaders must live in internal flash (0x0800_0000..).");
        return Err(m);
    }
    if !bootloader && !(0x9000_0000 <= address && address <= 0x907F_FFFF) && !elf_supplied {
        let mut m = owned("Image is linked for 0x");
        push_hex8(&mut m, address as u64, true);
        m.append(
            " but the app is expected in QSPI (0x9000_0000..). Pass --bootloader if this is the bootloader, or --address to override.",
        );
        return Err(m);
    }
    Ok(())
}

/// Why an image is not flashed.
#[derive(Debug)]
pub enum Refusal {
    /// The start-up check found these violations.
    Startup { issues: Vec<String> },
    /// The file is no image.
    Image { error: ElfError },
    /// An image of so many bytes does not belong at the address.
    Address { address: u32, bytes: usize, text: String },
}

impl Refusal {
    /// The message for the user.
    pub open spec fn text(self) -> Seq<char> {
        match self {
            Refusal::Startup { issues } => startup_refusal_text(issues@.len() as int),
            Refusal::Image { error } => error.text(),
            Refusal::Address { address, bytes, text } => text@,
        }
    }

    /// The message for the user.
    pub fn message(&self) -> (m: String)
        ensures
            m@ == self.text(),
    {
        match self {
            Refusal::Startup { issues } => startup_refusal(issues.len()),
            Refusal::Image { error } => owned(error.message()),
            Refusal::Address { address: _, bytes: _, text } => owned(text.as_str()),
        }
    }
}

/// What the start-up check finds in a file: nothing if it is skipped, or if the
/// symbols cannot be read.
pub open spec fn startup_issues(no_check: bool, file: Seq<u8>) -> Seq<Seq<char>> {
    if no_check {
        Seq::empty()
    } else {
        match elf::elf_symbols(file) {
            Some(table) => symbols::table_violations(table),
            None => Seq::empty(),
        }
    }
}

/// Where the image of a file goes.
pub open spec fn target(args: Args, file: Seq<u8>) -> u32 {
    match args.address {
        Some(x) => x,
        None => elf::base_of(elf::elf_headers(file)->0) as u32,
    }
}

/// What `daisy flash` does with a file: the target address and the image to
/// download there, or the first reason against it. The start-up check comes
/// first, then the conversion to an image, then the check of the address.
pub fn plan(args: &Args, file: &[u8]) -> (r: Result<(u32, Vec<u8>), Refusal>)
    ensures
        ({
            let issues = startup_issues(args.no_check, file@);
            let refused = address_refusal(
                args.bootloader,
                args.elf is Some,
                target(*args, file@),
            );
            let hs = elf::elf_headers(file@)->0;
            &&& r is Ok <==> issues.len() == 0 && elf::image_refusal(file@) is None && refused
                is None
            &&& r matches Ok(x) ==> x.0 == target(*args, file@) && elf::is_image(
                hs,
                elf::base_of(hs),
                x.1@,
            )
            &&& r matches Err(e) ==> match e {
                Refusal::Startup { issues: found } => issues.len() > 0 && symbols::texts(found@)
                    == issues,
                Refusal::Image { error } => issues.len() == 0 && elf::image_refusal(file@) == Some(
                    error,
                ),
                Refusal::Address { address, bytes, text } => {
                    &&& issues.len() == 0
                    &&& elf::image_refusal(file@) is None
                    &&& refused == Some(text@)
                    &&& address == target(*args, file@)
                    &&& elf::is_end(hs, elf::base_of(hs) + bytes)
                },
            }
        }),
{
    let found = if args.no_check {
        None
    } else {
        match read_symbols(file) {
            Ok(s) => {
                assert(s.addresses() =~= (|n: Seq<char>|
                    symbols::named(elf::elf_symbols(file@)->0, n)));
                Some(s)
            },
            Err(_) => None,
        }
    };
    if let Err(issues) = startup_gate(args.no_check, &found) {
        return Err(Refusal::Startup { issues });
    }
    match elf_to_bin(file) {
        Err(error) => Err(Refusal::Image { error }),
        Ok((base, image)) => {
            proof {
                elf::lemma_base_of(elf::elf_headers(file@)->0, base as int);
            }
            let address = target_address(args, base);
            match check_address(args.bootloader, args.elf.is_some(), address) {
                Ok(()) => Ok((address, image)),
                Err(text) => Err(Refusal::Address { address, bytes: image.len(), text }),
            }
        },
    }
}

/// The announcement before a download.
pub fn flashing_line(bytes: usize, address: u32, path: &str) -> (m: String)
    ensures
        m@ == "Flashing "@ + text::decimal(bytes as int) + " bytes @ 0x"@ + text::hex8(
            address as int,
            true,
        ) + " from "@ + path@,
{
    let mut m = owned("Flashing ");
    push_decimal(&mut m, bytes as u64);
    m.append(" bytes @ 0x");
    push_hex8(&mut m, address as u64, true);
    m.append(" from ");
    m.append(path);
    m
}

/// The two kinds of image never share an address that is accepted for both.
pub proof fn law_boot_and_app_addresses_are_apart(address: u32)
    ensures
        !(address_refusal(true, false, address) is None && address_refusal(false, false, address)
            is None),
{
}

/// A prefix of zeros and `x` changes nothing: `0x` may be written or left out.
pub proof fn law_prefix_is_optional(s: Seq<char>)
    ensures
        hex_body(seq!['0', 'x'] + s) == hex_body(s),
        !(s.len() >= 2 && s[0] == '0' && s[1] == 'x') ==> hex_body(seq!['0', 'X'] + s) == hex_body(
            s,
        ),
{
    assert((seq!['0', 'x'] + s).skip(2) =~= s);
    assert((seq!['0', 'X'] + s).skip(2) =~= s);
}

/// How hexadecimal digits add up: one more digit is worth sixteen times what
/// stands before it, plus its own value.
pub proof fn law_hex_digits_add_up(acc: int, s: Seq<char>, c: char)
    requires
        0 <= acc <= u32::MAX,
    ensures
        hex_value(acc, Seq::<char>::empty()) == Ok::<int, HexError>(acc),
        hex_value(acc, s) matches Ok(v) ==> {
            let d = text::digit_value(c);
            hex_value(acc, s.push(c)) == if d < 0 {
                Err::<int, HexError>(HexError::InvalidDigit)
            } else if v * 16 + d > 0xFFFF_FFFF {
                Err(HexError::PosOverflow)
            } else {
                Ok(v * 16 + d)
            }
        },
        hex_value(acc, s) matches Err(e) ==> hex_value(acc, s.push(c)) == Err::<int, HexError>(e),
    decreases s.len(),
{
    reveal_with_fuel(hex_value, 2);
    if s.len() == 0 {
        assert(s =~= Seq::empty());
        assert(s.push(c).skip(1) =~= Seq::empty());
        assert(s.push(c)[0] == c);
    } else {
        assert(s.push(c).skip(1) =~= s.skip(1).push(c));
        match hex_digit(s[0]) {
            Some(d) => {
                if acc * 16 + d <= u32::MAX {
                    law_hex_digits_add_up(acc * 16 + d, s.skip(1), c);
                }
            },
            None => {},
        }
    }
}

/// A numeral needs a digit, and may have a plus sign in front.
pub proof fn law_hex_numerals_may_have_a_sign(s: Seq<char>)
    requires
        s.len() > 0,
        s[0] != '+',
    ensures
        hex_numeral(Seq::<char>::empty()) == Err::<int, HexError>(HexError::Empty),
        hex_numeral(s) == hex_value(0, s),
        hex_numeral(seq!['+'] + s) == hex_value(0, s),
        hex_numeral(seq!['+']) == Err::<int, HexError>(HexError::InvalidDigit),
{
    assert((seq!['+'] + s).skip(1) =~= s);
}

/// An address is accepted exactly if a bootloader goes to the 128 KiB of internal
/// flash, and an application that was built here to the 8 MiB of the QSPI window.
pub proof fn law_addresses_belong_to_their_memory(bootloader: bool, elf_supplied: bool, address: u32)
    ensures
        address_refusal(bootloader, elf_supplied, address) is None <==> if bootloader {
            0 <= address - 0x0800_0000 < 128 * 1024
        } else {
            elf_supplied || 0 <= address - 0x9000_0000 < 8 * 1024 * 1024
        },
{
}

/// The image goes to the address that is asked for, else to the one it is linked
/// for, the least of all that it loads to.
pub proof fn law_target_is_the_override_or_the_link(args: Args, file: Seq<u8>, base: int)
    requires
        elf::is_base(elf::elf_headers(file)->0, base),
        0 <= base <= u32::MAX,
    ensures
        args.address matches Some(x) ==> target(args, file) == x,
        args.address is None ==> target(args, file) == base,
{
    elf::lemma_base_of(elf::elf_headers(file)->0, base);
}

/// The start-up check looks at the file's own symbols, unless it is skipped.
pub proof fn law_startup_check_reads_the_symbols(file: Seq<u8>)
    ensures
        startup_issues(true, file).len() == 0,
        elf::elf_symbols(file) is None ==> startup_issues(false, file).len() == 0,
        elf::elf_symbols(file) matches Some(t) ==> startup_issues(false, file)
            == symbols::table_violations(t),
{
}

} // verus!
