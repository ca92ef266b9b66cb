//! Linker symbols, and the check that start-up code initialises RAM inside one
//! region.
use super::elf;
use super::elf::{symbol_entries, ElfError};
use crate::boot_check;
use crate::text;
use crate::text::{owned, push_hex8};
use vstd::prelude::*;

verus! {

// ---------------------------------------------------------------------------
// Symbols
// ---------------------------------------------------------------------------

/// Symbols by name.
pub struct Symbols {
    /// In the order of insertion; the latest entry of a name counts.
    entries: Vec<(String, u64)>,
}

/// The latest entry of `name`.
pub open spec fn lookup(entries: Seq<(String, u64)>, name: Seq<char>) -> Option<u64>
    decreases entries.len(),
{
    if entries.len() == 0 {
        None
    } else if entries.last().0@ == name {
        Some(entries.last().1)
    } else {
        lookup(entries.drop_last(), name)
    }
}

impl Symbols {
    /// The address of a symbol, if there is such a symbol.
    pub closed spec fn address_of(&self, name: Seq<char>) -> Option<u64> {
        lookup(self.entries@, name)
    }

    /// The addresses of all symbols.
    pub open spec fn addresses(&self) -> spec_fn(Seq<char>) -> Option<u64> {
        |n: Seq<char>| self.address_of(n)
    }

    /// No symbols.
    pub fn new() -> (s: Self)
        ensures
            forall|n: Seq<char>| s.address_of(n) is None,
    {
        Symbols { entries: Vec::new() }
    }

    /// The address of `name`.
    pub fn get(&self, name: &str) -> (r: Option<u64>)
        ensures
            r == self.address_of(name@),
    {
        let key = owned(name);
        let mut i: usize = self.entries.len();
        assert(self.entries@.take(i as int) =~= self.entries@);
        while i > 0
            invariant
                i <= self.entries@.len(),
                key@ == name@,
                lookup(self.entries@.take(i as int), name@) == self.address_of(name@),
            decreases i,
        {
            assert(self.entries@.take(i as int).drop_last() =~= self.entries@.take(i - 1));
            i = i - 1;
            if self.entries[i].0 == key {
                return Some(self.entries[i].1);
            }
        }
        None
    }

    /// Sets the address of `name`.
    pub fn insert(&mut self, name: &str, address: u64)
        ensures
            forall|n: Seq<char>| #[trigger]
                final(self).address_of(n) == if n == name@ {
                    Some(address)
                } else {
                    old(self).address_of(n)
                },
    {
        let ghost before = self.entries@;
        self.entries.push((owned(name), address));
        assert(self.entries@.drop_last() =~= before);
    }
}

/// The symbol table of an ELF file by name: entries without a readable name, or
/// with an empty one, are left out, and the latest entry of a name counts.
pub open spec fn named(table: Seq<(Option<Seq<char>>, u64)>, name: Seq<char>) -> Option<u64>
    decreases table.len(),
{
    if table.len() == 0 {
        None
    } else if name.len() > 0 && table.last().0 == Some(name) {
        Some(table.last().1)
    } else {
        named(table.drop_last(), name)
    }
}

/// Collects the named entries of a symbol table.
pub fn collect_symbols(table: &Vec<elf::Symbol>) -> (s: Symbols)
    ensures
        forall|n: Seq<char>| #[trigger]
            s.address_of(n) == named(table@.map_values(|e: elf::Symbol| e@), n),
{
    let ghost views = table@.map_values(|e: elf::Symbol| e@);
    let mut s = Symbols::new();
    let mut i: usize = 0;
    assert(views.take(0) =~= Seq::empty());
    while i < table.len()
        invariant
            i <= table@.len(),
            views == table@.map_values(|e: elf::Symbol| e@),
            forall|n: Seq<char>| #[trigger] s.address_of(n) == named(views.take(i as int), n),
        decreases table@.len() - i,
    {
        let ghost before = s;
        proof {
            assert(views.take(i + 1).drop_last() =~= views.take(i as int));
            assert(views.take(i + 1).last() == table@[i as int]@);
        }
        match &table[i].name {
            Some(name) => {
                if name.as_str().unicode_len() > 0 {
                    s.insert(name.as_str(), table[i].address);
                }
            },
            None => {},
        }
        assert forall|n: Seq<char>| #[trigger] s.address_of(n) == named(views.take(i + 1), n) by {
            assert(before.address_of(n) == named(views.take(i as int), n));
        }
        i = i + 1;
    }
    assert(views.take(i as int) =~= views);
    s
}

/// Reads the symbol table of an ELF file.
pub fn read_symbols(file: &[u8]) -> (r: Result<Symbols, ElfError>)
    ensures
        r is Ok <==> elf::elf_symbols(file@) is Some,
        r matches Err(e) ==> e == ElfError::Parse,
        r matches Ok(s) ==> forall|n: Seq<char>| #[trigger]
            s.address_of(n) == named(elf::elf_symbols(file@)->0, n),
{
    match symbol_entries(file) {
        Err(_) => Err(ElfError::Parse),
        Ok(table) => Ok(collect_symbols(&table)),
    }
}

// ---------------------------------------------------------------------------
// RAM regions
// ---------------------------------------------------------------------------

/// Bounds of an on-chip RAM region, both included: a section may end one past
/// the last byte. The regions are separate windows with unmapped gaps between.
pub open spec fn region_bounds(index: int) -> (int, int) {
    if index == 0 {
        (0x2000_0000, 0x2002_0000)
    } else if index == 1 {
        (0x2400_0000, 0x2408_0000)
    } else {
        (0x3000_0000, 0x3004_8000)
    }
}

/// Name of a region.
pub open spec fn region_name(index: int) -> Seq<char> {
    if index == 0 {
        "DTCM (128 KiB)"@
    } else if index == 1 {
        "AXI SRAM (512 KiB)"@
    } else {
        "D2 SRAM1..3 (288 KiB)"@
    }
}

/// The region that holds an address.
pub open spec fn region(addr: int) -> Option<int> {
    if region_bounds(0).0 <= addr <= region_bounds(0).1 {
        Some(0)
    } else if region_bounds(1).0 <= addr <= region_bounds(1).1 {
        Some(1)
    } else if region_bounds(2).0 <= addr <= region_bounds(2).1 {
        Some(2)
    } else {
        None
    }
}

/// The region that holds an address, by its place in the list.
pub fn region_of(addr: u64) -> (r: Option<usize>)
    ensures
        r matches Some(i) ==> region(addr as int) == Some(i as int) && i < 3,
        r is None <==> region(addr as int) is None,
{
    if 0x2000_0000 <= addr && addr <= 0x2002_0000 {
        Some(0)
    } else if 0x2400_0000 <= addr && addr <= 0x2408_0000 {
        Some(1)
    } else if 0x3000_0000 <= addr && addr <= 0x3004_8000 {
        Some(2)
    } else {
        None
    }
}

fn region_label(index: usize) -> (s: &'static str)
    ensures
        s@ == region_name(index as int),
{
    if index == 0 {
        "DTCM (128 KiB)"
    } else if index == 1 {
        "AXI SRAM (512 KiB)"
    } else {
        "D2 SRAM1..3 (288 KiB)"
    }
}

/// The regions are the same that the bootloader accepts a stack pointer in.
pub proof fn law_regions_agree_with_the_boot_check(addr: u32)
    ensures
        region(addr as int) is Some <==> boot_check::in_sram(addr),
{
}

/// The regions do not meet: an address lies in at most one.
pub proof fn law_regions_are_disjoint(i: int, j: int, addr: int)
    requires
        0 <= i < 3,
        0 <= j < 3,
        region_bounds(i).0 <= addr <= region_bounds(i).1,
        region_bounds(j).0 <= addr <= region_bounds(j).1,
    ensures
        i == j,
        region(addr) == Some(i),
{
}

// ---------------------------------------------------------------------------
// The start-up RAM invariant
// ---------------------------------------------------------------------------

/// The message about a range that spans two regions.
pub open spec fn split_text(
    label: Seq<char>,
    lo_name: Seq<char>,
    lo: int,
    hi_name: Seq<char>,
    hi: int,
) -> Seq<char> {
    label + ": "@ + lo_name + "=0x"@ + text::hex8(lo, false) + " ("@ + region_name(
        region(lo)->0,
    ) + ") and "@ + hi_name + "=0x"@ + text::hex8(hi, false) + " ("@ + region_name(region(hi)->0)
        + ") are in DIFFERENT RAM regions \u{2014} startup init would cross the unmapped gap and lock up"@
}

/// The message about a symbol in no region.
pub open spec fn stray_text(name: Seq<char>, addr: int) -> Seq<char> {
    name + "=0x"@ + text::hex8(addr, false) + " is not in any valid on-chip RAM region"@
}

/// A range that a start-up loop walks end to end: both ends in the same region,
/// if both symbols exist and lie in regions.
pub open spec fn range_errors(
    find: spec_fn(Seq<char>) -> Option<u64>,
    label: Seq<char>,
    lo_name: Seq<char>,
    hi_name: Seq<char>,
) -> Seq<Seq<char>> {
    match (find(lo_name), find(hi_name)) {
        (Some(lo), Some(hi)) => if region(lo as int) is Some && region(hi as int) is Some && region(
            lo as int,
        ) != region(hi as int) {
            seq![split_text(label, lo_name, lo as int, hi_name, hi as int)]
        } else {
            Seq::empty()
        },
        _ => Seq::empty(),
    }
}

/// A start-up symbol, if it exists, lies in some region.
pub open spec fn stray_errors(
    find: spec_fn(Seq<char>) -> Option<u64>,
    name: Seq<char>,
) -> Seq<Seq<char>> {
    match find(name) {
        Some(a) => if region(a as int) is None {
            seq![stray_text(name, a as int)]
        } else {
            Seq::empty()
        },
        None => Seq::empty(),
    }
}

/// All violations, ranges first.
pub open spec fn violations_in(find: spec_fn(Seq<char>) -> Option<u64>) -> Seq<Seq<char>> {
    range_errors(find, ".bss zero"@, "__sbss"@, "__ebss"@) + range_errors(
        find,
        ".data copy (dest)"@,
        "__sdata"@,
        "__edata"@,
    ) + stray_errors(find, "__sbss"@) + stray_errors(find, "__ebss"@) + stray_errors(find, "__sdata"@)
        + stray_errors(find, "__edata"@) + stray_errors(find, "__sheap"@) + stray_errors(
        find,
        "_stack_start"@,
    ) + stray_errors(find, "_stack_end"@)
}

/// All violations of a set of symbols.
pub open spec fn violations(s: Symbols) -> Seq<Seq<char>> {
    violations_in(s.addresses())
}

/// All violations of an ELF file's symbol table.
pub open spec fn table_violations(table: Seq<(Option<Seq<char>>, u64)>) -> Seq<Seq<char>> {
    violations_in(|n: Seq<char>| named(table, n))
}

/// The texts of a list of strings.
pub open spec fn texts(v: Seq<String>) -> Seq<Seq<char>> {
    v.map_values(|s: String| s@)
}

fn check_range(
    symbols: &Symbols,
    errs: &mut Vec<String>,
    label: &str,
    lo_name: &str,
    hi_name: &str,
)
    ensures
        texts(final(errs)@) == texts(old(errs)@) + range_errors(
            symbols.addresses(),
            label@,
            lo_name@,
            hi_name@,
        ),
{
    let ghost before = texts(errs@);
    assert(before + Seq::<Seq<char>>::empty() =~= before);
    if let (Some(lo), Some(hi)) = (symbols.get(lo_name), symbols.get(hi_name)) {
        if let (Some(a), Some(b)) = (region_of(lo), region_of(hi)) {
            if a != b {
                let mut m = String::new();
                m.append(label);
                m.append(": ");
                m.append(lo_name);
                m.append("=0x");
                push_hex8(&mut m, lo, false);
                m.append(" (");
                m.append(region_label(a));
                m.append(") and ");
                m.append(hi_name);
                m.append("=0x");
                push_hex8(&mut m, hi, false);
                m.append(" (");
                m.append(region_label(b));
                m.append(
                    ") are in DIFFERENT RAM regions \u{2014} startup init would cross the unmapped gap and lock up",
                );
                assert(m@ =~= split_text(label@, lo_name@, lo as int, hi_name@, hi as int));
                errs.push(m);
                assert(texts(errs@) =~= before.push(m@));
                assert(before.push(m@) =~= before + seq![m@]);
            }
        }
    }
}

fn check_stray(symbols: &Symbols, errs: &mut Vec<String>, name: &str)
    ensures
        texts(final(errs)@) == texts(old(errs)@) + stray_errors(symbols.addresses(), name@),
{
    let ghost before = texts(errs@);
    assert(before + Seq::<Seq<char>>::empty() =~= before);
    if let Some(a) = symbols.get(name) {
        if region_of(a).is_none() {
            let mut m = String::new();
            m.append(name);
            m.append("=0x");
            push_hex8(&mut m, a, false);
            m.append(" is not in any valid on-chip RAM region");
            assert(m@ =~= stray_text(name@, a as int));
            errs.push(m);
            assert(texts(errs@) =~= before.push(m@));
            assert(before.push(m@) =~= before + seq![m@]);
        }
    }
}

/// Checks that the start-up code's RAM initialisation stays inside one region.
/// It zeroes `.bss` and copies `.data` with tight loops that assume contiguous
/// memory; a symbol dragged into another region sends the loop across an
/// unmapped gap, and the core locks up before `main`. Returns the violations.
pub fn check_startup_ram_invariant(symbols: &Symbols) -> (r: Result<(), Vec<String>>)
    ensures
        r is Ok <==> violations(*symbols).len() == 0,
        r matches Err(errs) ==> texts(errs@) == violations(*symbols),
{
    let mut errs: Vec<String> = Vec::new();
    assert(texts(errs@) =~= Seq::<Seq<char>>::empty());
    check_range(symbols, &mut errs, ".bss zero", "__sbss", "__ebss");
    check_range(symbols, &mut errs, ".data copy (dest)", "__sdata", "__edata");
    check_stray(symbols, &mut errs, "__sbss");
    check_stray(symbols, &mut errs, "__ebss");
    check_stray(symbols, &mut errs, "__sdata");
    check_stray(symbols, &mut errs, "__edata");
    check_stray(symbols, &mut errs, "__sheap");
    check_stray(symbols, &mut errs, "_stack_start");
    check_stray(symbols, &mut errs, "_stack_end");
    assert(texts(errs@) =~= violations(*symbols));
    if errs.len() == 0 {
        Ok(())
    } else {
        Err(errs)
    }
}

/// An image passes exactly when every start-up symbol that it has lies in a
/// region, and each of the two ranges keeps to one region.
pub proof fn law_a_pass_means_one_region_per_range(s: Symbols)
    ensures
        violations(s).len() == 0 <==> {
            &&& kept_together(s, "__sbss"@, "__ebss"@)
            &&& kept_together(s, "__sdata"@, "__edata"@)
            &&& placed(s, "__sbss"@)
            &&& placed(s, "__ebss"@)
            &&& placed(s, "__sdata"@)
            &&& placed(s, "__edata"@)
            &&& placed(s, "__sheap"@)
            &&& placed(s, "_stack_start"@)
            &&& placed(s, "_stack_end"@)
        },
{
    let a = range_errors(s.addresses(), ".bss zero"@, "__sbss"@, "__ebss"@);
    let b = range_errors(s.addresses(), ".data copy (dest)"@, "__sdata"@, "__edata"@);
    assert(a.len() == 0 || a.len() == 1);
    assert(b.len() == 0 || b.len() == 1);
}

/// A symbol that exists lies in some region.
pub open spec fn placed(s: Symbols, name: Seq<char>) -> bool {
    s.address_of(name) matches Some(a) ==> region(a as int) is Some
}

/// Two symbols that exist and lie in regions lie in the same one.
pub open spec fn kept_together(s: Symbols, lo: Seq<char>, hi: Seq<char>) -> bool {
    s.address_of(lo) is Some && s.address_of(hi) is Some && region(s.address_of(lo)->0 as int)
        is Some && region(s.address_of(hi)->0 as int) is Some ==> region(
        s.address_of(lo)->0 as int,
    ) == region(s.address_of(hi)->0 as int)
}

/// The regions by their addresses: 128 KiB, 512 KiB and 288 KiB, each with the
/// address behind its last byte.
pub proof fn law_regions_by_address(addr: int)
    ensures
        region(addr) == Some(0int) <==> 0 <= addr - 0x2000_0000 <= 128 * 1024,
        region(addr) == Some(1int) <==> 0 <= addr - 0x2400_0000 <= 512 * 1024,
        region(addr) == Some(2int) <==> 0 <= addr - 0x3000_0000 <= 288 * 1024,
        region(addr) matches Some(i) ==> 0 <= i <= 2,
{
}

/// Two addresses lie in the same memory.
pub open spec fn in_one_memory(a: int, b: int) -> bool {
    ||| 0x2000_0000 <= a <= 0x2002_0000 && 0x2000_0000 <= b <= 0x2002_0000
    ||| 0x2400_0000 <= a <= 0x2408_0000 && 0x2400_0000 <= b <= 0x2408_0000
    ||| 0x3000_0000 <= a <= 0x3004_8000 && 0x3000_0000 <= b <= 0x3004_8000
}

/// What a pass means for the addresses themselves: each start-up symbol that the
/// image has lies in a memory, and both ends of `.bss`, and of `.data`, in one.
pub proof fn law_a_pass_in_addresses(s: Symbols, name: Seq<char>)
    requires
        name == "__sbss"@ || name == "__ebss"@ || name == "__sdata"@ || name == "__edata"@ || name
            == "__sheap"@ || name == "_stack_start"@ || name == "_stack_end"@,
        violations(s).len() == 0,
    ensures
        s.address_of(name) matches Some(a) ==> in_one_memory(a as int, a as int),
        (s.address_of("__sbss"@) matches Some(a) && s.address_of("__ebss"@) matches Some(b))
            ==> in_one_memory(
            s.address_of("__sbss"@)->0 as int,
            s.address_of("__ebss"@)->0 as int,
        ),
        (s.address_of("__sdata"@) is Some && s.address_of("__edata"@) is Some) ==> in_one_memory(
            s.address_of("__sdata"@)->0 as int,
            s.address_of("__edata"@)->0 as int,
        ),
{
    law_a_pass_means_one_region_per_range(s);
}

/// Conversely, an image is refused only for cause: if every start-up symbol lies in
/// a memory and both ranges keep to one, there is no violation.
pub proof fn law_refusals_have_a_cause(s: Symbols)
    requires
        forall|n: Seq<char>|
            #[trigger] s.address_of(n) is Some ==> in_one_memory(
                s.address_of(n)->0 as int,
                s.address_of(n)->0 as int,
            ),
        s.address_of("__sbss"@) is Some && s.address_of("__ebss"@) is Some ==> in_one_memory(
            s.address_of("__sbss"@)->0 as int,
            s.address_of("__ebss"@)->0 as int,
        ),
        s.address_of("__sdata"@) is Some && s.address_of("__edata"@) is Some ==> in_one_memory(
            s.address_of("__sdata"@)->0 as int,
            s.address_of("__edata"@)->0 as int,
        ),
    ensures
        violations(s).len() == 0,
{
    law_a_pass_means_one_region_per_range(s);
}

/// A later entry of a symbol table replaces an earlier one of the same name and
/// leaves all others alone; one without a name adds nothing.
pub proof fn law_later_entries_win(
    table: Seq<(Option<Seq<char>>, u64)>,
    entry: (Option<Seq<char>>, u64),
    name: Seq<char>,
)
    ensures
        named(Seq::empty(), name) is None,
        named(table.push(entry), name) == if entry.0 == Some(name) && name.len() > 0 {
            Some(entry.1)
        } else {
            named(table, name)
        },
{
    assert(table.push(entry).drop_last() =~= table);
}

/// A region's name says which memory an address is in, and how large that is.
pub proof fn law_region_names_by_address(addr: int)
    ensures
        0 <= addr - 0x2000_0000 <= 128 * 1024 ==> region(addr) is Some && region_name(
            region(addr)->0,
        ) == "DTCM (128 KiB)"@,
        0 <= addr - 0x2400_0000 <= 512 * 1024 ==> region(addr) is Some && region_name(
            region(addr)->0,
        ) == "AXI SRAM (512 KiB)"@,
        0 <= addr - 0x3000_0000 <= 288 * 1024 ==> region(addr) is Some && region_name(
            region(addr)->0,
        ) == "D2 SRAM1..3 (288 KiB)"@,
{
    law_regions_by_address(addr);
}

/// A lookup finds the value of the latest entry under the name, and nothing
/// where no entry has the name.
pub proof fn law_lookup_finds_the_latest(
    entries: Seq<(String, u64)>,
    entry: (String, u64),
    name: Seq<char>,
)
    ensures
        lookup(Seq::empty(), name) is None,
        entry.0@ == name ==> lookup(entries.push(entry), name) == Some(entry.1),
        entry.0@ != name ==> lookup(entries.push(entry), name) == lookup(entries, name),
{
    assert(entries.push(entry).drop_last() =~= entries);
}

} // verus!
