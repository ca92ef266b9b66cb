//! `daisy check-elf`: the verdict on each firmware image.
use super::symbols;
use super::symbols::{check_startup_ram_invariant, Symbols};
use crate::text::owned;
use vstd::prelude::*;

verus! {

/// Arguments of the command.
#[derive(Debug)]
pub struct Args {
    /// ELF files to check.
    pub elfs: Vec<String>,
}

/// The verdict on one file: its headline, and a line for each violation.
#[derive(Debug)]
pub struct Verdict {
    pub ok: bool,
    pub headline: String,
    pub details: Vec<String>,
}

/// Checks one file's symbols.
pub fn verdict(path: &str, s: &Symbols) -> (v: Verdict)
    ensures
        v.ok == (symbols::violations(*s).len() == 0),
        v.headline@ == if v.ok {
            "\u{2713} "@ + path@ + " \u{2014} startup RAM invariant OK"@
        } else {
            "\u{2717} "@ + path@ + " \u{2014} startup RAM invariant VIOLATED:"@
        },
        v.details@.len() == symbols::violations(*s).len(),
        forall|i: int|
            0 <= i < v.details@.len() ==> (#[trigger] v.details@[i])@ == "    - "@
                + symbols::violations(*s)[i],
{
    match check_startup_ram_invariant(s) {
        Ok(_) => {
            let mut headline = owned("\u{2713} ");
            headline.append(path);
            headline.append(" \u{2014} startup RAM invariant OK");
            Verdict { ok: true, headline, details: Vec::new() }
        },
        Err(errs) => {
            let mut headline = owned("\u{2717} ");
            headline.append(path);
            headline.append(" \u{2014} startup RAM invariant VIOLATED:");
            let mut details: Vec<String> = Vec::new();
            let mut i: usize = 0;
            while i < errs.len()
                invariant
                    i <= errs@.len(),
                    details@.len() == i,
                    symbols::texts(errs@) == symbols::violations(*s),
                    forall|j: int|
                        0 <= j < i ==> (#[trigger] details@[j])@ == "    - "@
                            + symbols::violations(*s)[j],
                decreases errs@.len() - i,
            {
                let mut line = owned("    - ");
                line.append(errs[i].as_str());
                assert(symbols::texts(errs@)[i as int] == errs@[i as int]@);
                details.push(line);
                i = i + 1;
            }
            assert(symbols::texts(errs@).len() == errs@.len());
            Verdict { ok: false, headline, details }
        },
    }
}

/// Whether the command fails: some file has violations.
pub fn any_failed(verdicts: &Vec<Verdict>) -> (failed: bool)
    ensures
        failed == exists|i: int| 0 <= i < verdicts@.len() && !(#[trigger] verdicts@[i]).ok,
{
    let mut i: usize = 0;
    while i < verdicts.len()
        invariant
            i <= verdicts@.len(),
            forall|j: int| 0 <= j < i ==> (#[trigger] verdicts@[j]).ok,
        decreases verdicts@.len() - i,
    {
        if !verdicts[i].ok {
            return true;
        }
        i = i + 1;
    }
    false
}

/// The command's own failure.
pub fn failure() -> (s: &'static str)
    ensures
        s@ == "startup RAM invariant check failed (see above)"@,
{
    "startup RAM invariant check failed (see above)"
}

} // verus!
