//! `daisy new`.
use vstd::prelude::*;

verus! {

/// Arguments of the command.
#[derive(Debug)]
pub struct Args {
    /// Directory to create.
    pub path: String,
}

/// Creates a project from the template. There is no template to copy yet.
pub fn run(args: Args) -> (r: Result<(), &'static str>)
    ensures
        r matches Err(m) && m@ == "`daisy new` is not implemented yet"@,
{
    Err("`daisy new` is not implemented yet")
}

} // verus!
