//! `daisy monitor`.
use vstd::prelude::*;

verus! {

/// Arguments of the command.
#[derive(Debug, Clone, Copy)]
pub struct Args {
    pub via: Via,
}

/// How logs are streamed.
#[derive(Debug, Clone, Copy, PartialEq, Eq, Structural)]
pub enum Via {
    /// USB serial exposed by the firmware.
    Serial,
    /// Real-time transfer through a debug probe.
    Rtt,
}

/// Streams logs. Neither way exists yet.
pub fn run(args: Args) -> (r: Result<(), &'static str>)
    ensures
        r matches Err(m) && m@ == "`daisy monitor` is not implemented yet"@,
{
    Err("`daisy monitor` is not implemented yet")
}

} // verus!
