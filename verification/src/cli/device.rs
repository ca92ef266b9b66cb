//! DFU devices on the bus, and what `daisy list` says of them.
use crate::text;
use crate::text::{owned, push_decimal};
use vstd::prelude::*;

verus! {

/// Vendor of the microcontroller's ROM bootloader.
pub const ST_DFU_VID: u16 = 0x0483;

/// Product of the microcontroller's ROM bootloader.
pub const ST_DFU_PID: u16 = 0xDF11;

/// One connected device.
#[derive(Debug)]
pub struct DfuDevice {
    pub bus: String,
    pub address: u8,
    pub serial: Option<String>,
}

/// Whether a device is a ROM bootloader.
pub fn is_dfu(vid: u16, pid: u16) -> (b: bool)
    ensures
        b == (vid == ST_DFU_VID && pid == ST_DFU_PID),
{
    vid == ST_DFU_VID && pid == ST_DFU_PID
}

/// The first ROM bootloader among devices given by vendor and product.
pub fn first_dfu(ids: &Vec<(u16, u16)>) -> (r: Option<usize>)
    ensures
        r matches Some(i) ==> {
            &&& i < ids@.len()
            &&& ids@[i as int] == (ST_DFU_VID, ST_DFU_PID)
            &&& forall|j: int| 0 <= j < i ==> ids@[j] != (ST_DFU_VID, ST_DFU_PID)
        },
        r is None <==> forall|j: int| 0 <= j < ids@.len() ==> ids@[j] != (ST_DFU_VID, ST_DFU_PID),
{
    let mut i: usize = 0;
    while i < ids.len()
        invariant
            i <= ids@.len(),
            forall|j: int| 0 <= j < i ==> ids@[j] != (ST_DFU_VID, ST_DFU_PID),
        decreases ids@.len() - i,
    {
        if is_dfu(ids[i].0, ids[i].1) {
            return Some(i);
        }
        i = i + 1;
    }
    None
}

/// The failure of a download with no device on the bus.
pub fn no_device() -> (s: &'static str)
    ensures
        s@
            == "no STM32 DFU device found (VID:PID 0483:df11). Hold BOOT and press RESET on the Daisy, then re-run."@,
{
    "no STM32 DFU device found (VID:PID 0483:df11). Hold BOOT and press RESET on the Daisy, then re-run."
}

/// The line about device `i`.
pub open spec fn device_line(i: int, d: DfuDevice) -> Seq<char> {
    "  ["@ + text::decimal(i) + "] bus "@ + d.bus@ + ", address "@ + text::decimal(d.address as int)
        + "  serial="@ + match d.serial {
        Some(s) => s@,
        None => "<none>"@,
    }
}

/// What `daisy list` prints.
pub fn list_lines(devices: &Vec<DfuDevice>) -> (lines: Vec<String>)
    ensures
        devices@.len() == 0 ==> lines@.len() == 2 && lines@[0]@
            == "No Daisy in DFU mode found. Hold BOOT and press RESET, then run again."@
            && lines@[1]@ == "Looking for VID:PID 0483:df11 (STM32 ROM bootloader)."@,
        devices@.len() > 0 ==> {
            &&& lines@.len() == devices@.len() + 1
            &&& lines@[0]@ == "DFU-mode devices:"@
            &&& forall|i: int|
                0 <= i < devices@.len() ==> (#[trigger] lines@[i + 1])@ == device_line(
                    i,
                    devices@[i],
                )
        },
{
    let mut lines: Vec<String> = Vec::new();
    if devices.len() == 0 {
        lines.push(owned("No Daisy in DFU mode found. Hold BOOT and press RESET, then run again."));
        lines.push(owned("Looking for VID:PID 0483:df11 (STM32 ROM bootloader)."));
        return lines;
    }
    lines.push(owned("DFU-mode devices:"));
    let mut i: usize = 0;
    while i < devices.len()
        invariant
            i <= devices@.len(),
            lines@.len() == i + 1,
            lines@[0]@ == "DFU-mode devices:"@,
            forall|j: int|
                0 <= j < i ==> (#[trigger] lines@[j + 1])@ == device_line(j, devices@[j]),
        decreases devices@.len() - i,
    {
        let d = &devices[i];
        let mut line = owned("  [");
        push_decimal(&mut line, i as u64);
        line.append("] bus ");
        line.append(d.bus.as_str());
        line.append(", address ");
        push_decimal(&mut line, d.address as u64);
        line.append("  serial=");
        match &d.serial {
            Some(s) => line.append(s.as_str()),
            None => line.append("<none>"),
        }
        assert(line@ =~= device_line(i as int, devices@[i as int]));
        lines.push(line);
        i = i + 1;
    }
    lines
}

/// A line names the device's place, bus, address and serial number, in that order.
pub proof fn law_lines_name_the_device(i: nat, d: DfuDevice)
    ensures
        d.serial matches Some(s) ==> device_line(i as int, d) == "  ["@ + text::decimal(i as int)
            + "] bus "@ + d.bus@ + ", address "@ + text::decimal(d.address as int) + "  serial="@
            + s@,
        d.serial is None ==> device_line(i as int, d) == "  ["@ + text::decimal(i as int)
            + "] bus "@ + d.bus@ + ", address "@ + text::decimal(d.address as int) + "  serial="@
            + "<none>"@,
{
}

} // verus!
