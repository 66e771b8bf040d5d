use vstd::prelude::*;

use crate::text::{contains_str, has_infix};

verus! {

/// USB vendor id of the printer's HID interface, as sysfs prints it.
pub const SUPVAN_USB_VID: &'static str = "1820";
/// USB product id of the printer's HID interface, as sysfs prints it.
pub const SUPVAN_USB_PID: &'static str = "2073";
/// IEEE 1284 device id reported for discovered printers.
pub const SUPVAN_DEVICE_ID: &'static str = "MFG:Supvan;MDL:T50 Pro;CMD:SUPVAN;";

/// A printer found by discovery.
pub struct DiscoveredDevice {
    pub address: String,
    pub name: String,
}

/// The lower-case form of a text.
pub uninterp spec fn lower_of(s: Seq<char>) -> Seq<char>;

/// Relies on `str::to_lowercase`: the result depends on the text alone.
#[verifier::external_body]
fn lowercase(s: &str) -> (r: String)
    ensures
        r@ == lower_of(s@),
{
    s.to_lowercase()
}

/// A lower-cased device name names one of these printers.
pub open spec fn names_printer(lower: Seq<char>) -> bool {
    has_infix(lower, "t50"@) || has_infix(lower, "t0117"@) || has_infix(lower, "supvan"@) || has_infix(
        lower,
        "katasymbol"@,
    )
}

/// Whether an already lower-cased device name names one of these printers:
/// it mentions the model, the label-roll prefix, or either brand.
pub fn is_matching_lower_name(lower: &str) -> (r: bool)
    ensures
        r == names_printer(lower@),
{
    contains_str(lower, "t50") || contains_str(lower, "t0117") || contains_str(lower, "supvan") || contains_str(
        lower,
        "katasymbol",
    )
}

/// Whether a Bluetooth device name names one of these printers, ignoring
/// case.
pub fn is_matching_printer_name(name: &str) -> (r: bool)
    ensures
        r == names_printer(lower_of(name@)),
{
    let lower = lowercase(name);
    is_matching_lower_name(lower.as_str())
}

/// Whether the vendor and product ids read from sysfs are the printer's.
pub fn is_supvan_usb(vid: &str, pid: &str) -> (r: bool)
    ensures
        r == (vid@ == SUPVAN_USB_VID@ && pid@ == SUPVAN_USB_PID@),
{
    let a = SUPVAN_USB_VID.to_owned();
    let b = vid.to_owned();
    let c = SUPVAN_USB_PID.to_owned();
    let d = pid.to_owned();
    a == b && c == d
}

} // verus!
