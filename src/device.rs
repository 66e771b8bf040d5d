use vstd::prelude::*;

use crate::status::{MaterialInfo, PrinterStatus};

verus! {

/// No printer-state reason.
pub const PAPPL_PREASON_NONE: u32 = 0x0000;
/// Some other condition.
pub const PAPPL_PREASON_OTHER: u32 = 0x0001;
/// The cover is open.
pub const PAPPL_PREASON_COVER_OPEN: u32 = 0x0002;
/// The label roll is empty or missing.
pub const PAPPL_PREASON_MEDIA_EMPTY: u32 = 0x0080;
/// The labels are jammed or of the wrong kind.
pub const PAPPL_PREASON_MEDIA_JAM: u32 = 0x0100;
/// Media must be replaced.
pub const PAPPL_PREASON_MEDIA_NEEDED: u32 = 0x0400;

/// Printer-state reason flags for a status: cover open; media empty for a
/// label-roll end or a missing roll; media jam for a label read/write or
/// mode error; media needed for a ribbon end; other for an overheated head.
pub open spec fn reasons_of(s: PrinterStatus) -> u32 {
    ((if s.cover_open { PAPPL_PREASON_COVER_OPEN } else { 0 }) + (if s.label_end || s.label_not_installed {
        PAPPL_PREASON_MEDIA_EMPTY
    } else {
        0
    }) + (if s.label_rw_error || s.label_mode_error { PAPPL_PREASON_MEDIA_JAM } else { 0 }) + (if s.ribbon_end {
        PAPPL_PREASON_MEDIA_NEEDED
    } else {
        0
    }) + (if s.head_temp_high { PAPPL_PREASON_OTHER } else { 0 })) as u32
}

/// The reasons to report for a device: none while a transfer is under way
/// (no status query may interleave with the data), "other" when the status
/// query got no answer, and the status's reasons otherwise.
pub fn device_reasons(printing: bool, status: Option<PrinterStatus>) -> (r: u32)
    ensures
        r == if printing {
            PAPPL_PREASON_NONE
        } else {
            match status {
                None => PAPPL_PREASON_OTHER,
                Some(s) => reasons_of(s),
            }
        },
{
    if printing {
        return PAPPL_PREASON_NONE;
    }
    let s = match status {
        Some(s) => s,
        None => return PAPPL_PREASON_OTHER,
    };
    let mut reasons: u32 = PAPPL_PREASON_NONE;
    if s.cover_open {
        reasons = reasons + PAPPL_PREASON_COVER_OPEN;
    }
    if s.label_end || s.label_not_installed {
        reasons = reasons + PAPPL_PREASON_MEDIA_EMPTY;
    }
    if s.label_rw_error || s.label_mode_error {
        reasons = reasons + PAPPL_PREASON_MEDIA_JAM;
    }
    if s.ribbon_end {
        reasons = reasons + PAPPL_PREASON_MEDIA_NEEDED;
    }
    if s.head_temp_high {
        reasons = reasons + PAPPL_PREASON_OTHER;
    }
    reasons
}

/// What to do when the printing system asks for the device's state.
#[derive(Clone, Copy, Debug, PartialEq, Eq, Structural)]
pub enum StatusPlan {
    /// Report no reasons, without touching the channel.
    ReportNone,
    /// Send a status query, then report `device_reasons(false, ..)` of its answer.
    Query,
}

/// Decide whether a state request may query the printer: never while a
/// transfer is under way (a status command would land in the data stream),
/// and never without a connected printer.
pub fn status_plan(connected: bool, printing: bool) -> (r: StatusPlan)
    ensures
        r == (if connected && !printing { StatusPlan::Query } else { StatusPlan::ReportNone }),
{
    if connected && !printing {
        StatusPlan::Query
    } else {
        StatusPlan::ReportNone
    }
}

/// Label details as the printer application reports them.
#[derive(Debug, Clone, Copy)]
pub struct KsMaterial {
    pub width_mm: u8,
    pub height_mm: u8,
    /// Labels left on the roll, or -1 when unknown.
    pub remaining: i32,
}

impl KsMaterial {
    /// The details of a material response.
    pub fn from_info(m: &MaterialInfo) -> (r: KsMaterial)
        ensures
            r.width_mm == m.width_mm,
            r.height_mm == m.height_mm,
            r.remaining == match m.remaining {
                Some(n) => n as i32,
                None => -1i32,
            },
    {
        KsMaterial {
            width_mm: m.width_mm,
            height_mm: m.height_mm,
            remaining: match m.remaining {
                Some(n) => n as i32,
                None => -1,
            },
        }
    }

    /// The label assumed when no printer is attached: 40 x 30 mm, count
    /// unknown.
    pub fn placeholder() -> (r: KsMaterial)
        ensures
            r.width_mm == 40 && r.height_mm == 30 && r.remaining == -1,
    {
        KsMaterial { width_mm: 40, height_mm: 30, remaining: -1 }
    }
}

} // verus!
