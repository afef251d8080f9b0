//! The state of a library scan and the message of its toast.

use crate::timefmt::{decimal, push_decimal};
use vstd::prelude::*;
use vstd::string::*;

verus! {

/// Progress of a library scan.
#[derive(Clone, Copy, PartialEq, Eq, Debug, Structural)]
pub struct ScanningStatusInner {
    pub is_scanning: bool,
    pub is_discovering: bool,
    pub is_processing: bool,
    pub discovered: usize,
    pub total: usize,
    pub processed: usize,
}

impl ScanningStatusInner {
    /// No scan under way, nothing counted.
    pub fn new() -> (s: Self)
        ensures
            s == (ScanningStatusInner {
                is_scanning: false,
                is_discovering: false,
                is_processing: false,
                discovered: 0,
                total: 0,
                processed: 0,
            }),
    {
        ScanningStatusInner {
            is_scanning: false,
            is_discovering: false,
            is_processing: false,
            discovered: 0,
            total: 0,
            processed: 0,
        }
    }
}

/// The toast that shows the progress of a scan.
#[derive(Clone, Copy, Debug)]
pub struct ScanningStatusToast;

impl ScanningStatusToast {
    /// Creates the scan progress toast.
    pub fn new() -> (t: ScanningStatusToast)
        ensures
            t == ScanningStatusToast,
    {
        ScanningStatusToast
    }
}

/// The message of the scan toast: the files found while discovering, the
/// tracks processed while processing, and a waiting message before either.
pub open spec fn scan_message_text(s: ScanningStatusInner) -> Seq<char> {
    if s.is_discovering {
        "Scanning for files\u{2026} ("@ + decimal(s.discovered as nat) + " found)"@
    } else if s.is_processing {
        "Processing "@ + decimal(s.processed as nat) + " of "@ + decimal(s.total as nat) + " tracks"@
    } else {
        "Preparing scan\u{2026}"@
    }
}

/// Writes the message of the scan toast.
pub fn scan_message(s: &ScanningStatusInner) -> (r: String)
    ensures
        r@ == scan_message_text(*s),
{
    if s.is_discovering {
        let mut m = String::from_str("Scanning for files\u{2026} (");
        push_decimal(&mut m, s.discovered as u64);
        m.append(" found)");
        m
    } else if s.is_processing {
        let mut m = String::from_str("Processing ");
        push_decimal(&mut m, s.processed as u64);
        m.append(" of ");
        push_decimal(&mut m, s.total as u64);
        m.append(" tracks");
        m
    } else {
        String::from_str("Preparing scan\u{2026}")
    }
}

} // verus!
