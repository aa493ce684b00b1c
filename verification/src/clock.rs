//! The local time, as text.

use vstd::prelude::*;

verus! {

/// Calls `chrono::Local::now()` and renders it as `[YYYY-mm-dd HH:MM:SS]`
/// (`format("[%Y-%m-%d %H:%M:%S]").to_string()`). Nothing is claimed of the text: it
/// depends on the clock and the machine's time zone.
#[verifier::external_body]
pub(crate) fn log_time() -> String {
    chrono::Local::now().format("[%Y-%m-%d %H:%M:%S]").to_string()
}

/// Calls `chrono::Local::now()` and renders it as `YYYYmmddHHMMSS`
/// (`format("%Y%m%d%H%M%S").to_string()`). Nothing is claimed of the text: it depends on
/// the clock and the machine's time zone.
#[verifier::external_body]
pub(crate) fn stamp_time() -> String {
    chrono::Local::now().format("%Y%m%d%H%M%S").to_string()
}

} // verus!
