//! Wall-clock sampling, the injected capability at the edge of the library.
//!
//! Every function here either is a trusted wrapper around chrono or glues
//! such wrappers together. A clock sample depends on the wall clock, so no
//! wrapper promises anything about the value it returns; everything the
//! library guarantees holds for whatever sample came back.

use vstd::prelude::*;

use crate::session::Timestamp;

verus! {

/// Relies on `chrono::Local::now`, `DateTime::format` with
/// `"%Y-%m-%d %H:%M:%S"` and `DateTime::timestamp`: the current local
/// instant, formatted to second precision, with its whole seconds since the
/// epoch. The result depends on the wall clock, so nothing is promised of it.
#[verifier::external_body]
fn now_local() -> (r: (String, i64)) {
    let t = chrono::Local::now();
    (t.format("%Y-%m-%d %H:%M:%S").to_string(), t.timestamp())
}

/// Relies on `chrono::Utc::now` and `DateTime::format` with
/// `"%Y-%m-%d %H:%M:%S"`: the current UTC instant formatted to second
/// precision. The result depends on the wall clock, so nothing is promised of
/// it.
#[verifier::external_body]
fn now_utc() -> (r: String) {
    chrono::Utc::now().format("%Y-%m-%d %H:%M:%S").to_string()
}

/// Relies on `chrono::Local::now` and `DateTime::format` with
/// `"%Y%m%d_%H%M%S"`: a filesystem-safe token of the current local instant.
/// The result depends on the wall clock, so nothing is promised of it.
#[verifier::external_body]
pub(crate) fn filename_stamp() -> (r: String) {
    chrono::Local::now().format("%Y%m%d_%H%M%S").to_string()
}

/// One fresh sample of the clock: the formatted local and UTC instants and
/// the local epoch seconds, taken together.
pub fn now_timestamp() -> (r: Timestamp) {
    let (local, secs) = now_local();
    let utc = now_utc();
    Timestamp { local, utc, secs }
}

} // verus!
