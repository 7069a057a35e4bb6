//! The wall clock, read through the chrono crates.
//!
//! The scheduler computes its fetch window from "now" in a fixed civil
//! timezone; everything downstream of the reading is verified against the
//! components as plain values.

use crate::datetime::DateTimeParts;
use vstd::prelude::*;

verus! {

/// Relies on chrono's `Utc::now` and chrono-tz's `Asia::Bangkok` timezone
/// conversion: the civil components of the current instant in the fixed
/// civil timezone. chrono's `Datelike`/`Timelike` accessors yield a month
/// of 1 to 12, a day valid for that month, an hour below 24 and a minute
/// and second below 60; the wall clock lies within years 1 to 9999.
#[verifier::external_body]
pub fn now_bangkok() -> (r: DateTimeParts)
    ensures
        r.wf(),
{
    let now = chrono::Utc::now().with_timezone(&chrono_tz::Asia::Bangkok);
    DateTimeParts {
        year: chrono::Datelike::year(&now) as u32,
        month: chrono::Datelike::month(&now) as u8,
        day: chrono::Datelike::day(&now) as u8,
        hour: chrono::Timelike::hour(&now) as u8,
        minute: chrono::Timelike::minute(&now) as u8,
        second: chrono::Timelike::second(&now) as u8,
    }
}

/// Relies on chrono's `Utc::now` and `DateTime::to_rfc3339`: the current
/// instant in RFC 3339 form. Nothing is assumed of the value; callers
/// treat it as an opaque default for a missing source timestamp.
#[verifier::external_body]
pub fn now_utc_rfc3339() -> (r: String) {
    chrono::Utc::now().to_rfc3339()
}

} // verus!
