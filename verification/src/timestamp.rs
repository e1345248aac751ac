//! The modification timestamp of an entry: a plain count of seconds since
//! the epoch, rendered once into the `day-month-year hour:minute` display
//! form of the local time zone.

use vstd::prelude::*;

verus! {

/// Relies on `chrono::TimeZone::timestamp_opt` on `chrono::Local` and
/// `chrono::DateTime::format` with the fixed layout `%d-%m-%Y %H:%M`. The
/// text depends on the machine's time zone, so little is promised of it: a
/// timestamp the zone cannot place yields the empty string, and otherwise
/// each zero-padded field meets its minimum width (two digits for day,
/// month, hour and minute, four for the year) around the four literal
/// separators, sixteen characters at least.
#[verifier::external_body]
pub fn format_time(secs: i64) -> (r: String)
    ensures
        r@.len() == 0 || r@.len() >= 16,
{
    match chrono::TimeZone::timestamp_opt(&chrono::Local, secs, 0) {
        chrono::LocalResult::Single(t) => t.format("%d-%m-%Y %H:%M").to_string(),
        chrono::LocalResult::Ambiguous(t, _) => t.format("%d-%m-%Y %H:%M").to_string(),
        chrono::LocalResult::None => String::new(),
    }
}

} // verus!
