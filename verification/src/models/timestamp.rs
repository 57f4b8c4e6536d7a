use vstd::prelude::*;

verus! {

/// A point in time as the database stores it (a `timestamp` column without
/// time zone), held as whole seconds since 1970-01-01 00:00:00 and the
/// nanoseconds within that second.
#[derive(Clone, Copy, Debug, PartialEq, Eq, Structural)]
pub struct Timestamp {
    pub secs: i64,
    pub nanos: u32,
}

/// The text that chrono displays for the naive date-time `secs` seconds and
/// `nanos` nanoseconds after 1970-01-01 00:00:00, or `None` where chrono has
/// no such date-time.
pub uninterp spec fn timestamp_text(secs: int, nanos: int) -> Option<Seq<char>>;

/// Whether chrono surely has a date-time for `secs` seconds and `nanos`
/// nanoseconds after 1970-01-01 00:00:00: the nanoseconds are under one
/// second and the seconds stay within about 253,000 years of 1970, well
/// inside chrono's years -262144 to 262143.
pub open spec fn within_display_range(secs: int, nanos: int) -> bool {
    -8_000_000_000_000 <= secs <= 8_000_000_000_000 && 0 <= nanos < 1_000_000_000
}

/// Calls `chrono::NaiveDateTime::from_timestamp_opt` on the two numbers and,
/// where it gives a date-time, returns chrono's `Display` text for it
/// (`2015-09-05 23:56:04.5`). The contract claims that the result is the
/// named function of the two numbers, and that there is a text wherever the
/// numbers are within [`within_display_range`] (chrono gives `None` only
/// for a day outside its years or a time of day it has not); what the text
/// looks like is chrono's and is not stated here.
#[verifier::external_body]
#[allow(deprecated)]
pub(crate) fn display_text(at: &Timestamp) -> (text: Option<String>)
    ensures
        match text {
            Some(t) => timestamp_text(at.secs as int, at.nanos as int) == Some(t@),
            None => timestamp_text(at.secs as int, at.nanos as int) is None,
        },
        within_display_range(at.secs as int, at.nanos as int) ==> text is Some,
{
    match chrono::NaiveDateTime::from_timestamp_opt(at.secs, at.nanos) {
        Some(t) => Some(t.to_string()),
        None => None,
    }
}

} // verus!
