use chrono::TimeZone;
use vstd::prelude::*;

verus! {

/// Whether chrono can date the second `secs` after the epoch.
pub open spec fn utc_seconds_in_range(secs: i64) -> bool {
    -8_334_601_228_800 <= secs <= 8_210_266_876_799
}

/// The instant `secs` seconds after the Unix epoch, in milliseconds:
/// `chrono::Utc.timestamp_opt(secs, 0).single()` and then `timestamp_millis`. chrono answers
/// `None` for a second outside its range of dates, the years -262143 to 262142 (`MIN_YEAR` and
/// `MAX_YEAR` in its source): -262143-01-01T00:00:00 is second -8_334_601_228_800 and
/// 262142-12-31T23:59:59 is second 8_210_266_876_799. Within that range it gives that second,
/// whose millisecond timestamp is `secs * 1000`.
#[verifier::external_body]
pub(crate) fn utc_seconds_to_millis(secs: i64) -> (r: Option<i64>)
    ensures
        r is Some <==> utc_seconds_in_range(secs),
        r is Some ==> r->0 == secs * 1000,
{
    chrono::Utc.timestamp_opt(secs, 0).single().map(|t| t.timestamp_millis())
}

/// The identifier of a new object: `prefix`, a hyphen and a unique part (in the daemon, a fresh
/// compact uuid).
pub open spec fn object_id(prefix: Seq<char>, unique: Seq<char>) -> Seq<char> {
    prefix + "-"@ + unique
}

/// The identifier of a new object from its prefix and unique part.
pub fn new_object_id(prefix: &str, unique: &str) -> (r: String)
    ensures
        r@ == object_id(prefix@, unique@),
{
    crate::text::cat3(prefix, "-", unique)
}

} // verus!
