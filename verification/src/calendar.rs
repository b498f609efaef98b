//! Calendar time from `chrono`: reading a written date and time, and the
//! clock.
//!
//! What `chrono` computes is not proved here. The instant that it reads from
//! a text is given a name, and the contracts speak of that name.

use crate::metric::Timestamp;
use chrono::TimeZone;
use vstd::prelude::*;

verus! {

/// The UTC instant that `chrono` reads from `text` by the `strftime` pattern
/// `format`, as seconds since the Unix epoch and nanoseconds within the
/// second; `None` where it refuses the text.
pub uninterp spec fn utc_datetime(text: Seq<char>, format: Seq<char>) -> Option<(i64, u32)>;

/// `TimeZone::datetime_from_str` on `Utc`, with `DateTime::timestamp` and
/// `DateTime::timestamp_subsec_nanos` of what it gives: the instant that is
/// read from the text, and `None` exactly where it answers with an error.
/// Trusted, not proved.
#[verifier::external_body]
#[allow(deprecated)]
pub(crate) fn datetime_from_str(text: &str, format: &str) -> (r: Option<Timestamp>)
    ensures
        match r {
            Some(instant) => utc_datetime(text@, format@) == Some(
                (instant.seconds, instant.nanoseconds),
            ),
            None => utc_datetime(text@, format@) is None,
        },
{
    let read = chrono::Utc.datetime_from_str(text, format).ok()?;
    Some(Timestamp { seconds: read.timestamp(), nanoseconds: read.timestamp_subsec_nanos() })
}

/// `Utc::now`, with `DateTime::timestamp` and
/// `DateTime::timestamp_subsec_nanos` of what it gives: the instant at which
/// it is called. Nothing is known of it. Trusted, not proved.
#[verifier::external_body]
pub(crate) fn utc_now() -> Timestamp {
    let now = chrono::Utc::now();
    Timestamp { seconds: now.timestamp(), nanoseconds: now.timestamp_subsec_nanos() }
}

} // verus!
