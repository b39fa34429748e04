//! The current time and fresh identifiers, through `chrono` and `uuid`, and
//! the texts `chrono` writes of a time.
//!
//! A time is an instant in UTC, counted in nanoseconds since 1970-01-01.

use vstd::prelude::*;

verus! {

/// How `chrono` displays the instant (`DateTime<Utc>` with `Display`), e.g.
/// `2024-05-01 12:00:00.123456789 UTC`.
pub uninterp spec fn utc_display_text(nanos: i64) -> Seq<char>;

/// The RFC 3339 text of the instant that `chrono` writes when it serializes
/// it (`to_rfc3339_opts(SecondsFormat::AutoSi, true)`), e.g.
/// `2024-05-01T12:00:00.123456789Z`.
pub uninterp spec fn utc_rfc3339_text(nanos: i64) -> Seq<char>;

/// `Utc::now().timestamp_nanos_opt()`: the current instant, or `None` past the
/// year 2262. Nothing is stated of the value: it is the machine's clock.
#[verifier::external_body]
pub(crate) fn utc_now_nanos() -> Option<i64> {
    chrono::Utc::now().timestamp_nanos_opt()
}

/// The current instant; an instant past what the count can hold is clamped
/// to the largest one.
pub fn now() -> i64 {
    match utc_now_nanos() {
        Some(n) => n,
        None => i64::MAX,
    }
}

/// `DateTime::<Utc>::from_timestamp_nanos(nanos).to_string()`.
#[verifier::external_body]
pub(crate) fn format_utc(nanos: i64) -> (s: String)
    ensures
        s@ == utc_display_text(nanos),
{
    chrono::DateTime::<chrono::Utc>::from_timestamp_nanos(nanos).to_string()
}

/// `DateTime::<Utc>::from_timestamp_nanos(nanos).to_rfc3339_opts(AutoSi, true)`.
#[verifier::external_body]
pub(crate) fn format_rfc3339(nanos: i64) -> (s: String)
    ensures
        s@ == utc_rfc3339_text(nanos),
{
    chrono::DateTime::<chrono::Utc>::from_timestamp_nanos(nanos).to_rfc3339_opts(
        chrono::SecondsFormat::AutoSi,
        true,
    )
}

/// `Uuid::new_v4().to_string()`: a random identifier in the hyphenated form,
/// 36 characters. Its value is chance.
#[verifier::external_body]
pub(crate) fn new_uuid() -> (id: String)
    ensures
        id@.len() == 36,
{
    uuid::Uuid::new_v4().to_string()
}

} // verus!
