//! Calendar formatting of Unix timestamps, done by `chrono`.
use vstd::prelude::*;

verus! {

/// The `%Y-%m-%d %H:%M` UTC text that `chrono` gives for a timestamp
/// (the earliest representable date for one it cannot represent).
pub uninterp spec fn utc_minute_text(ts: u64) -> Seq<char>;

/// `chrono::DateTime::from_timestamp(ts, 0)` formatted as `%Y-%m-%d %H:%M`
/// (`DateTime::<Utc>::MIN_UTC` when out of range); the result is named by
/// `utc_minute_text`.
#[verifier::external_body]
pub(crate) fn format_utc_minute(ts: u64) -> (r: String)
    ensures
        r@ == utc_minute_text(ts),
{
    let dt = chrono::DateTime::from_timestamp(ts as i64, 0).unwrap_or(chrono::DateTime::<chrono::Utc>::MIN_UTC);
    dt.format("%Y-%m-%d %H:%M").to_string()
}

/// The `%a, %d %b %Y %H:%M:%S GMT` text that `chrono` gives for a timestamp
/// in UTC.
pub uninterp spec fn rfc_gmt_text(ts: u64) -> Seq<char>;

/// `chrono::DateTime::from_timestamp(ts, 0)` (as `format_utc_minute` reads
/// it) formatted as `%a, %d %b %Y %H:%M:%S GMT`; named by `rfc_gmt_text`.
#[verifier::external_body]
pub(crate) fn format_rfc_gmt(ts: u64) -> (r: String)
    ensures
        r@ == rfc_gmt_text(ts),
{
    let dt = chrono::DateTime::from_timestamp(ts as i64, 0).unwrap_or(chrono::DateTime::<chrono::Utc>::MIN_UTC);
    dt.format("%a, %d %b %Y %H:%M:%S GMT").to_string()
}

/// The `%Y-%m-%dT%H:%M:%SZ` text that `chrono` gives for a timestamp in UTC.
pub uninterp spec fn iso_utc_text(ts: u64) -> Seq<char>;

/// `chrono::DateTime::from_timestamp(ts, 0)` (as `format_utc_minute` reads
/// it) formatted as `%Y-%m-%dT%H:%M:%SZ`; named by `iso_utc_text`.
#[verifier::external_body]
pub(crate) fn format_iso_utc(ts: u64) -> (r: String)
    ensures
        r@ == iso_utc_text(ts),
{
    let dt = chrono::DateTime::from_timestamp(ts as i64, 0).unwrap_or(chrono::DateTime::<chrono::Utc>::MIN_UTC);
    dt.format("%Y-%m-%dT%H:%M:%SZ").to_string()
}

} // verus!
