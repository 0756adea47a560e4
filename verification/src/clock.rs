//! Dates as the report and the test message show them.

use vstd::prelude::*;

verus! {

broadcast use vstd::string::group_string_axioms;

/// The first second of the year 0, counted from the Unix epoch.
pub const FIRST_SECOND: i64 = -62167219200;

/// The last second of the year 9999, counted from the Unix epoch.
pub const LAST_SECOND: i64 = 253402300799;

/// A second of the years 0 to 9999.
pub open spec fn datable(seconds: i64) -> bool {
    FIRST_SECOND <= seconds <= LAST_SECOND
}

/// A UTC time, given in seconds since the Unix epoch, written by a pattern of conversions, or
/// nothing where the time is too far away for a calendar date.
pub uninterp spec fn utc_text(seconds: i64, pattern: Seq<char>) -> Option<Seq<char>>;

/// A UTC time, given in seconds since the Unix epoch, as an RFC 2822 date.
pub uninterp spec fn rfc2822_text(seconds: i64) -> Seq<char>;

/// `chrono::DateTime::from_timestamp` and `format` are functions of the time and the pattern.
/// An unknown conversion would make the output panic, so the one pattern in use is required;
/// every second of the years 0 to 9999 has a calendar date.
#[verifier::external_body]
fn format_utc(seconds: i64, pattern: &str) -> (r: Option<String>)
    requires
        pattern@ == "%Y-%m-%d %H:%M:%S UTC"@,
    ensures
        r.deep_view() == utc_text(seconds, pattern@),
        datable(seconds) ==> r is Some,
{
    Some(chrono::DateTime::from_timestamp(seconds, 0)?.format(pattern).to_string())
}

/// `chrono::DateTime::to_rfc2822` is a function of the time. It panics outside the years 0 to
/// 9999, which are required.
#[verifier::external_body]
fn format_rfc2822(seconds: i64) -> (s: String)
    requires
        datable(seconds),
    ensures
        s@ == rfc2822_text(seconds),
{
    chrono::DateTime::from_timestamp(seconds, 0).unwrap().to_rfc2822()
}

/// When a domain was assessed, as the report shows it.
pub fn scan_timestamp(seconds: i64) -> (r: Option<String>)
    ensures
        r.deep_view() == utc_text(seconds, "%Y-%m-%d %H:%M:%S UTC"@),
        datable(seconds) ==> r is Some,
{
    format_utc(seconds, "%Y-%m-%d %H:%M:%S UTC")
}

/// The date of a message: an RFC 2822 date within the years 0 to 9999, and nothing beyond.
pub open spec fn date_text(seconds: i64) -> Option<Seq<char>> {
    if datable(seconds) {
        Some(rfc2822_text(seconds))
    } else {
        None
    }
}

/// The date of a message.
pub fn message_date(seconds: i64) -> (r: Option<String>)
    ensures
        r.deep_view() == date_text(seconds),
{
    if FIRST_SECOND <= seconds && seconds <= LAST_SECOND {
        Some(format_rfc2822(seconds))
    } else {
        None
    }
}

/// A second has an RFC 2822 date exactly in the years 0 to 9999, which begin 719,528 days before the
/// Unix epoch and end 2,932,897 days after it.
pub proof fn law_dates_span_ten_thousand_years(seconds: i64)
    ensures
        date_text(seconds) is Some <==> -719_528 * 86_400 <= seconds < 2_932_897 * 86_400,
        date_text(seconds) is Some ==> date_text(seconds)->0 == rfc2822_text(seconds),
        datable(seconds) <==> date_text(seconds) is Some,
{
}

} // verus!
