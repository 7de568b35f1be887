//! Instants written as RFC 3339 text and read back, through `chrono`.

use vstd::prelude::*;

verus! {

/// What `chrono::DateTime::parse_from_rfc3339` gives for a text: the instant in
/// microseconds since the epoch, or the `Display` text of chrono's error.
pub uninterp spec fn rfc3339_instant(text: Seq<char>) -> Result<i64, Seq<char>>;

/// `chrono::DateTime::parse_from_rfc3339(text)`, the instant taken by
/// `timestamp_micros` and the error by its `Display` text. Which texts chrono
/// accepts, and its messages, are only named.
#[verifier::external_body]
pub(crate) fn parse_rfc3339(text: &str) -> (r: Result<i64, String>)
    ensures
        (match rfc3339_instant(text@) {
            Ok(v) => r matches Ok(w) && w == v,
            Err(m) => r matches Err(e) && e@ == m,
        }),
{
    match chrono::DateTime::parse_from_rfc3339(text) {
        Ok(t) => Ok(t.timestamp_micros()),
        Err(e) => Err(e.to_string()),
    }
}

/// The RFC 3339 text, to the second and in UTC with `Z`, that `chrono` writes for
/// the instant `t` microseconds after the epoch.
pub uninterp spec fn rfc3339_text(t: i64) -> Seq<char>;

/// The first instant of the year 0 (proleptic Gregorian), in microseconds since the epoch.
pub const YEAR_0_MICROS: i64 = -62167219200000000;

/// The first instant whose year has five digits, in microseconds since the epoch.
pub const YEAR_10000_MICROS: i64 = 253402300800000000;

/// `chrono::DateTime::from_timestamp_micros(t)` written by
/// `to_rfc3339_opts(SecondsFormat::Secs, true)`: `YYYY-MM-DDTHH:MM:SSZ` for the
/// years 0 to 9999, the fraction of the second dropped (an instant chrono cannot
/// hold gives the empty text). chrono's RFC 3339 parser reads a four-digit year
/// back, so a whole second from the year 0 up to the year 10000 reads back as
/// itself; the text itself is only named.
#[verifier::external_body]
pub(crate) fn format_rfc3339(t: i64) -> (r: String)
    ensures
        r@ == rfc3339_text(t),
        (YEAR_0_MICROS <= t < YEAR_10000_MICROS && t % 1_000_000 == 0 ==> rfc3339_instant(r@) == Ok::<i64, Seq<char>>(t)),
{
    match chrono::DateTime::from_timestamp_micros(t) {
        Some(d) => d.to_rfc3339_opts(chrono::SecondsFormat::Secs, true),
        None => String::new(),
    }
}

} // verus!
