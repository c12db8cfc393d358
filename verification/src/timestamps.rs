//! Host timestamps: seconds since the epoch, and their ISO-8601 notation.

use vstd::prelude::*;

use crate::text::{
    parse_i64, parsed_i64, signed_decimal, signed_decimal_reads_back, signed_decimal_text,
};

verus! {

/// How the library writes a date and time.
pub const WRITE_FORMAT: &'static str = "%Y-%m-%dT%H:%M:%S.000Z";

/// How the library reads a date and time that is no RFC 3339.
pub const READ_FORMAT: &'static str = "%Y-%m-%dT%H:%M:%S%.fZ";

/// The UTC date and time of `secs` seconds since the epoch, as `chrono` writes
/// it in a format; `None` beyond the years that it knows.
pub uninterp spec fn utc_text(secs: i64, format: Seq<char>) -> Option<Seq<char>>;

/// The seconds since the epoch that `chrono` reads in an RFC 3339 text.
pub uninterp spec fn rfc3339_secs(s: Seq<char>) -> Option<i64>;

/// The seconds since the epoch that `chrono` reads in a text in a format.
pub uninterp spec fn naive_utc_secs(s: Seq<char>, format: Seq<char>) -> Option<i64>;

/// The seconds that a date and time denotes: read as RFC 3339, or else with a
/// year of any length.
pub open spec fn instant_secs(s: Seq<char>) -> Option<i64> {
    match rfc3339_secs(s) {
        Some(n) => Some(n),
        None => naive_utc_secs(s, READ_FORMAT@),
    }
}

/// `chrono::DateTime::from_timestamp` and `format`: the text is a function of
/// the seconds and the format. In the format of the library it holds a `T`, and
/// reads back as the same seconds (as RFC 3339 where the year has four digits,
/// else with its signed year). What else the text is is left unsaid. Another
/// format is not asked for: with one that `chrono` does not know it would panic.
#[verifier::external_body]
fn format_utc(secs: i64, format: &str) -> (r: Option<String>)
    requires
        format@ == WRITE_FORMAT@,
    ensures
        r.deep_view() == utc_text(secs, format@),
        r matches Some(t) ==> t@.contains('T') && instant_secs(t@) == Some(secs),
{
    chrono::DateTime::<chrono::Utc>::from_timestamp(secs, 0).map(
        |dt| dt.format(format).to_string(),
    )
}

/// `chrono::DateTime::parse_from_rfc3339` and `timestamp`: the seconds are a
/// function of the text. Which texts it reads is left unsaid.
#[verifier::external_body]
fn parse_rfc3339(s: &str) -> (r: Option<i64>)
    ensures
        r == rfc3339_secs(s@),
{
    chrono::DateTime::parse_from_rfc3339(s).ok().map(|dt| dt.timestamp())
}

/// `chrono::NaiveDateTime::parse_from_str` and `and_utc().timestamp()`: the
/// seconds are a function of the text and the format. Which texts it reads is
/// left unsaid.
#[verifier::external_body]
fn parse_naive_utc(s: &str, format: &str) -> (r: Option<i64>)
    ensures
        r == naive_utc_secs(s@, format@),
{
    chrono::NaiveDateTime::parse_from_str(s, format).ok().map(|dt| dt.and_utc().timestamp())
}

/// The ISO-8601 notation of `secs`; the bare number where there is none.
pub open spec fn iso_of(secs: i64) -> Seq<char> {
    match utc_text(secs, WRITE_FORMAT@) {
        Some(t) => t,
        None => signed_decimal(secs as int),
    }
}

/// Host seconds as an ISO-8601 UTC text; the bare number where there is none.
/// Reading the text back gives the seconds.
pub fn unix_secs_to_iso(secs: i64) -> (r: String)
    ensures
        r@ == iso_of(secs),
        secs_of_iso(r@) == Some(secs),
{
    match format_utc(secs, WRITE_FORMAT) {
        Some(t) => {
            proof {
                lemma_letter_is_no_number(t@);
            }
            t
        },
        None => {
            proof {
                signed_decimal_reads_back(secs);
            }
            signed_decimal_text(secs as i128)
        },
    }
}

/// The seconds that a text denotes: a bare number, or a date and time.
pub open spec fn secs_of_iso(s: Seq<char>) -> Option<i64> {
    match parsed_i64(s) {
        Some(n) => Some(n),
        None => instant_secs(s),
    }
}

/// The seconds that a text denotes: a bare number, or a date and time.
pub fn iso_to_unix_secs(iso: &str) -> (r: Option<i64>)
    ensures
        r == secs_of_iso(iso@),
{
    match parse_i64(iso) {
        Some(n) => Some(n),
        None => match parse_rfc3339(iso) {
            Some(n) => Some(n),
            None => parse_naive_utc(iso, READ_FORMAT),
        },
    }
}

proof fn lemma_letter_is_no_number(s: Seq<char>)
    requires
        s.contains('T'),
    ensures
        parsed_i64(s) is None,
{
    let i = choose|i: int| 0 <= i < s.len() && s[i] == 'T';
    let body = if s.len() > 0 && (s[0] == '-' || s[0] == '+') {
        s.subrange(1, s.len() as int)
    } else {
        s
    };
    if s.len() > 0 && (s[0] == '-' || s[0] == '+') {
        assert(body[i - 1] == 'T');
    } else {
        assert(body[i] == 'T');
    }
}

} // verus!
