//! Timestamp handling. Date-time texts are resolved against a fixed,
//! ordered list of format patterns; the actual calendar arithmetic is
//! chrono's, reached through trusted wrappers whose results are named by
//! uninterpreted functions (the outcome depends on the text and the format
//! pattern alone).

use vstd::prelude::*;

use crate::text::spec_parse_i64;
use crate::text::spec_underscores_to_spaces;
use crate::text::parse_i64;
use crate::text::underscores_to_spaces;

verus! {

/// What chrono yields for a date-time text under a format pattern: `None`
/// where the text does not match the pattern, otherwise the instant's
/// non-leap nanoseconds since the Unix epoch, with `0` standing in where the
/// instant lies outside the nanosecond range.
pub uninterp spec fn chrono_parse_ns(s: Seq<char>, fmt: Seq<char>) -> Option<i64>;

/// Relies on `chrono::NaiveDateTime::parse_from_str` and
/// `chrono::DateTime::timestamp_nanos_opt`: whether the text matches the
/// format, and the matched instant's epoch nanoseconds, depend only on the
/// text and the format.
#[verifier::external_body]
fn parse_ns(s: &str, fmt: &str) -> (r: Option<i64>)
    ensures
        r == chrono_parse_ns(s@, fmt@),
{
    chrono::NaiveDateTime::parse_from_str(s, fmt)
        .ok()
        .map(|d| d.and_utc().timestamp_nanos_opt().unwrap_or(0))
}

/// What chrono yields for a count of epoch seconds: `None` where the count
/// lies outside chrono's representable range, otherwise the instant's epoch
/// nanoseconds, with `0` standing in where they overflow.
pub uninterp spec fn epoch_ns_of(secs: i64) -> Option<i64>;

/// Relies on `chrono::DateTime::from_timestamp` and
/// `chrono::DateTime::timestamp_nanos_opt`: the result depends only on the
/// second count.
#[verifier::external_body]
fn epoch_seconds_to_ns(secs: i64) -> (r: Option<i64>)
    ensures
        r == epoch_ns_of(secs),
{
    chrono::DateTime::from_timestamp(secs, 0).map(|d| d.timestamp_nanos_opt().unwrap_or(0))
}

/// The timestamp a tabular cell resolves to: an empty cell means "now";
/// otherwise the first of seven date-time format patterns that matches
/// wins; otherwise the cell is read as epoch seconds; otherwise the cell is
/// unusable.
pub open spec fn spec_parse_timestamp(value: Seq<char>, now_ns: i64) -> Option<i64> {
    if value.len() == 0 {
        Some(now_ns)
    } else if chrono_parse_ns(value, "%Y-%m-%d %H:%M:%S"@) is Some {
        chrono_parse_ns(value, "%Y-%m-%d %H:%M:%S"@)
    } else if chrono_parse_ns(value, "%Y/%m/%d %H:%M:%S"@) is Some {
        chrono_parse_ns(value, "%Y/%m/%d %H:%M:%S"@)
    } else if chrono_parse_ns(value, "%d.%m.%Y %H:%M:%S"@) is Some {
        chrono_parse_ns(value, "%d.%m.%Y %H:%M:%S"@)
    } else if chrono_parse_ns(value, "%Y-%m-%d %H:%M:%S%.3f"@) is Some {
        chrono_parse_ns(value, "%Y-%m-%d %H:%M:%S%.3f"@)
    } else if chrono_parse_ns(value, "%Y-%m-%dT%H:%M:%S"@) is Some {
        chrono_parse_ns(value, "%Y-%m-%dT%H:%M:%S"@)
    } else if chrono_parse_ns(value, "%Y-%m-%dT%H:%M:%SZ"@) is Some {
        chrono_parse_ns(value, "%Y-%m-%dT%H:%M:%SZ"@)
    } else if chrono_parse_ns(value, "%Y-%m-%dT%H:%M:%S%.3fZ"@) is Some {
        chrono_parse_ns(value, "%Y-%m-%dT%H:%M:%S%.3fZ"@)
    } else {
        match spec_parse_i64(value) {
            Some(s) => epoch_ns_of(s),
            None => None,
        }
    }
}

/// Resolves a tabular timestamp cell. An empty cell yields `now_ns`, never
/// a failure; `None` comes exactly where no format matches and the cell is
/// no usable epoch-second count.
pub fn parse_timestamp(value: &str, now_ns: i64) -> (r: Option<i64>)
    ensures
        r == spec_parse_timestamp(value@, now_ns),
        value@.len() == 0 ==> r == Some(now_ns),
{
    if value.is_empty() {
        return Some(now_ns);
    }
    if let Some(n) = parse_ns(value, "%Y-%m-%d %H:%M:%S") {
        return Some(n);
    }
    if let Some(n) = parse_ns(value, "%Y/%m/%d %H:%M:%S") {
        return Some(n);
    }
    if let Some(n) = parse_ns(value, "%d.%m.%Y %H:%M:%S") {
        return Some(n);
    }
    if let Some(n) = parse_ns(value, "%Y-%m-%d %H:%M:%S%.3f") {
        return Some(n);
    }
    if let Some(n) = parse_ns(value, "%Y-%m-%dT%H:%M:%S") {
        return Some(n);
    }
    if let Some(n) = parse_ns(value, "%Y-%m-%dT%H:%M:%SZ") {
        return Some(n);
    }
    if let Some(n) = parse_ns(value, "%Y-%m-%dT%H:%M:%S%.3fZ") {
        return Some(n);
    }
    match parse_i64(value) {
        Some(s) => epoch_seconds_to_ns(s),
        None => None,
    }
}

/// The timestamp a placemark time text resolves to: underscores are first
/// replaced by spaces, then the first of four format patterns that matches
/// wins. There is no fallback — an unmatched text is an error, never "now".
pub open spec fn spec_parse_kml_timestamp(t: Seq<char>) -> Option<i64> {
    let cleaned = spec_underscores_to_spaces(t);
    if chrono_parse_ns(cleaned, "%Y.%m.%d %H.%M.%S"@) is Some {
        chrono_parse_ns(cleaned, "%Y.%m.%d %H.%M.%S"@)
    } else if chrono_parse_ns(cleaned, "%Y.%m.%d_%H.%M.%S"@) is Some {
        chrono_parse_ns(cleaned, "%Y.%m.%d_%H.%M.%S"@)
    } else if chrono_parse_ns(cleaned, "%Y-%m-%d %H:%M:%S"@) is Some {
        chrono_parse_ns(cleaned, "%Y-%m-%d %H:%M:%S"@)
    } else if chrono_parse_ns(cleaned, "%Y/%m/%d %H:%M:%S"@) is Some {
        chrono_parse_ns(cleaned, "%Y/%m/%d %H:%M:%S"@)
    } else {
        None
    }
}

/// Resolves a placemark time text such as `2025.10.03_10.20.09`. `None`
/// comes exactly where none of the four patterns matches the cleaned text.
pub fn parse_kml_timestamp(t: &str) -> (r: Option<i64>)
    ensures
        r == spec_parse_kml_timestamp(t@),
{
    let cleaned = underscores_to_spaces(t);
    if let Some(n) = parse_ns(cleaned.as_str(), "%Y.%m.%d %H.%M.%S") {
        return Some(n);
    }
    if let Some(n) = parse_ns(cleaned.as_str(), "%Y.%m.%d_%H.%M.%S") {
        return Some(n);
    }
    if let Some(n) = parse_ns(cleaned.as_str(), "%Y-%m-%d %H:%M:%S") {
        return Some(n);
    }
    if let Some(n) = parse_ns(cleaned.as_str(), "%Y/%m/%d %H:%M:%S") {
        return Some(n);
    }
    None
}

} // verus!
