//! RFC 3339 date bounds of a search.
use vstd::prelude::*;
use vstd::string::*;

use crate::error::{reports, MailError, Result};

verus! {

/// The instant that chrono's `DateTime::parse_from_rfc3339` reads from `text`,
/// as whole seconds since the Unix epoch and the nanoseconds within that
/// second; `None` when chrono rejects the text.
pub uninterp spec fn rfc3339_instant(text: Seq<char>) -> Option<(i64, u32)>;

/// Parses an RFC 3339 timestamp with chrono.
///
/// Trusted: the result is chrono's `DateTime::parse_from_rfc3339(text)`,
/// taken as `(timestamp(), timestamp_subsec_nanos())` on success. Chrono
/// orders such date-times by exactly this pair.
#[verifier::external_body]
fn parse_rfc3339(text: &str) -> (r: Option<(i64, u32)>)
    ensures
        r == rfc3339_instant(text@),
{
    match chrono::DateTime::parse_from_rfc3339(text) {
        Ok(instant) => Some((instant.timestamp(), instant.timestamp_subsec_nanos())),
        Err(_) => None,
    }
}

/// `a` is strictly earlier than `b`.
pub open spec fn earlier(a: (i64, u32), b: (i64, u32)) -> bool {
    a.0 < b.0 || (a.0 == b.0 && a.1 < b.1)
}

/// The instant of an optional bound.
pub open spec fn bound_instant(bound: Option<Seq<char>>) -> Option<(i64, u32)> {
    match bound {
        Some(text) => rfc3339_instant(text),
        None => None,
    }
}

/// The problem with an optional date bound named `name`, if any.
pub open spec fn date_bound_problem(name: Seq<char>, bound: Option<Seq<char>>) -> Option<
    Seq<char>,
> {
    match bound {
        Some(text) => if rfc3339_instant(text) is None {
            Some(name + " must be an RFC 3339 timestamp"@)
        } else {
            None
        },
        None => None,
    }
}

/// The problem with a pair of parsed bounds, if any: when both are given the
/// lower one must come strictly before the upper one.
pub open spec fn window_problem(after: Option<(i64, u32)>, before: Option<(i64, u32)>) -> Option<
    Seq<char>,
> {
    match (after, before) {
        (Some(a), Some(b)) => if earlier(a, b) {
            None
        } else {
            Some("received after must be earlier than received before"@)
        },
        _ => None,
    }
}

/// Checks an optional RFC 3339 bound and returns its instant.
pub fn validate_date_bound(name: &str, bound: &Option<String>) -> (r: Result<Option<(i64, u32)>>)
    ensures
        reports(r, date_bound_problem(name@, bound.deep_view())),
        r matches Ok(instant) ==> instant == bound_instant(bound.deep_view()),
{
    match bound {
        Some(text) => match parse_rfc3339(text.as_str()) {
            Some(instant) => Ok(Some(instant)),
            None => {
                let mut message = name.to_owned();
                message.append(" must be an RFC 3339 timestamp");
                Err(MailError::Validation(message))
            },
        },
        None => Ok(None),
    }
}

/// Checks that a lower received-date bound comes strictly before an upper one.
pub fn check_received_window(after: Option<(i64, u32)>, before: Option<(i64, u32)>) -> (r: Result<
    (),
>)
    ensures
        reports(r, window_problem(after, before)),
{
    match (after, before) {
        (Some(a), Some(b)) => {
            if a.0 < b.0 || (a.0 == b.0 && a.1 < b.1) {
                Ok(())
            } else {
                Err(MailError::validation("received after must be earlier than received before"))
            }
        },
        _ => Ok(()),
    }
}

} // verus!
