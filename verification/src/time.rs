//! RFC 3339 timestamps, parsed by `chrono`.

use vstd::prelude::*;

verus! {

/// The instant an RFC 3339 timestamp denotes, as (Unix seconds, sub-second
/// nanoseconds), or `None` when `chrono` rejects the text.
pub uninterp spec fn spec_rfc3339(s: Seq<char>) -> Option<(i64, u32)>;

/// Parse an RFC 3339 timestamp with `chrono::DateTime::parse_from_rfc3339`.
///
/// Trusted: the result is `chrono`'s parse of `s`, read out as the instant's
/// Unix seconds and sub-second nanoseconds; which texts it accepts and the
/// instant it returns are named by [`spec_rfc3339`], not restated here.
#[verifier::external_body]
pub(crate) fn parse_rfc3339(s: &str) -> (r: Option<(i64, u32)>)
    ensures
        r == spec_rfc3339(s@),
{
    match chrono::DateTime::parse_from_rfc3339(s) {
        Ok(d) => Some((d.timestamp(), d.timestamp_subsec_nanos())),
        Err(_) => None,
    }
}

/// `a` is strictly later than `b`.
pub open spec fn later(a: (i64, u32), b: (i64, u32)) -> bool {
    a.0 > b.0 || (a.0 == b.0 && a.1 > b.1)
}

/// Exec: `later`.
pub fn later_exec(a: (i64, u32), b: (i64, u32)) -> (r: bool)
    ensures
        r == later(a, b),
{
    a.0 > b.0 || (a.0 == b.0 && a.1 > b.1)
}

} // verus!
