//! Points in time, as carried by date-time elements.

use vstd::prelude::*;

verus! {

/// An instant: whole seconds since the Unix epoch, and nanoseconds past that second.
#[derive(Clone, Copy, Debug, PartialEq, Eq, Structural)]
pub struct Timestamp {
    pub seconds: i64,
    pub nanos: u32,
}

/// The instant that an RFC 3339 timestamp denotes, if `s` is one.
pub uninterp spec fn rfc3339_instant(s: Seq<char>) -> Option<(i64, u32)>;

/// Relies on chrono's `DateTime::parse_from_rfc3339`, read back as seconds and
/// nanoseconds since the epoch: the outcome depends on the text alone.
#[verifier::external_body]
pub(crate) fn parse_rfc3339(s: &str) -> (r: Result<Timestamp, chrono::format::ParseError>)
    ensures
        r is Ok <==> rfc3339_instant(s@) is Some,
        r is Ok ==> rfc3339_instant(s@) == Some((r->Ok_0.seconds, r->Ok_0.nanos)),
{
    chrono::DateTime::parse_from_rfc3339(s).map(
        |d| Timestamp { seconds: d.timestamp(), nanos: d.timestamp_subsec_nanos() },
    )
}

} // verus!
