//! Points in time, as the store keeps them and as the schema writes them.

use vstd::pervasive::unreached;
use vstd::prelude::*;

verus! {

/// The RFC 3339 text, in UTC with whole seconds and a closing `Z`, of the
/// point in time that lies `secs` seconds and `nanos` nanoseconds after the
/// start of 1970; `None` where the calendar in use cannot represent that
/// point.
pub uninterp spec fn utc_text(secs: int, nanos: int) -> Option<Seq<char>>;

/// `DateTime::<Utc>::from_timestamp`, the result written out with
/// `to_rfc3339_opts(SecondsFormat::Secs, true)`. Seconds out of the calendar's
/// range, or nanoseconds that are no valid fraction, give `None`.
#[verifier::external_body]
fn rfc3339_seconds(secs: i64, nanos: u32) -> (text: Option<String>)
    ensures
        match text {
            Some(t) => utc_text(secs as int, nanos as int) == Some(t@),
            None => utc_text(secs as int, nanos as int) is None,
        },
{
    match chrono::DateTime::<chrono::Utc>::from_timestamp(secs, nanos) {
        Some(t) => Some(t.to_rfc3339_opts(chrono::SecondsFormat::Secs, true)),
        None => None,
    }
}

/// A point in time that the calendar can represent, in UTC.
#[derive(Clone, Copy, Debug, PartialEq, Eq)]
pub struct Timestamp {
    secs: i64,
    nanos: u32,
}

impl Timestamp {
    #[verifier::type_invariant]
    spec fn representable(&self) -> bool {
        utc_text(self.secs as int, self.nanos as int) is Some
    }

    /// Whole seconds since the start of 1970.
    pub closed spec fn spec_secs(&self) -> int {
        self.secs as int
    }

    /// Nanoseconds since the last whole second.
    pub closed spec fn spec_nanos(&self) -> int {
        self.nanos as int
    }

    /// The RFC 3339 text of this point in time.
    pub open spec fn spec_text(&self) -> Seq<char> {
        utc_text(self.spec_secs(), self.spec_nanos())->0
    }

    /// The point in time `secs` seconds and `nanos` nanoseconds after the
    /// start of 1970, where the calendar can represent it.
    pub fn from_timestamp(secs: i64, nanos: u32) -> (r: Option<Timestamp>)
        ensures
            r is Some <==> utc_text(secs as int, nanos as int) is Some,
            r matches Some(t) ==> t.spec_secs() == secs && t.spec_nanos() == nanos,
    {
        match rfc3339_seconds(secs, nanos) {
            Some(_) => Some(Timestamp { secs, nanos }),
            None => None,
        }
    }

    /// Whole seconds since the start of 1970.
    pub fn secs(&self) -> (r: i64)
        ensures
            r == self.spec_secs(),
    {
        self.secs
    }

    /// Nanoseconds since the last whole second.
    pub fn nanos(&self) -> (r: u32)
        ensures
            r == self.spec_nanos(),
    {
        self.nanos
    }

    /// The RFC 3339 text of this point in time: UTC, whole seconds, ending
    /// in `Z`.
    pub fn to_rfc3339(&self) -> (r: String)
        ensures
            utc_text(self.spec_secs(), self.spec_nanos()) == Some(r@),
    {
        proof {
            use_type_invariant(self);
        }
        match rfc3339_seconds(self.secs, self.nanos) {
            Some(text) => text,
            None => unreached(),
        }
    }
}

} // verus!
