//! Points in time, and their textual forms.
use vstd::prelude::*;

verus! {

/// `chrono::ParseError`, carried through unread.
#[verifier::external_type_specification]
#[verifier::external_body]
pub struct ExParseError(chrono::ParseError);

/// A point in time on the UTC scale: whole seconds since the start of 1970
/// and the nanoseconds into that second.
#[derive(Clone, Copy, Debug, PartialEq, Eq, Structural)]
pub struct Timestamp {
    pub secs: i64,
    pub nanos: u32,
}

impl Timestamp {
    /// `self` is not later than `other`.
    pub open spec fn not_after(&self, other: &Timestamp) -> bool {
        self.secs < other.secs || (self.secs == other.secs && self.nanos <= other.nanos)
    }

    /// Whether `self` is not later than `other`.
    pub fn is_not_after(&self, other: &Timestamp) -> (r: bool)
        ensures
            r == self.not_after(other),
    {
        self.secs < other.secs || (self.secs == other.secs && self.nanos <= other.nanos)
    }
}

/// The RFC 3339 text of a point in time; `None` where the calendar cannot
/// represent the point.
pub uninterp spec fn rfc3339_text(secs: i64, nanos: u32) -> Option<Seq<char>>;

/// The point in time that an RFC 3339 text denotes; `None` where the text is
/// no such date and time.
pub uninterp spec fn rfc3339_point(text: Seq<char>) -> Option<Timestamp>;

/// The text of a point in time to the minute, as `YYYY-MM-DD HH:MM`; `None`
/// where the calendar cannot represent the point.
pub uninterp spec fn minute_text(secs: i64, nanos: u32) -> Option<Seq<char>>;

/// `chrono::Utc::now`, read off with `DateTime::timestamp` and
/// `DateTime::timestamp_subsec_nanos`. The result depends on the machine's
/// clock, so nothing is claimed of it.
#[verifier::external_body]
pub(crate) fn now() -> (t: Timestamp) {
    let t = chrono::Utc::now();
    Timestamp { secs: t.timestamp(), nanos: t.timestamp_subsec_nanos() }
}

/// `chrono::DateTime::from_timestamp` followed by `DateTime::to_rfc3339`:
/// the text, or `None` where `from_timestamp` gives no date.
#[verifier::external_body]
pub(crate) fn to_rfc3339(t: &Timestamp) -> (text: Option<String>)
    ensures
        text.is_some() == rfc3339_text(t.secs, t.nanos).is_some(),
        text matches Some(s) ==> rfc3339_text(t.secs, t.nanos) == Some(s@),
{
    chrono::DateTime::from_timestamp(t.secs, t.nanos).map(|d| d.to_rfc3339())
}

/// `chrono::DateTime::parse_from_rfc3339`, the result moved to UTC and read
/// off with `DateTime::timestamp` and `DateTime::timestamp_subsec_nanos`;
/// chrono's error where the text does not parse.
#[verifier::external_body]
pub(crate) fn parse_rfc3339(text: &str) -> (r: Result<Timestamp, chrono::ParseError>)
    ensures
        r.is_ok() == rfc3339_point(text@).is_some(),
        r matches Ok(t) ==> rfc3339_point(text@) == Some(t),
{
    chrono::DateTime::parse_from_rfc3339(text).map(|d| {
        let u = d.with_timezone(&chrono::Utc);
        Timestamp { secs: u.timestamp(), nanos: u.timestamp_subsec_nanos() }
    })
}

/// `<chrono::ParseError as ToString>::to_string`: chrono's account of why a
/// text did not parse. Nothing is claimed of the text.
#[verifier::external_body]
pub(crate) fn parse_error_text(e: &chrono::ParseError) -> (text: String) {
    e.to_string()
}

/// `chrono::DateTime::from_timestamp` followed by `DateTime::format` with the
/// pattern `%Y-%m-%d %H:%M`: the text, or `None` where `from_timestamp` gives
/// no date.
#[verifier::external_body]
pub(crate) fn to_minute_text(t: &Timestamp) -> (text: Option<String>)
    ensures
        text.is_some() == minute_text(t.secs, t.nanos).is_some(),
        text matches Some(s) ==> minute_text(t.secs, t.nanos) == Some(s@),
{
    chrono::DateTime::from_timestamp(t.secs, t.nanos).map(|d| d.format("%Y-%m-%d %H:%M").to_string())
}

} // verus!
