//! Points in time: seconds and nanoseconds since 1970 in UTC, and their texts.

use vstd::prelude::*;
use crate::error::{ApiError, ApiErrorView};
use crate::text::str_of;

verus! {

/// The seconds and nanoseconds name a point in time that can be shown.
pub uninterp spec fn is_instant(secs: i64, nanos: u32) -> bool;

/// The RFC 3339 text of a point in time.
pub uninterp spec fn rfc3339(secs: i64, nanos: u32) -> Seq<char>;

/// The text of a point in time in an operator's listing.
pub uninterp spec fn listing_time(secs: i64, nanos: u32) -> Seq<char>;

/// The point in time an RFC 3339 text stands for.
pub uninterp spec fn rfc3339_value(text: Seq<char>) -> Option<(i64, u32)>;

/// A point in time, in UTC.
#[derive(Debug, Clone, Copy)]
pub struct Timestamp {
    secs: i64,
    nanos: u32,
}

impl View for Timestamp {
    type V = (i64, u32);

    closed spec fn view(&self) -> (i64, u32) {
        (self.secs, self.nanos)
    }
}

/// The first second of the year 1.
pub const FIRST_SECOND: i64 = -62_135_596_800;

/// The last second of the year 9999.
pub const LAST_SECOND: i64 = 253_402_300_799;

/// Asks `chrono::DateTime::from_timestamp` whether there is a point in time for the seconds and
/// nanoseconds. The answer is a function of the two. There is one in each of the years 1 to 9999,
/// and there is none with two seconds' worth of nanoseconds; how far the range goes beyond those
/// years is `chrono`'s.
#[verifier::external_body]
fn instant_exists(secs: i64, nanos: u32) -> (r: bool)
    ensures
        r == is_instant(secs, nanos),
        FIRST_SECOND <= secs <= LAST_SECOND && nanos < 1_000_000_000 ==> r,
        nanos >= 2_000_000_000 ==> !r,
{
    chrono::DateTime::from_timestamp(secs, nanos).is_some()
}

/// Prints a point in time with `chrono::DateTime::to_rfc3339`, in UTC. The text is a function of
/// the seconds and nanoseconds.
#[verifier::external_body]
fn print_rfc3339(secs: i64, nanos: u32) -> (r: String)
    requires
        is_instant(secs, nanos),
    ensures
        r@ == rfc3339(secs, nanos),
{
    chrono::DateTime::from_timestamp(secs, nanos).unwrap().to_rfc3339()
}

/// Prints a point in time with the `Display` of `chrono::DateTime`, in UTC. The text is a
/// function of the seconds and nanoseconds.
#[verifier::external_body]
fn print_listing_time(secs: i64, nanos: u32) -> (r: String)
    requires
        is_instant(secs, nanos),
    ensures
        r@ == listing_time(secs, nanos),
{
    chrono::DateTime::from_timestamp(secs, nanos).unwrap().to_string()
}

/// Reads a point in time with `chrono::DateTime::parse_from_rfc3339` and takes its seconds and
/// nanoseconds in UTC, from which `chrono::DateTime::from_timestamp` makes that point again.
/// Whether and as which point a text reads is a function of the text.
#[verifier::external_body]
fn read_rfc3339(text: &str) -> (r: Option<(i64, u32)>)
    ensures
        r == rfc3339_value(text@),
        r matches Some((secs, nanos)) ==> is_instant(secs, nanos),
{
    let time = chrono::DateTime::parse_from_rfc3339(text).ok()?;
    Some((time.timestamp(), time.timestamp_subsec_nanos()))
}

impl Timestamp {
    #[verifier::type_invariant]
    spec fn is_shown(self) -> bool {
        is_instant(self.secs, self.nanos)
    }

    /// The point in time `secs` seconds and `nanos` nanoseconds after 1970, where there is one.
    pub fn new(secs: i64, nanos: u32) -> (r: Option<Timestamp>)
        ensures
            r is Some <==> is_instant(secs, nanos),
            FIRST_SECOND <= secs <= LAST_SECOND && nanos < 1_000_000_000 ==> r is Some,
            nanos >= 2_000_000_000 ==> r is None,
            r matches Some(t) ==> t@ == (secs, nanos),
    {
        if instant_exists(secs, nanos) {
            Some(Timestamp { secs, nanos })
        } else {
            None
        }
    }

    /// The seconds since 1970.
    pub fn secs(&self) -> (r: i64)
        ensures
            r == self@.0,
    {
        self.secs
    }

    /// The nanoseconds within the second.
    pub fn nanos(&self) -> (r: u32)
        ensures
            r == self@.1,
    {
        self.nanos
    }

    /// The RFC 3339 text.
    pub fn to_rfc3339(&self) -> (r: String)
        ensures
            r@ == rfc3339(self@.0, self@.1),
    {
        proof {
            use_type_invariant(self);
        }
        print_rfc3339(self.secs, self.nanos)
    }

    /// The text in an operator's listing.
    pub fn to_listing(&self) -> (r: String)
        ensures
            r@ == listing_time(self@.0, self@.1),
    {
        proof {
            use_type_invariant(self);
        }
        print_listing_time(self.secs, self.nanos)
    }

    /// Reads an RFC 3339 text.
    pub fn parse(text: &str) -> (r: Option<Timestamp>)
        ensures
            time_of(r) == rfc3339_value(text@),
    {
        match read_rfc3339(text) {
            Some((secs, nanos)) => Some(Timestamp { secs, nanos }),
            None => None,
        }
    }
}

/// The seconds and nanoseconds of an optional point in time.
pub open spec fn time_of(time: Option<Timestamp>) -> Option<(i64, u32)> {
    match time {
        Some(t) => Some(t@),
        None => None,
    }
}

/// The RFC 3339 text of an optional point in time.
pub open spec fn rfc3339_of(time: Option<(i64, u32)>) -> Option<Seq<char>> {
    match time {
        Some((secs, nanos)) => Some(rfc3339(secs, nanos)),
        None => None,
    }
}

/// The RFC 3339 text of an optional point in time.
pub fn to_rfc3339_opt(time: &Option<Timestamp>) -> (r: Option<String>)
    ensures
        crate::text::text_of(r) == rfc3339_of(time_of(*time)),
{
    match time {
        Some(t) => Some(t.to_rfc3339()),
        None => None,
    }
}

/// The point in time that a field reads as: none where the field is absent. The outer `None` is
/// a text that is no RFC 3339 one.
pub open spec fn date_in(raw: Option<Seq<char>>) -> Option<Option<(i64, u32)>> {
    match raw {
        None => Some(None),
        Some(text) => match rfc3339_value(text) {
            Some(t) => Some(Some(t)),
            None => None,
        },
    }
}

/// The seconds and nanoseconds of a field that was read.
pub open spec fn reading_of(read: Option<Option<Timestamp>>) -> Option<Option<(i64, u32)>> {
    match read {
        Some(time) => Some(time_of(time)),
        None => None,
    }
}

/// Reads the optional point in time in a field.
pub fn read_rfc3339_opt(raw: Option<&str>) -> (r: Option<Option<Timestamp>>)
    ensures
        reading_of(r) == date_in(str_of(raw)),
{
    match raw {
        None => Some(None),
        Some(text) => match Timestamp::parse(text) {
            Some(time) => Some(Some(time)),
            None => None,
        },
    }
}

/// The refusal of a field whose text is no point in time.
pub open spec fn bad_date(field: Seq<char>) -> ApiErrorView {
    ApiErrorView::BadRequest(field + " is not a valid RFC3339 timestamp"@)
}

/// What a field comes to once it was read: the optional point in time, or a refusal that names
/// the field.
pub fn accept_time(read: Option<Option<Timestamp>>, field: &str) -> (r: Result<
    Option<Timestamp>,
    ApiError,
>)
    ensures
        match r {
            Ok(time) => read == Some(time),
            Err(e) => read is None && e@ == bad_date(field@),
        },
{
    match read {
        Some(time) => Ok(time),
        None => Err(
            ApiError::BadRequest(field.to_owned().concat(" is not a valid RFC3339 timestamp")),
        ),
    }
}

} // verus!
