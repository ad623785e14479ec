//! Points in time and their texts.

use vstd::prelude::*;

use crate::json::opt_view;

verus! {

/// A point in time: seconds since 1970-01-01 00:00 UTC, and nanoseconds within the second.
#[derive(Clone, Copy, Debug, PartialEq, Eq, Structural)]
pub struct Moment {
    pub secs: i64,
    pub nanos: u32,
}

impl Moment {
    /// Whether this point lies before the other.
    pub open spec fn is_before(self, other: Moment) -> bool {
        self.secs < other.secs || (self.secs == other.secs && self.nanos < other.nanos)
    }

    /// Whether this point lies before the other.
    pub fn before(&self, other: &Moment) -> (r: bool)
        ensures
            r == self.is_before(*other),
    {
        self.secs < other.secs || (self.secs == other.secs && self.nanos < other.nanos)
    }

    /// Whether the point lies in the years 1970 to 9999 and in no leap second.
    pub open spec fn is_common(self) -> bool {
        0 <= self.secs <= 253_402_300_799 && self.nanos < 1_000_000_000
    }

    /// The point, cut to whole milliseconds.
    pub open spec fn to_millis(self) -> Moment {
        Moment { secs: self.secs, nanos: (self.nanos - self.nanos % 1_000_000) as u32 }
    }
}

/// The seconds and nanoseconds that `chrono::DateTime::parse_from_rfc3339` reads from a text.
pub uninterp spec fn rfc3339_instant(text: Seq<char>) -> Option<(i64, u32)>;

/// The text that `chrono::DateTime::to_rfc3339_opts` writes, in UTC and with milliseconds.
pub uninterp spec fn rfc3339_text(secs: i64, nanos: u32) -> Option<Seq<char>>;

/// The seconds and nanoseconds that `chrono::NaiveDateTime::parse_from_str` reads from a session
/// id, taken as UTC.
pub uninterp spec fn stamp_instant(text: Seq<char>) -> Option<(i64, u32)>;

/// The session id that `chrono::DateTime::format` writes, in UTC.
pub uninterp spec fn stamp_text(secs: i64, nanos: u32) -> Option<Seq<char>>;

/// `chrono::DateTime::parse_from_rfc3339`: the instant depends on the text alone; a text that is
/// no RFC 3339 timestamp has none.
#[verifier::external_body]
fn read_rfc3339(text: &str) -> (r: Option<(i64, u32)>)
    ensures
        r == rfc3339_instant(text@),
{
    chrono::DateTime::parse_from_rfc3339(text).ok().map(
        |t| (t.timestamp(), t.timestamp_subsec_nanos()),
    )
}

/// `chrono::DateTime::to_rfc3339_opts` with milliseconds and `Z`: the text depends on the instant
/// alone, there is none for an instant that chrono cannot hold, and there is one for every instant
/// of the years 1970 to 9999, which reads back as that instant cut to milliseconds.
#[verifier::external_body]
fn write_rfc3339(secs: i64, nanos: u32) -> (r: Option<String>)
    ensures
        opt_view(r) == rfc3339_text(secs, nanos),
        (Moment { secs, nanos }).is_common() ==> r is Some && rfc3339_instant(r->0@) == Some(
            (secs, (nanos - nanos % 1_000_000) as u32),
        ),
{
    chrono::DateTime::from_timestamp(secs, nanos).map(
        |t| t.to_rfc3339_opts(chrono::SecondsFormat::Millis, true),
    )
}

/// `chrono::NaiveDateTime::parse_from_str` with `%Y%m%d-%H%M%S`: the instant depends on the text
/// alone; a text of another form has none.
#[verifier::external_body]
fn read_stamp(text: &str) -> (r: Option<(i64, u32)>)
    ensures
        r == stamp_instant(text@),
{
    chrono::NaiveDateTime::parse_from_str(text, "%Y%m%d-%H%M%S").ok().map(
        |t| (t.and_utc().timestamp(), t.and_utc().timestamp_subsec_nanos()),
    )
}

/// `chrono::DateTime::format` with `%Y%m%d-%H%M%S`: the text depends on the instant alone, there
/// is none for an instant that chrono cannot hold, and there is one for every instant of the years
/// 1970 to 9999, which reads back as that instant cut to seconds.
#[verifier::external_body]
fn write_stamp(secs: i64, nanos: u32) -> (r: Option<String>)
    ensures
        opt_view(r) == stamp_text(secs, nanos),
        (Moment { secs, nanos }).is_common() ==> r is Some && stamp_instant(r->0@) == Some(
            (secs, 0u32),
        ),
{
    chrono::DateTime::from_timestamp(secs, nanos).map(
        |t| t.format("%Y%m%d-%H%M%S").to_string(),
    )
}

/// The point in time that a named result stands for.
pub open spec fn moment_of(t: Option<(i64, u32)>) -> Option<Moment> {
    match t {
        Some((secs, nanos)) => Some(Moment { secs, nanos }),
        None => None,
    }
}

/// The point in time that an RFC 3339 timestamp names.
pub fn parse_iso(text: &str) -> (r: Option<Moment>)
    ensures
        r == moment_of(rfc3339_instant(text@)),
{
    match read_rfc3339(text) {
        Some((secs, nanos)) => Some(Moment { secs, nanos }),
        None => None,
    }
}

/// The RFC 3339 timestamp of `at`, in UTC and with milliseconds. It reads back as the same point,
/// cut to milliseconds.
pub fn now_iso(at: &Moment) -> (r: Option<String>)
    ensures
        opt_view(r) == rfc3339_text(at.secs, at.nanos),
        at.is_common() ==> r is Some && moment_of(rfc3339_instant(r->0@)) == Some(at.to_millis()),
{
    write_rfc3339(at.secs, at.nanos)
}

/// The id of a session that starts at `at`. It reads back as the same point, cut to seconds.
pub fn session_stamp(at: &Moment) -> (r: Option<String>)
    ensures
        opt_view(r) == stamp_text(at.secs, at.nanos),
        at.is_common() ==> r is Some && moment_of(stamp_instant(r->0@)) == Some(
            (Moment { secs: at.secs, nanos: 0 }),
        ),
{
    write_stamp(at.secs, at.nanos)
}

/// When a session started: by its recorded timestamp, else by its id.
pub open spec fn session_moment(
    iso: Option<(i64, u32)>,
    stamp: Option<(i64, u32)>,
) -> Option<Moment> {
    if iso is Some {
        moment_of(iso)
    } else {
        moment_of(stamp)
    }
}

/// When a session started: by its recorded timestamp, where that can be read, else by its id.
pub fn started_moment(started_iso: &Option<String>, session_id: &str) -> (r: Option<Moment>)
    ensures
        r == session_moment(
            match *started_iso {
                Some(s) => rfc3339_instant(s@),
                None => None,
            },
            stamp_instant(session_id@),
        ),
{
    if let Some(s) = started_iso {
        if let Some((secs, nanos)) = read_rfc3339(s.as_str()) {
            return Some(Moment { secs, nanos });
        }
    }
    match read_stamp(session_id) {
        Some((secs, nanos)) => Some(Moment { secs, nanos }),
        None => None,
    }
}

/// A point lies before another where fewer nanoseconds have passed; cutting it to milliseconds takes
/// less than one of them away.
pub proof fn moments_are_ordered_by_time(a: Moment, b: Moment)
    requires
        a.nanos < 1_000_000_000,
        b.nanos < 1_000_000_000,
    ensures
        a.is_before(b) <==> a.secs * 1_000_000_000 + a.nanos < b.secs * 1_000_000_000 + b.nanos,
        a.to_millis().secs == a.secs,
        a.to_millis().nanos % 1_000_000 == 0,
        a.to_millis().nanos <= a.nanos < a.to_millis().nanos + 1_000_000,
{
}

/// A session started when its timestamp says, where that can be read, and else when its id says.
pub proof fn timestamps_count_before_ids(secs: i64, nanos: u32, stamp: Option<(i64, u32)>)
    ensures
        session_moment(Some((secs, nanos)), stamp) == Some((Moment { secs, nanos })),
        session_moment(None, Some((secs, nanos))) == Some((Moment { secs, nanos })),
        session_moment(None, None) is None,
{
}

} // verus!
