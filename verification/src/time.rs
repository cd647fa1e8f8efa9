//! Moments in time, as Issues carry them.
//!
//! A moment is the number of seconds since the Unix epoch and the nanoseconds
//! within that second. The calendar is `chrono`'s: what a moment looks like as
//! text, and which moment a text means, is asked of it.

use vstd::prelude::*;

verus! {

/// Whether these seconds and nanoseconds name a moment.
///
/// The seconds reach from the first to the last second of the calendar, and
/// nanoseconds past a full second belong to a leap second, which can only
/// follow the last second of a minute.
pub open spec fn is_moment(secs: int, nanos: int) -> bool {
    &&& -8_334_601_228_800 <= secs <= 8_210_266_876_799
    &&& 0 <= nanos < 2_000_000_000
    &&& nanos >= 1_000_000_000 ==> secs % 60 == 59
}

/// Whether a second lies in the years 0 to 9999, those with four digits.
pub open spec fn in_four_digit_years(secs: int) -> bool {
    -62_167_219_200 <= secs <= 253_402_300_799
}

/// What RFC 3339 makes of a moment: UTC, with six digits after the point.
pub uninterp spec fn rfc3339_text(secs: i64, nanos: u32) -> Seq<char>;

/// The moment that a text means by RFC 3339, if it means one.
pub uninterp spec fn rfc3339_moment(raw: Seq<char>) -> Option<(i64, u32)>;

/// `chrono::DateTime::to_rfc3339_opts` with microseconds and `Z`, on the
/// moment that `DateTime::from_timestamp` makes of the two numbers.
///
/// The text is named. In the years that have four digits it reads back as the
/// moment it was written from, cut to the microsecond.
#[verifier::external_body]
fn to_rfc3339(secs: i64, nanos: u32) -> (text: String)
    requires
        is_moment(secs as int, nanos as int),
    ensures
        text@ == rfc3339_text(secs, nanos),
        in_four_digit_years(secs as int) ==> rfc3339_moment(text@) == Some(
            (secs, (nanos - nanos % 1000) as u32),
        ),
{
    chrono::DateTime::from_timestamp(secs, nanos).map(
        |at| at.to_rfc3339_opts(chrono::SecondsFormat::Micros, true),
    ).unwrap_or_default()
}

/// `chrono::DateTime::parse_from_rfc3339`, as seconds and nanoseconds.
///
/// Which moment a text means is named. It is one of the calendar's, and no
/// further from the years with four digits than an offset can carry it.
#[verifier::external_body]
fn from_rfc3339(raw: &str) -> (moment: Option<(i64, u32)>)
    ensures
        moment == rfc3339_moment(raw@),
        moment matches Some(at) ==> is_moment(at.0 as int, at.1 as int) && -62_167_305_600 <= at.0
            <= 253_402_387_199,
{
    chrono::DateTime::parse_from_rfc3339(raw).ok().map(
        |at| (at.timestamp(), at.timestamp_subsec_nanos()),
    )
}

/// What a moment looks like in UTC, to the minute.
pub uninterp spec fn minutes_text(secs: i64, nanos: u32) -> Seq<char>;

/// `chrono::DateTime::format` with the date and the time to the minute, on the
/// moment that `DateTime::from_timestamp` makes of the two numbers. The text is
/// named.
#[verifier::external_body]
fn to_minutes(secs: i64, nanos: u32) -> (text: String)
    requires
        is_moment(secs as int, nanos as int),
    ensures
        text@ == minutes_text(secs, nanos),
{
    chrono::DateTime::from_timestamp(secs, nanos).map(
        |at| at.format("%Y-%m-%d %H:%M").to_string(),
    ).unwrap_or_default()
}

/// Whether a text is what a moment looks like, to the minute, in a time zone
/// that is so many seconds ahead of UTC.
pub open spec fn is_minutes_at(secs: i64, offset: int, text: Seq<char>) -> bool {
    -86_400 < offset < 86_400 && text == minutes_text((secs + offset) as i64, 0)
}

/// Whether a text is what a moment looks like, to the minute, in some time
/// zone.
pub open spec fn is_local_minutes(secs: i64, text: Seq<char>) -> bool {
    exists|offset: int| is_minutes_at(secs, offset, text)
}

/// A moment in the machine's own time zone, to the minute, as
/// `chrono::DateTime::format` writes it on what `DateTime::with_timezone` makes
/// of `chrono::Local`.
///
/// The text is that of the moment as a clock in some zone shows it, less than a
/// day from UTC. Which zone is not said: that is the machine's.
#[verifier::external_body]
fn to_local_minutes(secs: i64, nanos: u32) -> (text: String)
    requires
        is_moment(secs as int, nanos as int),
        -62_167_305_600 <= secs <= 253_402_387_199,
    ensures
        is_local_minutes(secs, text@),
{
    chrono::DateTime::from_timestamp(secs, nanos).map(
        |at| at.with_timezone(&chrono::Local).format("%Y-%m-%d %H:%M").to_string(),
    ).unwrap_or_default()
}

/// A moment in time.
#[derive(Debug, Clone, Copy, PartialEq, Eq, PartialOrd, Ord, Hash, Structural)]
pub struct Timestamp {
    secs: i64,
    nanos: u32,
}

impl Timestamp {
    #[verifier::type_invariant]
    spec fn well_formed(self) -> bool {
        is_moment(self.secs as int, self.nanos as int)
    }

    /// The seconds since the Unix epoch.
    pub closed spec fn spec_secs(self) -> i64 {
        self.secs
    }

    /// The nanoseconds within the second.
    pub closed spec fn spec_nanos(self) -> u32 {
        self.nanos
    }

    /// Whether this moment is earlier than another.
    pub open spec fn is_earlier(self, other: Timestamp) -> bool {
        self.spec_secs() < other.spec_secs() || (self.spec_secs() == other.spec_secs()
            && self.spec_nanos() < other.spec_nanos())
    }

    /// The moment these seconds and nanoseconds name, if they name one.
    pub fn from_parts(secs: i64, nanos: u32) -> (r: Option<Timestamp>)
        ensures
            r is Some <==> is_moment(secs as int, nanos as int),
            r matches Some(at) ==> at.spec_secs() == secs && at.spec_nanos() == nanos,
    {
        if secs < -8_334_601_228_800 || secs > 8_210_266_876_799 || nanos >= 2_000_000_000 {
            return None;
        }
        if nanos >= 1_000_000_000 {
            let shifted: u64 = (secs + 8_334_601_228_800) as u64;
            assert(secs % 60 == shifted % 60) by {
                assert(8_334_601_228_800int == 60 * 138_910_020_480int);
                assert(secs % 60 == (secs + 8_334_601_228_800) % 60);
            }
            if shifted % 60 != 59 {
                return None;
            }
        }
        Some(Timestamp { secs, nanos })
    }

    /// The Unix epoch.
    pub fn epoch() -> (r: Timestamp)
        ensures
            r.spec_secs() == 0,
            r.spec_nanos() == 0,
    {
        Timestamp { secs: 0, nanos: 0 }
    }

    /// The seconds since the Unix epoch.
    pub fn secs(self) -> (r: i64)
        ensures
            r == self.spec_secs(),
    {
        self.secs
    }

    /// The nanoseconds within the second.
    pub fn nanos(self) -> (r: u32)
        ensures
            r == self.spec_nanos(),
    {
        self.nanos
    }

    /// Whether this moment is earlier than another.
    pub fn earlier_than(self, other: Timestamp) -> (r: bool)
        ensures
            r == self.is_earlier(other),
    {
        self.secs < other.secs || (self.secs == other.secs && self.nanos < other.nanos)
    }

    /// The moment as RFC 3339 has it: UTC, to the microsecond.
    ///
    /// Fixed at six digits so that the texts of any two moments sort as the
    /// moments do.
    pub fn to_text(self) -> (text: String)
        ensures
            text@ == rfc3339_text(self.spec_secs(), self.spec_nanos()),
            in_four_digit_years(self.spec_secs() as int) ==> rfc3339_moment(text@) == Some(
                (self.spec_secs(), (self.spec_nanos() - self.spec_nanos() % 1000) as u32),
            ),
    {
        proof {
            use_type_invariant(&self);
        }
        to_rfc3339(self.secs, self.nanos)
    }

    /// The moment in UTC, to the minute.
    pub fn minutes(self) -> (text: String)
        ensures
            text@ == minutes_text(self.spec_secs(), self.spec_nanos()),
    {
        proof {
            use_type_invariant(&self);
        }
        to_minutes(self.secs, self.nanos)
    }

    /// The moment a text means by RFC 3339.
    pub fn parse(raw: &str) -> (r: Option<Timestamp>)
        ensures
            match r {
                Some(at) => rfc3339_moment(raw@) == Some((at.spec_secs(), at.spec_nanos())),
                None => rfc3339_moment(raw@) is None,
            },
    {
        match from_rfc3339(raw) {
            Some((secs, nanos)) => Some(Timestamp { secs, nanos }),
            None => None,
        }
    }
}

/// Whether a text is how a timestamp is shown: to the minute, in some time
/// zone. One that is no timestamp is passed through.
pub open spec fn is_shown_time(raw: Seq<char>, shown: Seq<char>) -> bool {
    match rfc3339_moment(raw) {
        Some((secs, _)) => is_local_minutes(secs, shown),
        None => shown == raw,
    }
}

/// A timestamp as a person reads it: in the machine's time zone, to the
/// minute. A text that is no timestamp is passed through rather than hidden.
pub fn local_minutes(raw: &str) -> (text: String)
    ensures
        is_shown_time(raw@, text@),
{
    match from_rfc3339(raw) {
        Some((secs, nanos)) => to_local_minutes(secs, nanos),
        None => raw.to_owned(),
    }
}

} // verus!
