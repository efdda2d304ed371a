//! Instants and calendar dates, computed by `chrono`.

use vstd::prelude::*;

verus! {

// ---------------------------------------------------------------------------
// What chrono computes
// ---------------------------------------------------------------------------

/// The instants that can be represented: the seconds fall on a day of the years -262143 to
/// 262142, and the nanoseconds stay below one second, or below two within the last second of
/// a minute (a leap second).
pub open spec fn instant_valid(seconds: int, nanos: int) -> bool {
    -8334601228800 <= seconds <= 8210266876799 && 0 <= nanos && (nanos < 1_000_000_000 || (nanos
        < 2_000_000_000 && seconds % 60 == 59))
}

/// The RFC 3339 text of a representable instant, in UTC.
pub uninterp spec fn rfc3339_of(seconds: int, nanos: int) -> Seq<char>;

/// The instant that an RFC 3339 text names, as seconds and nanoseconds; `None` for other text.
pub uninterp spec fn rfc3339_parsed(s: Seq<char>) -> Option<(i64, u32)>;

/// The UTC calendar date (year, month, day) of a representable instant.
pub uninterp spec fn civil_date(seconds: int, nanos: int) -> (int, int, int);

/// The epoch seconds of midnight UTC on a calendar date; `None` when there is no such date.
pub uninterp spec fn midnight_of(year: int, month: int, day: int) -> Option<int>;

/// `chrono::DateTime::from_timestamp` returns `Some` exactly for representable instants.
#[verifier::external_body]
fn in_range(seconds: i64, nanos: u32) -> (r: bool)
    ensures
        r == instant_valid(seconds as int, nanos as int),
{
    chrono::DateTime::<chrono::Utc>::from_timestamp(seconds, nanos).is_some()
}

/// `chrono::DateTime::to_rfc3339` writes an instant as RFC 3339 text; the text is a function
/// of the instant.
#[verifier::external_body]
fn rfc3339(seconds: i64, nanos: u32) -> (r: String)
    requires
        instant_valid(seconds as int, nanos as int),
    ensures
        r@ == rfc3339_of(seconds as int, nanos as int),
{
    chrono::DateTime::<chrono::Utc>::from_timestamp(seconds, nanos).unwrap().to_rfc3339()
}

/// `chrono::DateTime::parse_from_rfc3339` reads RFC 3339 text; what it reads is a function of
/// the text, and is a representable instant.
#[verifier::external_body]
fn parse_rfc3339(s: &str) -> (r: Option<(i64, u32)>)
    ensures
        r == rfc3339_parsed(s@),
        match r {
            Some(t) => instant_valid(t.0 as int, t.1 as int),
            None => true,
        },
{
    match chrono::DateTime::parse_from_rfc3339(s) {
        Ok(t) => Some((t.timestamp(), t.timestamp_subsec_nanos())),
        Err(_) => None,
    }
}

/// `chrono::DateTime::date_naive` gives the calendar date of an instant, a function of the
/// instant; it is a date that exists.
#[verifier::external_body]
fn date_of(seconds: i64, nanos: u32) -> (r: (i32, u32, u32))
    requires
        instant_valid(seconds as int, nanos as int),
    ensures
        (r.0 as int, r.1 as int, r.2 as int) == civil_date(seconds as int, nanos as int),
        midnight_of(r.0 as int, r.1 as int, r.2 as int) is Some,
{
    let d = chrono::DateTime::<chrono::Utc>::from_timestamp(seconds, nanos).unwrap().date_naive();
    (chrono::Datelike::year(&d), chrono::Datelike::month(&d), chrono::Datelike::day(&d))
}

/// `chrono::NaiveDate::from_ymd_opt` knows which calendar dates exist, and
/// `NaiveDate::and_hms_opt` their midnights; both are functions of the date. A midnight is a
/// representable instant on a whole second, and its calendar date is the one it was made of.
#[verifier::external_body]
fn midnight(year: i32, month: u32, day: u32) -> (r: Option<i64>)
    ensures
        match r {
            Some(s) => midnight_of(year as int, month as int, day as int) == Some(s as int)
                && instant_valid(s as int, 0) && civil_date(s as int, 0) == (
                year as int,
                month as int,
                day as int,
            ),
            None => midnight_of(year as int, month as int, day as int) is None,
        },
{
    let d = chrono::NaiveDate::from_ymd_opt(year, month, day);
    d.and_then(|d| d.and_hms_opt(0, 0, 0)).map(|t| t.and_utc().timestamp())
}

// ---------------------------------------------------------------------------
// Instants
// ---------------------------------------------------------------------------

/// A representable instant in UTC.
#[derive(Debug, Clone, Copy, PartialEq, Eq, Structural)]
pub struct DateTimeUtc {
    seconds: i64,
    nanos: u32,
}

impl DateTimeUtc {
    #[verifier::type_invariant]
    spec fn inv(&self) -> bool {
        instant_valid(self.seconds as int, self.nanos as int)
    }

    /// Seconds since the epoch.
    pub closed spec fn secs(&self) -> i64 {
        self.seconds
    }

    /// Nanoseconds within the second; at least a thousand million in a leap second.
    pub closed spec fn nsecs(&self) -> u32 {
        self.nanos
    }

    /// The instant at the given epoch seconds and nanoseconds, when it can be represented.
    pub fn from_timestamp(seconds: i64, nanos: u32) -> (r: Option<Self>)
        ensures
            match r {
                Some(t) => instant_valid(seconds as int, nanos as int) && t.secs() == seconds
                    && t.nsecs() == nanos,
                None => !instant_valid(seconds as int, nanos as int),
            },
    {
        if in_range(seconds, nanos) {
            Some(DateTimeUtc { seconds, nanos })
        } else {
            None
        }
    }

    /// The instant that an RFC 3339 text names.
    pub fn parse_from_rfc3339(s: &str) -> (r: Option<Self>)
        ensures
            match r {
                Some(t) => rfc3339_parsed(s@) == Some((t.secs(), t.nsecs())),
                None => rfc3339_parsed(s@) is None,
            },
    {
        match parse_rfc3339(s) {
            Some((seconds, nanos)) => Some(DateTimeUtc { seconds, nanos }),
            None => None,
        }
    }

    /// Seconds since the epoch.
    pub fn timestamp(&self) -> (r: i64)
        ensures
            r == self.secs(),
    {
        self.seconds
    }

    /// Nanoseconds within the second.
    pub fn timestamp_subsec_nanos(&self) -> (r: u32)
        ensures
            r == self.nsecs(),
            instant_valid(self.secs() as int, r as int),
    {
        proof {
            use_type_invariant(self);
        }
        self.nanos
    }

    /// The instant as RFC 3339 text.
    pub fn to_rfc3339(&self) -> (r: String)
        ensures
            r@ == rfc3339_of(self.secs() as int, self.nsecs() as int),
    {
        proof {
            use_type_invariant(self);
        }
        rfc3339(self.seconds, self.nanos)
    }

    /// The calendar date of the instant.
    pub fn date(&self) -> (d: CalendarDate)
        ensures
            d.ymd() == civil_date(self.secs() as int, self.nsecs() as int),
    {
        proof {
            use_type_invariant(self);
        }
        let (year, month, day) = date_of(self.seconds, self.nanos);
        match midnight(year, month, day) {
            Some(midnight) => CalendarDate { year, month, day, midnight },
            None => {
                assert(false);
                CalendarDate { year: 0, month: 0, day: 0, midnight: 0 }
            },
        }
    }
}

// ---------------------------------------------------------------------------
// Dates
// ---------------------------------------------------------------------------

/// A calendar date that exists.
#[derive(Debug, Clone, Copy, PartialEq, Eq, Structural)]
pub struct CalendarDate {
    year: i32,
    month: u32,
    day: u32,
    midnight: i64,
}

impl CalendarDate {
    #[verifier::type_invariant]
    spec fn inv(&self) -> bool {
        &&& midnight_of(self.year as int, self.month as int, self.day as int) == Some(
            self.midnight as int,
        )
        &&& instant_valid(self.midnight as int, 0)
        &&& civil_date(self.midnight as int, 0) == self.ymd()
    }

    /// Year, month and day.
    pub closed spec fn ymd(&self) -> (int, int, int) {
        (self.year as int, self.month as int, self.day as int)
    }

    /// The date `year`-`month`-`day`, when there is one.
    pub fn from_ymd_opt(year: i32, month: u32, day: u32) -> (r: Option<Self>)
        ensures
            match r {
                Some(d) => d.ymd() == (year as int, month as int, day as int) && midnight_of(
                    year as int,
                    month as int,
                    day as int,
                ) is Some,
                None => midnight_of(year as int, month as int, day as int) is None,
            },
    {
        match midnight(year, month, day) {
            Some(midnight) => Some(CalendarDate { year, month, day, midnight }),
            None => None,
        }
    }

    pub fn year(&self) -> (r: i32)
        ensures
            r == self.ymd().0,
    {
        self.year
    }

    pub fn month(&self) -> (r: u32)
        ensures
            r == self.ymd().1,
    {
        self.month
    }

    pub fn day(&self) -> (r: u32)
        ensures
            r == self.ymd().2,
    {
        self.day
    }

    /// The epoch seconds of midnight UTC on this date.
    pub fn midnight_utc(&self) -> (s: i64)
        ensures
            midnight_of(self.ymd().0, self.ymd().1, self.ymd().2) == Some(s as int),
            instant_valid(s as int, 0),
            civil_date(s as int, 0) == self.ymd(),
    {
        proof {
            use_type_invariant(self);
        }
        self.midnight
    }
}

} // verus!
