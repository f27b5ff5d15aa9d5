//! The date/time payload of a `Value`, modeled as plain calendar values.
//!
//! A `DateTime` holds either a calendar date, a wall-clock time, or a
//! UTC date-time, each as plain integer components in the proleptic
//! Gregorian calendar.  Reading components, validity and formatting are
//! verified here; calendar arithmetic, epoch conversion and parsing of
//! textual forms delegate to the calendar library behind trusted
//! wrappers, from plain values to plain values.

use vstd::prelude::*;

verus! {

use vstd::string::StringExecFns;

use crate::render::dec_digits;

/// A span of time with second precision, the library's own stand-in
/// for the calendar library's duration type.
#[derive(Clone, Copy, Debug, PartialEq, Eq, Structural)]
pub struct Duration {
    pub secs: i64,
}

impl Duration {
    /// Negating the span stays in range.
    pub open spec fn wf(self) -> bool {
        self.secs > i64::MIN
    }

    /// The whole days the span covers, rounded toward zero.
    pub open spec fn num_days_spec(self) -> int {
        if self.secs >= 0 {
            self.secs as int / 86400
        } else {
            -((-(self.secs as int)) / 86400)
        }
    }

    /// A span of whole days.
    pub fn days(days: i64) -> (r: Duration)
        requires
            -106751991167300 <= days <= 106751991167300,
        ensures
            r.secs == days * 86400,
            r.wf(),
    {
        proof {
            assert(-106751991167300 * 86400 <= days * 86400 <= 106751991167300 * 86400)
                by (nonlinear_arith)
                requires
                    -106751991167300 <= days <= 106751991167300,
            ;
        }
        Duration { secs: days * 86400 }
    }

    /// A span of seconds.
    pub fn seconds(secs: i64) -> (r: Duration)
        requires
            secs > i64::MIN,
        ensures
            r.secs == secs,
            r.wf(),
    {
        Duration { secs }
    }

    /// The whole days the span covers, rounded toward zero.
    pub fn num_days(&self) -> (r: i64)
        ensures
            r == self.num_days_spec(),
    {
        if self.secs >= 0 {
            ((self.secs as u64) / 86400) as i64
        } else {
            let mag = ((-(self.secs as i128)) as u128) / 86400;
            -(mag as i64)
        }
    }

    /// The seconds the span covers.
    pub fn num_seconds(&self) -> (r: i64)
        ensures
            r == self.secs,
    {
        self.secs
    }
}

/// The whole days of any representable span fit the calendar
/// library's day range.
proof fn lemma_num_days_bounded(d: Duration)
    ensures
        -106751991167300 <= d.num_days_spec() <= 106751991167300,
{
    if d.secs >= 0 {
        let x = d.secs as int;
        vstd::arithmetic::div_mod::lemma_fundamental_div_mod(x, 86400);
        vstd::arithmetic::div_mod::lemma_mod_bound(x, 86400);
        assert(x == 86400 * (x / 86400) + x % 86400);
        if x / 86400 > 106751991167300 {
            assert(86400 * (x / 86400) >= 86400 * 106751991167301) by (nonlinear_arith)
                requires
                    x / 86400 >= 106751991167301,
            ;
            assert(false);
        }
        assert(x / 86400 >= 0) by {
            vstd::arithmetic::div_mod::lemma_div_pos_is_pos(x, 86400);
        }
    } else {
        let m = -(d.secs as int);
        vstd::arithmetic::div_mod::lemma_fundamental_div_mod(m, 86400);
        vstd::arithmetic::div_mod::lemma_mod_bound(m, 86400);
        assert(m == 86400 * (m / 86400) + m % 86400);
        if m / 86400 > 106751991167300 {
            assert(86400 * (m / 86400) >= 86400 * 106751991167301) by (nonlinear_arith)
                requires
                    m / 86400 >= 106751991167301,
            ;
            assert(false);
        }
        assert(m / 86400 >= 0) by {
            vstd::arithmetic::div_mod::lemma_div_pos_is_pos(m, 86400);
        }
    }
}

/// A calendar date: year, month and day in the proleptic Gregorian
/// calendar.
#[derive(Clone, Copy, Debug, PartialEq, Eq, Structural)]
pub struct CalendarDate {
    pub year: i32,
    pub month: u32,
    pub day: u32,
}

/// A wall-clock time of day with second precision.
#[derive(Clone, Copy, Debug, PartialEq, Eq, Structural)]
pub struct ClockTime {
    pub hour: u32,
    pub minute: u32,
    pub second: u32,
}

/// A date together with a time of day, read in UTC.
#[derive(Clone, Copy, Debug, PartialEq, Eq, Structural)]
pub struct CivilDateTime {
    pub date: CalendarDate,
    pub time: ClockTime,
}

/// A date, a time, or a UTC date-time.
#[derive(Clone, Copy, Debug, PartialEq, Eq, Structural)]
pub enum DateTime {
    Date(CalendarDate),
    Time(ClockTime),
    DateTime(CivilDateTime),
}

/// True of leap years in the proleptic Gregorian calendar.
pub open spec fn is_leap_year(y: int) -> bool {
    (y % 4 == 0 && y % 100 != 0) || y % 400 == 0
}

/// The number of days in a month of a given year.
pub open spec fn days_in_month(y: int, m: int) -> int
    recommends
        1 <= m <= 12,
{
    if m == 2 {
        if is_leap_year(y) {
            29
        } else {
            28
        }
    } else if m == 4 || m == 6 || m == 9 || m == 11 {
        30
    } else {
        31
    }
}

/// True of dates the Gregorian calendar contains.
pub open spec fn valid_date(y: int, m: int, d: int) -> bool {
    1 <= m <= 12 && 1 <= d <= days_in_month(y, m)
}

/// True of times of day with second precision (leap seconds excluded).
pub open spec fn valid_time(h: int, mi: int, s: int) -> bool {
    0 <= h < 24 && 0 <= mi < 60 && 0 <= s < 60
}

impl CalendarDate {
    /// True when the date exists in the calendar.
    pub open spec fn wf(self) -> bool {
        valid_date(self.year as int, self.month as int, self.day as int)
    }
}

impl ClockTime {
    /// True when the time is a real time of day.
    pub open spec fn wf(self) -> bool {
        valid_time(self.hour as int, self.minute as int, self.second as int)
    }
}

impl CivilDateTime {
    /// True when both halves are real calendar values.
    pub open spec fn wf(self) -> bool {
        self.date.wf() && self.time.wf()
    }
}

impl DateTime {
    /// True when the held components are real calendar values.
    pub open spec fn wf(self) -> bool {
        match self {
            DateTime::Date(d) => d.wf(),
            DateTime::Time(t) => t.wf(),
            DateTime::DateTime(dt) => dt.wf(),
        }
    }
}

/// Whether the given components form a date the calendar contains.
pub fn check_date(year: i32, month: u32, day: u32) -> (r: bool)
    ensures
        r == valid_date(year as int, month as int, day as int),
{
    if month < 1 || month > 12 {
        return false;
    }
    let dim: u32 = if month == 2 {
        if (year % 4 == 0 && year % 100 != 0) || year % 400 == 0 {
            29
        } else {
            28
        }
    } else if month == 4 || month == 6 || month == 9 || month == 11 {
        30
    } else {
        31
    };
    1 <= day && day <= dim
}

/// Whether the given components form a real time of day.
pub fn check_time(hour: u32, minute: u32, second: u32) -> (r: bool)
    ensures
        r == valid_time(hour as int, minute as int, second as int),
{
    hour < 24 && minute < 60 && second < 60
}

impl DateTime {
    /// The date holding the given components.
    pub fn from_ymd_opt(year: i32, month: u32, day: u32) -> (r: Option<DateTime>)
        ensures
            match r {
                Some(dt) => valid_date(year as int, month as int, day as int)
                    && dt == DateTime::Date(CalendarDate { year, month, day }),
                None => !valid_date(year as int, month as int, day as int),
            },
    {
        if check_date(year, month, day) {
            Some(DateTime::Date(CalendarDate { year, month, day }))
        } else {
            None
        }
    }

    /// The UTC date-time holding the given components.
    pub fn with_ymd_and_hms(year: i32, month: u32, day: u32, hour: u32, min: u32, sec: u32) -> (r:
        Option<DateTime>)
        ensures
            match r {
                Some(dt) => valid_date(year as int, month as int, day as int)
                    && valid_time(hour as int, min as int, sec as int)
                    && dt == DateTime::DateTime(CivilDateTime {
                        date: CalendarDate { year, month, day },
                        time: ClockTime { hour, minute: min, second: sec },
                    }),
                None => !(valid_date(year as int, month as int, day as int)
                    && valid_time(hour as int, min as int, sec as int)),
            },
    {
        if check_date(year, month, day) && check_time(hour, min, sec) {
            Some(
                DateTime::DateTime(CivilDateTime {
                    date: CalendarDate { year, month, day },
                    time: ClockTime { hour, minute: min, second: sec },
                }),
            )
        } else {
            None
        }
    }

    /// The held date, when this is a bare date.
    pub fn as_date(&self) -> (r: Option<&CalendarDate>)
        ensures
            r == match self {
                DateTime::Date(d) => Some(d),
                _ => None::<&CalendarDate>,
            },
    {
        match self {
            DateTime::Date(d) => Some(d),
            _ => None,
        }
    }

    /// The held time, when this is a bare time.
    pub fn as_time(&self) -> (r: Option<&ClockTime>)
        ensures
            r == match self {
                DateTime::Time(t) => Some(t),
                _ => None::<&ClockTime>,
            },
    {
        match self {
            DateTime::Time(t) => Some(t),
            _ => None,
        }
    }

    /// The held date-time, when this is a full date-time.
    pub fn as_date_time(&self) -> (r: Option<&CivilDateTime>)
        ensures
            r == match self {
                DateTime::DateTime(dt) => Some(dt),
                _ => None::<&CivilDateTime>,
            },
    {
        match self {
            DateTime::DateTime(dt) => Some(dt),
            _ => None,
        }
    }

    /// The year, of a date or a date-time.
    pub fn year(&self) -> (r: Option<i32>)
        ensures
            r == match self {
                DateTime::Date(d) => Some(d.year),
                DateTime::DateTime(dt) => Some(dt.date.year),
                _ => None::<i32>,
            },
    {
        match self {
            DateTime::Date(d) => Some(d.year),
            DateTime::DateTime(dt) => Some(dt.date.year),
            _ => None,
        }
    }

    /// The month, of a date or a date-time.
    pub fn month(&self) -> (r: Option<u32>)
        ensures
            r == match self {
                DateTime::Date(d) => Some(d.month),
                DateTime::DateTime(dt) => Some(dt.date.month),
                _ => None::<u32>,
            },
    {
        match self {
            DateTime::Date(d) => Some(d.month),
            DateTime::DateTime(dt) => Some(dt.date.month),
            _ => None,
        }
    }

    /// The day of the month, of a date or a date-time.
    pub fn day(&self) -> (r: Option<u32>)
        ensures
            r == match self {
                DateTime::Date(d) => Some(d.day),
                DateTime::DateTime(dt) => Some(dt.date.day),
                _ => None::<u32>,
            },
    {
        match self {
            DateTime::Date(d) => Some(d.day),
            DateTime::DateTime(dt) => Some(dt.date.day),
            _ => None,
        }
    }

    /// The hour, of a time or a date-time.
    pub fn hour(&self) -> (r: Option<u32>)
        ensures
            r == match self {
                DateTime::Time(t) => Some(t.hour),
                DateTime::DateTime(dt) => Some(dt.time.hour),
                _ => None::<u32>,
            },
    {
        match self {
            DateTime::Time(t) => Some(t.hour),
            DateTime::DateTime(dt) => Some(dt.time.hour),
            _ => None,
        }
    }

    /// The minute, of a time or a date-time.
    pub fn minute(&self) -> (r: Option<u32>)
        ensures
            r == match self {
                DateTime::Time(t) => Some(t.minute),
                DateTime::DateTime(dt) => Some(dt.time.minute),
                _ => None::<u32>,
            },
    {
        match self {
            DateTime::Time(t) => Some(t.minute),
            DateTime::DateTime(dt) => Some(dt.time.minute),
            _ => None,
        }
    }

    /// The date the calendar library reaches by moving a date by whole
    /// days, when it stays in the library's supported range.
    pub fn add_days(&self, days: i64) -> (r: Option<DateTime>)
        requires
            self.wf(),
            -106751991167300 <= days <= 106751991167300,
        ensures
            match *self {
                DateTime::Date(d) => r == match shifted_date(
                    d.year as int,
                    d.month as int,
                    d.day as int,
                    days as int,
                ) {
                    Some(t) => Some(
                        DateTime::Date(
                            CalendarDate {
                                year: t.0 as i32,
                                month: t.1 as u32,
                                day: t.2 as u32,
                            },
                        ),
                    ),
                    None => None::<DateTime>,
                },
                _ => r is None,
            },
            r is Some ==> r->0.wf(),
    {
        match self {
            DateTime::Date(d) => {
                match date_plus_days(d.year, d.month, d.day, days) {
                    Some(t) => Some(DateTime::Date(CalendarDate { year: t.0, month: t.1, day: t.2 })),
                    None => None,
                }
            },
            _ => None,
        }
    }

    /// Moves this value forward by the span: a date moves by the
    /// span's whole days, a date-time by its seconds; a bare time
    /// cannot move.
    pub fn add_duration(&self, duration: Duration) -> (r: Option<DateTime>)
        requires
            self.wf(),
        ensures
            r == add_duration_spec(*self, duration),
            r is Some ==> r->0.wf(),
    {
        match self {
            DateTime::Date(d) => {
                let days = duration.num_days();
                proof {
                    lemma_num_days_bounded(duration);
                }
                match date_plus_days(d.year, d.month, d.day, days) {
                    Some(t) => Some(DateTime::Date(CalendarDate { year: t.0, month: t.1, day: t.2 })),
                    None => None,
                }
            },
            DateTime::Time(_) => None,
            DateTime::DateTime(dt) => {
                match civil_plus_seconds(
                    dt.date.year,
                    dt.date.month,
                    dt.date.day,
                    dt.time.hour,
                    dt.time.minute,
                    dt.time.second,
                    duration.secs,
                ) {
                    Some(t) => Some(
                        DateTime::DateTime(
                            CivilDateTime {
                                date: CalendarDate { year: t.0, month: t.1, day: t.2 },
                                time: ClockTime { hour: t.3, minute: t.4, second: t.5 },
                            },
                        ),
                    ),
                    None => None,
                }
            },
        }
    }

    /// Moves this value backward by the span, by the same rules as
    /// moving forward.
    pub fn subtract_duration(&self, duration: Duration) -> (r: Option<DateTime>)
        requires
            self.wf(),
            duration.wf(),
        ensures
            r == subtract_duration_spec(*self, duration),
            r is Some ==> r->0.wf(),
    {
        match self {
            DateTime::Date(d) => {
                let days = duration.num_days();
                proof {
                    lemma_num_days_bounded(duration);
                }
                match date_plus_days(d.year, d.month, d.day, -days) {
                    Some(t) => Some(DateTime::Date(CalendarDate { year: t.0, month: t.1, day: t.2 })),
                    None => None,
                }
            },
            DateTime::Time(_) => None,
            DateTime::DateTime(dt) => {
                match civil_plus_seconds(
                    dt.date.year,
                    dt.date.month,
                    dt.date.day,
                    dt.time.hour,
                    dt.time.minute,
                    dt.time.second,
                    -duration.secs,
                ) {
                    Some(t) => Some(
                        DateTime::DateTime(
                            CivilDateTime {
                                date: CalendarDate { year: t.0, month: t.1, day: t.2 },
                                time: ClockTime { hour: t.3, minute: t.4, second: t.5 },
                            },
                        ),
                    ),
                    None => None,
                }
            },
        }
    }

    /// The span from this value to the other: whole days between two
    /// dates, seconds between two date-times, nothing between any
    /// other pairing.
    pub fn duration_between(&self, other: &DateTime) -> (r: Option<Duration>)
        requires
            self.wf(),
            other.wf(),
        ensures
            r == duration_between_spec(*self, *other),
    {
        match (self, other) {
            (DateTime::Date(a), DateTime::Date(b)) => {
                match date_diff_days(a.year, a.month, a.day, b.year, b.month, b.day) {
                    Some(n) => {
                        if -106751991167300 <= n && n <= 106751991167300 {
                            proof {
                                assert(-9223372036854775807 <= n * 86400 && n * 86400
                                    <= 9223372036854775807) by (nonlinear_arith)
                                    requires
                                        -106751991167300 <= n <= 106751991167300,
                                ;
                            }
                            Some(Duration { secs: n * 86400 })
                        } else {
                            None
                        }
                    },
                    None => None,
                }
            },
            (DateTime::DateTime(a), DateTime::DateTime(b)) => {
                match civil_diff_seconds(
                    a.date.year,
                    a.date.month,
                    a.date.day,
                    a.time.hour,
                    a.time.minute,
                    a.time.second,
                    b.date.year,
                    b.date.month,
                    b.date.day,
                    b.time.hour,
                    b.time.minute,
                    b.time.second,
                ) {
                    Some(n) => {
                        if n > i64::MIN {
                            Some(Duration { secs: n })
                        } else {
                            None
                        }
                    },
                    None => None,
                }
            },
            _ => None,
        }
    }

    /// The UTC epoch seconds of a held date-time.
    pub fn timestamp(&self) -> (r: Option<i64>)
        requires
            self.wf(),
        ensures
            r == timestamp_spec(*self),
    {
        match self {
            DateTime::DateTime(dt) => {
                civil_to_epoch_seconds(
                    dt.date.year,
                    dt.date.month,
                    dt.date.day,
                    dt.time.hour,
                    dt.time.minute,
                    dt.time.second,
                )
            },
            _ => None,
        }
    }

    /// The value the calendar library reads from the given text: a
    /// bare date, else a bare time, else a UTC date-time, in that
    /// order; nothing when no form matches.
    pub fn parse(text: &str) -> (r: Option<DateTime>)
        ensures
            r == parse_spec(text@),
            r is Some ==> r->0.wf(),
    {
        match parse_date_text(text) {
            Some(t) => Some(DateTime::Date(CalendarDate { year: t.0, month: t.1, day: t.2 })),
            None => match parse_time_text(text) {
                Some(t) => Some(DateTime::Time(ClockTime { hour: t.0, minute: t.1, second: t.2 })),
                None => match parse_civil_text(text) {
                    Some(t) => Some(
                        DateTime::DateTime(
                            CivilDateTime {
                                date: CalendarDate { year: t.0, month: t.1, day: t.2 },
                                time: ClockTime { hour: t.3, minute: t.4, second: t.5 },
                            },
                        ),
                    ),
                    None => None,
                },
            },
        }
    }

    /// The current moment in UTC, read from the system clock.
    pub fn now() -> (r: DateTime)
        ensures
            r is DateTime,
            r.wf(),
    {
        let t = now_civil();
        DateTime::DateTime(
            CivilDateTime {
                date: CalendarDate { year: t.0, month: t.1, day: t.2 },
                time: ClockTime { hour: t.3, minute: t.4, second: t.5 },
            },
        )
    }

    /// The second, of a time or a date-time.
    pub fn second(&self) -> (r: Option<u32>)
        ensures
            r == match self {
                DateTime::Time(t) => Some(t.second),
                DateTime::DateTime(dt) => Some(dt.time.second),
                _ => None::<u32>,
            },
    {
        match self {
            DateTime::Time(t) => Some(t.second),
            DateTime::DateTime(dt) => Some(dt.time.second),
            _ => None,
        }
    }
}

/// The date-time a component tuple stands for.
pub open spec fn civil_of_tuple(t: (int, int, int, int, int, int)) -> DateTime {
    DateTime::DateTime(
        CivilDateTime {
            date: CalendarDate { year: t.0 as i32, month: t.1 as u32, day: t.2 as u32 },
            time: ClockTime { hour: t.3 as u32, minute: t.4 as u32, second: t.5 as u32 },
        },
    )
}

/// What parsing yields: the three textual forms tried in order.
pub open spec fn parse_spec(s: Seq<char>) -> Option<DateTime> {
    match parsed_date(s) {
        Some(t) => Some(
            DateTime::Date(
                CalendarDate { year: t.0 as i32, month: t.1 as u32, day: t.2 as u32 },
            ),
        ),
        None => match parsed_time(s) {
            Some(t) => Some(
                DateTime::Time(
                    ClockTime { hour: t.0 as u32, minute: t.1 as u32, second: t.2 as u32 },
                ),
            ),
            None => match parsed_civil(s) {
                Some(t) => Some(civil_of_tuple(t)),
                None => None,
            },
        },
    }
}

/// What moving a value forward by a span yields, over the calendar
/// library's named results.
pub open spec fn add_duration_spec(dt: DateTime, duration: Duration) -> Option<DateTime> {
    match dt {
        DateTime::Date(d) => match shifted_date(
            d.year as int,
            d.month as int,
            d.day as int,
            duration.num_days_spec(),
        ) {
            Some(t) => Some(
                DateTime::Date(
                    CalendarDate { year: t.0 as i32, month: t.1 as u32, day: t.2 as u32 },
                ),
            ),
            None => None,
        },
        DateTime::Time(_) => None,
        DateTime::DateTime(c) => match shifted_civil(
            c.date.year as int,
            c.date.month as int,
            c.date.day as int,
            c.time.hour as int,
            c.time.minute as int,
            c.time.second as int,
            duration.secs as int,
        ) {
            Some(t) => Some(civil_of_tuple(t)),
            None => None,
        },
    }
}

/// What moving a value backward by a span yields.
pub open spec fn subtract_duration_spec(dt: DateTime, duration: Duration) -> Option<DateTime> {
    match dt {
        DateTime::Date(d) => match shifted_date(
            d.year as int,
            d.month as int,
            d.day as int,
            -duration.num_days_spec(),
        ) {
            Some(t) => Some(
                DateTime::Date(
                    CalendarDate { year: t.0 as i32, month: t.1 as u32, day: t.2 as u32 },
                ),
            ),
            None => None,
        },
        DateTime::Time(_) => None,
        DateTime::DateTime(c) => match shifted_civil(
            c.date.year as int,
            c.date.month as int,
            c.date.day as int,
            c.time.hour as int,
            c.time.minute as int,
            c.time.second as int,
            -(duration.secs as int),
        ) {
            Some(t) => Some(civil_of_tuple(t)),
            None => None,
        },
    }
}

/// What the span from one value to another is: whole days between two
/// dates, seconds between two date-times, nothing otherwise.
pub open spec fn duration_between_spec(a: DateTime, b: DateTime) -> Option<Duration> {
    match (a, b) {
        (DateTime::Date(x), DateTime::Date(y)) => match days_between(
            x.year as int,
            x.month as int,
            x.day as int,
            y.year as int,
            y.month as int,
            y.day as int,
        ) {
            Some(n) => if -106751991167300 <= n <= 106751991167300 {
                Some(Duration { secs: (n * 86400) as i64 })
            } else {
                None
            },
            None => None,
        },
        (DateTime::DateTime(x), DateTime::DateTime(y)) => match seconds_between(
            x.date.year as int,
            x.date.month as int,
            x.date.day as int,
            x.time.hour as int,
            x.time.minute as int,
            x.time.second as int,
            y.date.year as int,
            y.date.month as int,
            y.date.day as int,
            y.time.hour as int,
            y.time.minute as int,
            y.time.second as int,
        ) {
            Some(n) => if i64::MIN < n <= i64::MAX {
                Some(Duration { secs: n as i64 })
            } else {
                None
            },
            None => None,
        },
        _ => None,
    }
}

/// The UTC epoch seconds of a held date-time.
pub open spec fn timestamp_spec(dt: DateTime) -> Option<i64> {
    match dt {
        DateTime::DateTime(c) => match epoch_seconds(
            c.date.year as int,
            c.date.month as int,
            c.date.day as int,
            c.time.hour as int,
            c.time.minute as int,
            c.time.second as int,
        ) {
            Some(n) => if i64::MIN <= n <= i64::MAX {
                Some(n as i64)
            } else {
                None
            },
            None => None,
        },
        _ => None,
    }
}

/// What the calendar library returns for moving a date by whole days.
pub uninterp spec fn shifted_date(y: int, m: int, d: int, delta: int) -> Option<(int, int, int)>;

/// What the calendar library returns for moving a UTC date-time by
/// seconds.
pub uninterp spec fn shifted_civil(
    y: int,
    m: int,
    d: int,
    h: int,
    mi: int,
    s: int,
    delta: int,
) -> Option<(int, int, int, int, int, int)>;

/// What the calendar library returns for the whole days from one date
/// to another.
pub uninterp spec fn days_between(
    y1: int,
    m1: int,
    d1: int,
    y2: int,
    m2: int,
    d2: int,
) -> Option<int>;

/// What the calendar library returns for the seconds from one UTC
/// date-time to another.
pub uninterp spec fn seconds_between(
    y1: int,
    m1: int,
    d1: int,
    h1: int,
    mi1: int,
    s1: int,
    y2: int,
    m2: int,
    d2: int,
    h2: int,
    mi2: int,
    s2: int,
) -> Option<int>;

/// What the calendar library returns for the UTC epoch seconds of a
/// date-time.
pub uninterp spec fn epoch_seconds(y: int, m: int, d: int, h: int, mi: int, s: int) -> Option<int>;

/// What the calendar library reads from text as a bare date.
pub uninterp spec fn parsed_date(s: Seq<char>) -> Option<(int, int, int)>;

/// What the calendar library reads from text as a bare time.
pub uninterp spec fn parsed_time(s: Seq<char>) -> Option<(int, int, int)>;

/// What the calendar library reads from text as a UTC date-time.
pub uninterp spec fn parsed_civil(s: Seq<char>) -> Option<(int, int, int, int, int, int)>;

/// Relies on chrono's NaiveDate::from_ymd_opt and checked_add_signed
/// with TimeDelta::try_days: pure calendar arithmetic, a function of
/// its arguments alone; any date it returns exists in the calendar,
/// and a shift of zero days, when it returns at all, returns the date
/// it was given.
#[verifier::external_body]
fn date_plus_days(y: i32, m: u32, d: u32, delta: i64) -> (r: Option<(i32, u32, u32)>)
    requires
        valid_date(y as int, m as int, d as int),
        -106751991167300 <= delta <= 106751991167300,
    ensures
        r == match shifted_date(y as int, m as int, d as int, delta as int) {
            Some(t) => Some(((t.0 as i32), (t.1 as u32), (t.2 as u32))),
            None => None::<(i32, u32, u32)>,
        },
        match r {
            Some(t) => valid_date(t.0 as int, t.1 as int, t.2 as int) && shifted_date(
                y as int,
                m as int,
                d as int,
                delta as int,
            ) == Some((t.0 as int, t.1 as int, t.2 as int)),
            None => shifted_date(y as int, m as int, d as int, delta as int) is None,
        },
        delta == 0 && r is Some ==> r == Some((y, m, d)),
{
    let date = chrono::NaiveDate::from_ymd_opt(y, m, d)?;
    let span = chrono::TimeDelta::try_days(delta)?;
    let moved = date.checked_add_signed(span)?;
    Some((
        chrono::Datelike::year(&moved),
        chrono::Datelike::month(&moved),
        chrono::Datelike::day(&moved),
    ))
}

/// Relies on chrono's TimeZone::with_ymd_and_hms for Utc and
/// checked_add_signed with TimeDelta::try_seconds: pure calendar
/// arithmetic, a function of its arguments alone; any components it
/// returns form a real date and time, and a shift of zero seconds,
/// when it returns at all, returns what it was given.
#[verifier::external_body]
fn civil_plus_seconds(y: i32, m: u32, d: u32, h: u32, mi: u32, s: u32, delta: i64) -> (r: Option<
    (i32, u32, u32, u32, u32, u32),
>)
    requires
        valid_date(y as int, m as int, d as int),
        valid_time(h as int, mi as int, s as int),
    ensures
        r == match shifted_civil(
            y as int,
            m as int,
            d as int,
            h as int,
            mi as int,
            s as int,
            delta as int,
        ) {
            Some(t) => Some(
                ((t.0 as i32), (t.1 as u32), (t.2 as u32), (t.3 as u32), (t.4 as u32), (
                t.5 as u32)),
            ),
            None => None::<(i32, u32, u32, u32, u32, u32)>,
        },
        match r {
            Some(t) => valid_date(t.0 as int, t.1 as int, t.2 as int) && valid_time(
                t.3 as int,
                t.4 as int,
                t.5 as int,
            ) && shifted_civil(
                y as int,
                m as int,
                d as int,
                h as int,
                mi as int,
                s as int,
                delta as int,
            ) == Some((t.0 as int, t.1 as int, t.2 as int, t.3 as int, t.4 as int, t.5 as int)),
            None => shifted_civil(
                y as int,
                m as int,
                d as int,
                h as int,
                mi as int,
                s as int,
                delta as int,
            ) is None,
        },
        delta == 0 && r is Some ==> r == Some((y, m, d, h, mi, s)),
{
    let base = match chrono::TimeZone::with_ymd_and_hms(&chrono::Utc, y, m, d, h, mi, s) {
        chrono::LocalResult::Single(t) => t,
        _ => return None,
    };
    let span = chrono::TimeDelta::try_seconds(delta)?;
    let moved = base.checked_add_signed(span)?;
    Some((
        chrono::Datelike::year(&moved),
        chrono::Datelike::month(&moved),
        chrono::Datelike::day(&moved),
        chrono::Timelike::hour(&moved),
        chrono::Timelike::minute(&moved),
        chrono::Timelike::second(&moved),
    ))
}

/// Relies on chrono's NaiveDate::signed_duration_since and
/// TimeDelta::num_days: the whole days from the first date to the
/// second, a function of its arguments alone; the distance from a
/// date to itself, when the date is in the library's range, is zero.
#[verifier::external_body]
fn date_diff_days(y1: i32, m1: u32, d1: u32, y2: i32, m2: u32, d2: u32) -> (r: Option<i64>)
    requires
        valid_date(y1 as int, m1 as int, d1 as int),
        valid_date(y2 as int, m2 as int, d2 as int),
    ensures
        r == match days_between(y1 as int, m1 as int, d1 as int, y2 as int, m2 as int, d2 as int) {
            Some(n) => if i64::MIN <= n <= i64::MAX {
                Some(n as i64)
            } else {
                None::<i64>
            },
            None => None::<i64>,
        },
        match r {
            Some(n) => days_between(
                y1 as int,
                m1 as int,
                d1 as int,
                y2 as int,
                m2 as int,
                d2 as int,
            ) == Some(n as int),
            None => true,
        },
        (y1 == y2 && m1 == m2 && d1 == d2) && r is Some ==> r == Some(0i64),
{
    let a = chrono::NaiveDate::from_ymd_opt(y1, m1, d1)?;
    let b = chrono::NaiveDate::from_ymd_opt(y2, m2, d2)?;
    Some(b.signed_duration_since(a).num_days())
}

/// Relies on chrono's DateTime::signed_duration_since and
/// TimeDelta::num_seconds: the seconds from the first UTC date-time to
/// the second, a function of its arguments alone; the distance from a
/// moment to itself, when the moment is in the library's range, is
/// zero.
#[verifier::external_body]
fn civil_diff_seconds(
    y1: i32,
    m1: u32,
    d1: u32,
    h1: u32,
    mi1: u32,
    s1: u32,
    y2: i32,
    m2: u32,
    d2: u32,
    h2: u32,
    mi2: u32,
    s2: u32,
) -> (r: Option<i64>)
    requires
        valid_date(y1 as int, m1 as int, d1 as int),
        valid_time(h1 as int, mi1 as int, s1 as int),
        valid_date(y2 as int, m2 as int, d2 as int),
        valid_time(h2 as int, mi2 as int, s2 as int),
    ensures
        r == match seconds_between(
            y1 as int,
            m1 as int,
            d1 as int,
            h1 as int,
            mi1 as int,
            s1 as int,
            y2 as int,
            m2 as int,
            d2 as int,
            h2 as int,
            mi2 as int,
            s2 as int,
        ) {
            Some(n) => if i64::MIN <= n <= i64::MAX {
                Some(n as i64)
            } else {
                None::<i64>
            },
            None => None::<i64>,
        },
        (y1 == y2 && m1 == m2 && d1 == d2 && h1 == h2 && mi1 == mi2 && s1 == s2) && r is Some
            ==> r == Some(0i64),
{
    let a = match chrono::TimeZone::with_ymd_and_hms(&chrono::Utc, y1, m1, d1, h1, mi1, s1) {
        chrono::LocalResult::Single(t) => t,
        _ => return None,
    };
    let b = match chrono::TimeZone::with_ymd_and_hms(&chrono::Utc, y2, m2, d2, h2, mi2, s2) {
        chrono::LocalResult::Single(t) => t,
        _ => return None,
    };
    Some(b.signed_duration_since(a).num_seconds())
}

/// Relies on chrono's TimeZone::with_ymd_and_hms for Utc and
/// DateTime::timestamp: the UTC epoch seconds of the components, a
/// function of its arguments alone.
#[verifier::external_body]
fn civil_to_epoch_seconds(y: i32, m: u32, d: u32, h: u32, mi: u32, s: u32) -> (r: Option<i64>)
    requires
        valid_date(y as int, m as int, d as int),
        valid_time(h as int, mi as int, s as int),
    ensures
        r == match epoch_seconds(y as int, m as int, d as int, h as int, mi as int, s as int) {
            Some(n) => if i64::MIN <= n <= i64::MAX {
                Some(n as i64)
            } else {
                None::<i64>
            },
            None => None::<i64>,
        },
{
    match chrono::TimeZone::with_ymd_and_hms(&chrono::Utc, y, m, d, h, mi, s) {
        chrono::LocalResult::Single(t) => Some(t.timestamp()),
        _ => None,
    }
}

/// Relies on chrono's FromStr for NaiveDate: what the text spells as a
/// bare date, a function of the characters alone; any date it returns
/// exists in the calendar.
#[verifier::external_body]
fn parse_date_text(text: &str) -> (r: Option<(i32, u32, u32)>)
    ensures
        r == match parsed_date(text@) {
            Some(t) => Some(((t.0 as i32), (t.1 as u32), (t.2 as u32))),
            None => None::<(i32, u32, u32)>,
        },
        match r {
            Some(t) => valid_date(t.0 as int, t.1 as int, t.2 as int) && parsed_date(text@)
                == Some((t.0 as int, t.1 as int, t.2 as int)),
            None => parsed_date(text@) is None,
        },
{
    let date: chrono::NaiveDate = text.parse().ok()?;
    Some((
        chrono::Datelike::year(&date),
        chrono::Datelike::month(&date),
        chrono::Datelike::day(&date),
    ))
}

/// Relies on chrono's FromStr for NaiveTime: what the text spells as a
/// bare time, a function of the characters alone; any time it returns
/// is a real time of day.
#[verifier::external_body]
fn parse_time_text(text: &str) -> (r: Option<(u32, u32, u32)>)
    ensures
        r == match parsed_time(text@) {
            Some(t) => Some(((t.0 as u32), (t.1 as u32), (t.2 as u32))),
            None => None::<(u32, u32, u32)>,
        },
        match r {
            Some(t) => valid_time(t.0 as int, t.1 as int, t.2 as int) && parsed_time(text@)
                == Some((t.0 as int, t.1 as int, t.2 as int)),
            None => parsed_time(text@) is None,
        },
{
    let time: chrono::NaiveTime = text.parse().ok()?;
    Some((
        chrono::Timelike::hour(&time),
        chrono::Timelike::minute(&time),
        chrono::Timelike::second(&time),
    ))
}

/// Relies on chrono's FromStr for DateTime<Utc>: what the text spells
/// as a UTC date-time, a function of the characters alone; any
/// components it returns form a real date and time.
#[verifier::external_body]
fn parse_civil_text(text: &str) -> (r: Option<(i32, u32, u32, u32, u32, u32)>)
    ensures
        r == match parsed_civil(text@) {
            Some(t) => Some(
                ((t.0 as i32), (t.1 as u32), (t.2 as u32), (t.3 as u32), (t.4 as u32), (
                t.5 as u32)),
            ),
            None => None::<(i32, u32, u32, u32, u32, u32)>,
        },
        match r {
            Some(t) => valid_date(t.0 as int, t.1 as int, t.2 as int) && valid_time(
                t.3 as int,
                t.4 as int,
                t.5 as int,
            ) && parsed_civil(text@) == Some(
                (t.0 as int, t.1 as int, t.2 as int, t.3 as int, t.4 as int, t.5 as int),
            ),
            None => parsed_civil(text@) is None,
        },
{
    let dt: chrono::DateTime<chrono::Utc> = text.parse().ok()?;
    Some((
        chrono::Datelike::year(&dt),
        chrono::Datelike::month(&dt),
        chrono::Datelike::day(&dt),
        chrono::Timelike::hour(&dt),
        chrono::Timelike::minute(&dt),
        chrono::Timelike::second(&dt),
    ))
}

/// Relies on chrono's Utc::now and its component accessors: whatever
/// moment the clock reports, its components form a real date and time.
#[verifier::external_body]
fn now_civil() -> (r: (i32, u32, u32, u32, u32, u32))
    ensures
        valid_date(r.0 as int, r.1 as int, r.2 as int),
        valid_time(r.3 as int, r.4 as int, r.5 as int),
{
    let t = chrono::Utc::now();
    (
        chrono::Datelike::year(&t),
        chrono::Datelike::month(&t),
        chrono::Datelike::day(&t),
        chrono::Timelike::hour(&t),
        chrono::Timelike::minute(&t),
        chrono::Timelike::second(&t),
    )
}

/// The numeral of a value padded with zeros to two places.
pub open spec fn pad2(v: int) -> Seq<char>
    recommends
        0 <= v < 100,
{
    if v < 10 {
        seq!['0'] + dec_digits(v as nat)
    } else {
        dec_digits(v as nat)
    }
}

/// The numeral of a value padded with zeros to four places.
pub open spec fn pad4(v: int) -> Seq<char>
    recommends
        0 <= v < 10000,
{
    if v < 10 {
        seq!['0', '0', '0'] + dec_digits(v as nat)
    } else if v < 100 {
        seq!['0', '0'] + dec_digits(v as nat)
    } else if v < 1000 {
        seq!['0'] + dec_digits(v as nat)
    } else {
        dec_digits(v as nat)
    }
}

/// The ISO text of a date: four-digit year, two-digit month and day.
pub open spec fn date_iso_of(y: int, m: int, d: int) -> Seq<char> {
    pad4(y) + seq!['-'] + pad2(m) + seq!['-'] + pad2(d)
}

/// The ISO text of a time of day: two digits each.
pub open spec fn time_iso_of(h: int, mi: int, s: int) -> Seq<char> {
    pad2(h) + seq![':'] + pad2(mi) + seq![':'] + pad2(s)
}

/// The ISO text of a UTC date-time, without an offset.
pub open spec fn civil_iso_of(dt: CivilDateTime) -> Seq<char> {
    date_iso_of(dt.date.year as int, dt.date.month as int, dt.date.day as int) + seq!['T']
        + time_iso_of(dt.time.hour as int, dt.time.minute as int, dt.time.second as int)
}

/// The ISO text of any held form.
pub open spec fn iso_of(dt: DateTime) -> Seq<char> {
    match dt {
        DateTime::Date(d) => date_iso_of(d.year as int, d.month as int, d.day as int),
        DateTime::Time(t) => time_iso_of(t.hour as int, t.minute as int, t.second as int),
        DateTime::DateTime(c) => civil_iso_of(c),
    }
}

/// True when every numeral the ISO text needs fits its field: the
/// components are real calendar values and the year is not negative
/// and at most four digits wide.
pub open spec fn iso_formattable(dt: DateTime) -> bool {
    dt.wf() && match dt {
        DateTime::Date(d) => 0 <= d.year < 10000,
        DateTime::Time(_) => true,
        DateTime::DateTime(c) => 0 <= c.date.year < 10000,
    }
}

/// Appends the two-digit numeral of a value below one hundred.
fn append_pad2(out: &mut String, v: u32)
    requires
        v < 100,
    ensures
        final(out)@ == old(out)@ + pad2(v as int),
{
    if v < 10 {
        proof {
            reveal_strlit("0");
            assert("0"@ =~= seq!['0']);
        }
        out.append("0");
    }
    let digits = crate::render::u128_to_string(v as u128);
    out.append(digits.as_str());
    proof {
        if v < 10 {
            assert(final(out)@ =~= old(out)@ + pad2(v as int));
        }
    }
}

/// Appends the four-digit numeral of a value below ten thousand.
fn append_pad4(out: &mut String, v: i32)
    requires
        0 <= v < 10000,
    ensures
        final(out)@ == old(out)@ + pad4(v as int),
{
    proof {
        reveal_strlit("0");
        assert("0"@ =~= seq!['0']);
    }
    if v < 10 {
        out.append("0");
        out.append("0");
        out.append("0");
    } else if v < 100 {
        out.append("0");
        out.append("0");
    } else if v < 1000 {
        out.append("0");
    }
    let digits = crate::render::u128_to_string(v as u128);
    out.append(digits.as_str());
    proof {
        assert(final(out)@ =~= old(out)@ + pad4(v as int));
    }
}

impl DateTime {
    /// The value in ISO-8601 text: `%Y-%m-%d` for a date, `%H:%M:%S`
    /// for a time, and `%Y-%m-%dT%H:%M:%S` for a date-time.
    pub fn to_iso8601(&self) -> (r: String)
        requires
            iso_formattable(*self),
        ensures
            r@ == iso_of(*self),
    {
        let mut out = String::new();
        proof {
            reveal_strlit("-");
            reveal_strlit(":");
            reveal_strlit("T");
            assert("-"@ =~= seq!['-']);
            assert(":"@ =~= seq![':']);
            assert("T"@ =~= seq!['T']);
        }
        match self {
            DateTime::Date(d) => {
                append_pad4(&mut out, d.year);
                out.append("-");
                append_pad2(&mut out, d.month);
                out.append("-");
                append_pad2(&mut out, d.day);
                proof {
                    assert(out@ =~= iso_of(*self));
                }
            },
            DateTime::Time(t) => {
                append_pad2(&mut out, t.hour);
                out.append(":");
                append_pad2(&mut out, t.minute);
                out.append(":");
                append_pad2(&mut out, t.second);
                proof {
                    assert(out@ =~= iso_of(*self));
                }
            },
            DateTime::DateTime(c) => {
                append_pad4(&mut out, c.date.year);
                out.append("-");
                append_pad2(&mut out, c.date.month);
                out.append("-");
                append_pad2(&mut out, c.date.day);
                out.append("T");
                append_pad2(&mut out, c.time.hour);
                out.append(":");
                append_pad2(&mut out, c.time.minute);
                out.append(":");
                append_pad2(&mut out, c.time.second);
                proof {
                    assert(out@ =~= iso_of(*self));
                }
            },
        }
        out
    }

    /// The value in RFC-3339 text when a UTC date-time is held (the
    /// offset is always `+00:00`); empty text for the other forms.
    pub fn to_rfc3339(&self) -> (r: String)
        requires
            iso_formattable(*self),
        ensures
            match *self {
                DateTime::DateTime(c) => r@ == civil_iso_of(c) + "+00:00"@,
                _ => r@ == Seq::<char>::empty(),
            },
    {
        match self {
            DateTime::DateTime(_) => {
                let mut out = self.to_iso8601();
                out.append("+00:00");
                out
            },
            _ => String::new(),
        }
    }
}

} // verus!
