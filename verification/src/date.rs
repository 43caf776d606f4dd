//! Calendar dates of the proleptic Gregorian calendar.
//!
//! A [`Date`] holds a year and the day of that year. Its day number counts
//! days with January 1 of year 1 as day 1; the difference of two day numbers
//! is what the store uses as an offset on its daily axis.

use chrono::Datelike;
use chrono::NaiveDate;
use vstd::prelude::*;

verus! {

/// The first year that a date can have.
pub const MIN_YEAR: i32 = -262143;

/// The last year that a date can have.
pub const MAX_YEAR: i32 = 262142;

/// Whether `year` has a February 29.
pub open spec fn is_leap_year(year: int) -> bool {
    year % 4 == 0 && (year % 100 != 0 || year % 400 == 0)
}

/// The number of days of `year`.
pub open spec fn days_in_year(year: int) -> int {
    if is_leap_year(year) {
        366
    } else {
        365
    }
}

/// The day number of the last day before `year` begins.
pub open spec fn days_before_year(year: int) -> int {
    let y = year - 1;
    365 * y + y / 4 - y / 100 + y / 400
}

/// The day number of the day `ordinal` (from 1) of `year`.
pub open spec fn day_number(year: int, ordinal: int) -> int {
    days_before_year(year) + ordinal
}

/// Whether `year` has a day `ordinal` and a date can hold that year.
pub open spec fn valid_yo(year: int, ordinal: int) -> bool {
    MIN_YEAR <= year <= MAX_YEAR && 1 <= ordinal <= days_in_year(year)
}

/// A year is followed by the next after exactly its own number of days.
pub proof fn lemma_year_step(year: int)
    ensures
        days_before_year(year + 1) == days_before_year(year) + days_in_year(year),
{
}

/// Between the starts of two years lie 365 to 366 days for each year passed.
pub proof fn lemma_years_apart(first: int, second: int)
    requires
        first <= second,
    ensures
        days_before_year(first) + 365 * (second - first) <= days_before_year(second),
        days_before_year(second) <= days_before_year(first) + 366 * (second - first),
    decreases second - first,
{
    if first < second {
        lemma_years_apart(first, second - 1);
        lemma_year_step(second - 1);
    }
}

/// Day numbers order the days as year and day of the year do.
pub proof fn lemma_day_number_order(y1: int, o1: int, y2: int, o2: int)
    requires
        1 <= o1 <= days_in_year(y1),
        1 <= o2 <= days_in_year(y2),
    ensures
        (y1 < y2 || (y1 == y2 && o1 < o2)) <==> day_number(y1, o1) < day_number(y2, o2),
        (y1 == y2 && o1 == o2) <==> day_number(y1, o1) == day_number(y2, o2),
{
    if y1 < y2 {
        lemma_year_step(y1);
        lemma_years_apart(y1 + 1, y2);
    } else if y2 < y1 {
        lemma_year_step(y2);
        lemma_years_apart(y2 + 1, y1);
    }
}

/// The day numbers of all dates lie well inside the range of `i32`.
pub proof fn lemma_day_number_bounds(year: int, ordinal: int)
    requires
        valid_yo(year, ordinal),
    ensures
        -96_000_000 < day_number(year, ordinal) < 96_000_000,
{
    if year >= 1 {
        lemma_years_apart(1, year);
    } else {
        lemma_years_apart(year, 1);
    }
}

/// Tells whether `year` has a February 29.
#[verifier::when_used_as_spec(is_leap_year_i32)]
pub fn leap_year(year: i32) -> (r: bool)
    ensures
        r == is_leap_year(year as int),
{
    // `%` on a negative year gives a remainder that is zero exactly when the
    // year is a multiple.
    year % 4 == 0 && (year % 100 != 0 || year % 400 == 0)
}

/// [`is_leap_year`] on a machine integer.
pub open spec fn is_leap_year_i32(year: i32) -> bool {
    is_leap_year(year as int)
}

/// The number of days of `year`: 366 in a leap year, else 365.
pub fn year_length(year: i32) -> (r: u32)
    ensures
        r == days_in_year(year as int),
{
    if leap_year(year) {
        366
    } else {
        365
    }
}

/// A day of the proleptic Gregorian calendar: a year from [`MIN_YEAR`] to
/// [`MAX_YEAR`] and a day of that year, counted from 1.
#[derive(Clone, Copy, Debug, PartialEq, Eq, Structural, Hash)]
pub struct Date {
    year: i32,
    ordinal: u32,
}

/// Calls `NaiveDate::from_yo_opt(..).num_days_from_ce()` of chrono.
///
/// Trusted: for a year and a day of the year that exist, chrono counts the
/// days from January 1 of year 1 as day 1, leap days by the Gregorian rule
/// in every year, which is [`day_number`].
#[verifier::external_body]
fn chrono_days_from_ce(year: i32, ordinal: u32) -> (days: i32)
    requires
        valid_yo(year as int, ordinal as int),
    ensures
        days == day_number(year as int, ordinal as int),
{
    NaiveDate::from_yo_opt(year, ordinal).unwrap().num_days_from_ce()
}

/// Calls `NaiveDate::from_num_days_from_ce_opt` of chrono and takes year and
/// day of the year from the date.
///
/// Trusted: chrono returns the date whose day number is `days`, and none
/// exactly when that day lies outside the years that a date can hold.
#[verifier::external_body]
fn chrono_from_days_from_ce(days: i32) -> (r: Option<(i32, u32)>)
    ensures
        match r {
            Some((year, ordinal)) => valid_yo(year as int, ordinal as int) && day_number(
                year as int,
                ordinal as int,
            ) == days,
            None => forall|y: int, o: int| valid_yo(y, o) ==> #[trigger] day_number(y, o) != days,
        },
{
    match NaiveDate::from_num_days_from_ce_opt(days) {
        Some(date) => Some((date.year(), date.ordinal())),
        None => None,
    }
}

impl Date {
    /// The year.
    pub closed spec fn year_of(self) -> int {
        self.year as int
    }

    /// The day of the year, from 1.
    pub closed spec fn ordinal_of(self) -> int {
        self.ordinal as int
    }

    /// Every date names a day that exists.
    #[verifier::type_invariant]
    pub open spec fn wf(self) -> bool {
        valid_yo(self.year_of(), self.ordinal_of())
    }

    /// The day number: January 1 of year 1 is day 1.
    pub open spec fn days(self) -> int {
        day_number(self.year_of(), self.ordinal_of())
    }

    /// The date of day `ordinal` of `year`, if there is such a day.
    pub fn from_yo_opt(year: i32, ordinal: u32) -> (r: Option<Date>)
        ensures
            r is Some <==> valid_yo(year as int, ordinal as int),
            r matches Some(d) ==> d.wf() && d.year_of() == year && d.ordinal_of() == ordinal,
    {
        if MIN_YEAR <= year && year <= MAX_YEAR && 1 <= ordinal && ordinal <= year_length(year) {
            Some(Date { year, ordinal })
        } else {
            None
        }
    }

    /// The year.
    pub fn year(&self) -> (r: i32)
        ensures
            r == self.year_of(),
            self.wf(),
    {
        proof {
            use_type_invariant(self);
        }
        self.year
    }

    /// The day of the year, from 1.
    pub fn ordinal(&self) -> (r: u32)
        ensures
            r == self.ordinal_of(),
            self.wf(),
    {
        proof {
            use_type_invariant(self);
        }
        self.ordinal
    }

    /// The day of the year, from 0.
    pub fn ordinal0(&self) -> (r: u32)
        ensures
            r == self.ordinal_of() - 1,
            self.wf(),
    {
        proof {
            use_type_invariant(self);
        }
        self.ordinal - 1
    }

    /// The day number of this date.
    pub fn num_days_from_ce(&self) -> (r: i32)
        ensures
            r == self.days(),
            self.wf(),
    {
        proof {
            use_type_invariant(self);
        }
        chrono_days_from_ce(self.year, self.ordinal)
    }

    /// The date with day number `days`; none if that day lies before
    /// [`MIN_YEAR`] or after [`MAX_YEAR`].
    pub fn from_num_days_from_ce_opt(days: i32) -> (r: Option<Date>)
        ensures
            r matches Some(d) ==> d.wf() && d.days() == days && d == Date::of_days(days as int),
            r is None ==> forall|d: Date| d.wf() ==> #[trigger] d.days() != days,
    {
        match chrono_from_days_from_ce(days) {
            Some((year, ordinal)) => {
                let date = Date { year, ordinal };
                proof {
                    let chosen = Date::of_days(days as int);
                    assert(date.wf() && date.days() == days);
                    date.lemma_days_injective(chosen);
                }
                Some(date)
            },
            None => {
                assert forall|d: Date| d.wf() implies #[trigger] d.days() != days by {
                    assert(valid_yo(d.year as int, d.ordinal as int));
                    assert(day_number(d.year as int, d.ordinal as int) != days);
                }
                None
            },
        }
    }

    /// The date with day number `n`, where there is one.
    pub open spec fn of_days(n: int) -> Date {
        choose|d: Date| d.wf() && d.days() == n
    }

    /// Every day from one date to another is a date.
    pub proof fn lemma_date_exists(lo: Date, hi: Date, n: int)
        requires
            lo.wf(),
            hi.wf(),
            lo.days() <= n <= hi.days(),
        ensures
            Date::of_days(n).wf(),
            Date::of_days(n).days() == n,
        decreases n - lo.days(),
    {
        if n == lo.days() {
            assert(lo.wf() && lo.days() == n);
        } else {
            Date::lemma_date_exists(lo, hi, n - 1);
            let before = Date::of_days(n - 1);
            lemma_day_number_order(
                before.year as int,
                before.ordinal as int,
                hi.year as int,
                hi.ordinal as int,
            );
            if before.ordinal < days_in_year(before.year as int) {
                let next = Date { year: before.year, ordinal: (before.ordinal + 1) as u32 };
                assert(next.wf() && next.days() == n);
            } else {
                lemma_year_step(before.year as int);
                let next = Date { year: (before.year + 1) as i32, ordinal: 1 };
                assert(next.wf() && next.days() == n);
            }
        }
    }

    /// Whether this date is earlier than `other`.
    pub fn lt(&self, other: &Date) -> (r: bool)
        ensures
            r == (self.days() < other.days()),
            self.wf(),
            other.wf(),
    {
        proof {
            use_type_invariant(self);
            use_type_invariant(other);
            lemma_day_number_order(
                self.year as int,
                self.ordinal as int,
                other.year as int,
                other.ordinal as int,
            );
        }
        self.year < other.year || (self.year == other.year && self.ordinal < other.ordinal)
    }

    /// Whether this date is `other` or later.
    pub fn ge(&self, other: &Date) -> (r: bool)
        ensures
            r == (self.days() >= other.days()),
            self.wf(),
            other.wf(),
    {
        !self.lt(other)
    }

    /// Two dates with one day number are one date.
    pub proof fn lemma_days_injective(self, other: Date)
        requires
            self.wf(),
            other.wf(),
            self.days() == other.days(),
        ensures
            self == other,
    {
        lemma_day_number_order(
            self.year as int,
            self.ordinal as int,
            other.year as int,
            other.ordinal as int,
        );
    }
}

} // verus!
