//! Civil dates of the proleptic Gregorian calendar.

use vstd::prelude::*;

verus! {

/// The declaration of `jiff::Error`, carried through as an opaque value.
#[verifier::external_type_specification]
#[verifier::external_body]
pub struct ExJiffError(jiff::Error);

/// What can go wrong while a tracked date is recomputed.
#[derive(Clone, Copy, Debug, PartialEq, Eq, Structural)]
pub enum DateError {
    /// The year, month and day do not form a civil date.
    InvalidDate,
    /// A span or a unit conversion left the representable range.
    SpanOverflow,
}

pub open spec fn is_leap_year(year: int) -> bool {
    year % 4 == 0 && (year % 100 != 0 || year % 400 == 0)
}

pub open spec fn days_in_month(year: int, month: int) -> int {
    if month == 2 {
        if is_leap_year(year) {
            29
        } else {
            28
        }
    } else if month == 4 || month == 6 || month == 9 || month == 11 {
        30
    } else {
        31
    }
}

/// The triples that name a civil date: years from -9999 to 9999.
pub open spec fn valid_ymd(year: int, month: int, day: int) -> bool {
    &&& -9999 <= year <= 9999
    &&& 1 <= month <= 12
    &&& 1 <= day <= days_in_month(year, month)
}

/// Days from the first of January of year 0 to the first of January of `year`.
pub open spec fn days_before_year(year: int) -> int {
    365 * year + (year + 3) / 4 - (year + 99) / 100 + (year + 399) / 400
}

/// Days from the first of January of `year` to the first of `month`.
pub open spec fn days_before_month(year: int, month: int) -> int
    decreases month,
{
    if month <= 1 {
        0
    } else {
        days_before_month(year, month - 1) + days_in_month(year, month - 1)
    }
}

/// The number of the day `year`-`month`-`day`, counted from 0000-01-01.
pub open spec fn day_number(year: int, month: int, day: int) -> int {
    days_before_year(year) + days_before_month(year, month) + day - 1
}

/// The date that `jiff::civil::Date` reads in a text, as year, month and day;
/// `None` where it reads none.
pub uninterp spec fn parsed_date(text: Seq<char>) -> Option<(int, int, int)>;

/// The order of dates: by year, then month, then day.
pub open spec fn ymd_before(y1: int, m1: int, d1: int, y2: int, m2: int, d2: int) -> bool {
    y1 < y2 || (y1 == y2 && (m1 < m2 || (m1 == m2 && d1 < d2)))
}

/// A calendar date without time or zone.
#[derive(Clone, Copy, Debug, PartialEq, Eq, Structural)]
pub struct CivilDate {
    year: i16,
    month: i8,
    day: i8,
}

impl CivilDate {
    pub closed spec fn spec_year(&self) -> int {
        self.year as int
    }

    pub closed spec fn spec_month(&self) -> int {
        self.month as int
    }

    pub closed spec fn spec_day(&self) -> int {
        self.day as int
    }

    /// The date's fields name a civil date.
    pub open spec fn wf(&self) -> bool {
        valid_ymd(self.spec_year(), self.spec_month(), self.spec_day())
    }

    pub open spec fn is(&self, year: int, month: int, day: int) -> bool {
        self.spec_year() == year && self.spec_month() == month && self.spec_day() == day
    }

    pub open spec fn day_number(&self) -> int {
        day_number(self.spec_year(), self.spec_month(), self.spec_day())
    }

    /// `self` is an earlier day than `other`.
    pub open spec fn before(&self, other: &CivilDate) -> bool {
        ymd_before(
            self.spec_year(),
            self.spec_month(),
            self.spec_day(),
            other.spec_year(),
            other.spec_month(),
            other.spec_day(),
        )
    }

    /// The date of the given year, month and day, where there is one.
    pub fn new(year: i16, month: i8, day: i8) -> (res: Result<CivilDate, DateError>)
        ensures
            res.is_ok() <==> valid_ymd(year as int, month as int, day as int),
            res matches Ok(d) ==> d.wf() && d.is(year as int, month as int, day as int),
            res matches Err(e) ==> e == DateError::InvalidDate,
    {
        match jiff_date_new(year, month, day) {
            Ok(d) => Ok(d),
            Err(_) => Err(DateError::InvalidDate),
        }
    }

    /// The date written in a text, where the text holds one.
    pub fn parse(text: &str) -> (res: Result<CivilDate, DateError>)
        ensures
            res matches Ok(d) ==> d.wf() && parsed_date(text@) == Some(
                (d.spec_year(), d.spec_month(), d.spec_day()),
            ),
            res is Err <==> parsed_date(text@) is None,
            res matches Err(e) ==> e == DateError::InvalidDate,
    {
        match jiff_date_from_str(text) {
            Ok(d) => Ok(d),
            Err(_) => Err(DateError::InvalidDate),
        }
    }

    /// The first of January of year 0, the value of a date not yet computed.
    pub fn zero() -> (d: CivilDate)
        ensures
            d.wf(),
            d.is(0, 1, 1),
    {
        CivilDate { year: 0, month: 1, day: 1 }
    }

    pub fn year(&self) -> (y: i16)
        ensures
            y == self.spec_year(),
    {
        self.year
    }

    pub fn month(&self) -> (m: i8)
        ensures
            m == self.spec_month(),
    {
        self.month
    }

    pub fn day(&self) -> (d: i8)
        ensures
            d == self.spec_day(),
    {
        self.day
    }

    /// Whether `self` is a later day than `other`.
    pub fn later_than(&self, other: &CivilDate) -> (b: bool)
        ensures
            b == other.before(self),
    {
        if self.year != other.year {
            self.year > other.year
        } else if self.month != other.month {
            self.month > other.month
        } else {
            self.day > other.day
        }
    }

    /// The whole seconds from midnight of `earlier` to midnight of `self`,
    /// negative where `earlier` is the later day.
    pub fn seconds_since(&self, earlier: &CivilDate) -> (secs: i64)
        requires
            self.wf(),
            earlier.wf(),
        ensures
            secs == 86400 * (self.day_number() - earlier.day_number()),
    {
        jiff_duration_since(self, earlier)
    }
}

/// Calls `jiff::civil::Date::new`. Claimed of it: it succeeds exactly on a
/// year from -9999 to 9999, a month from 1 to 12 and a day that the month has
/// in that year, and the date it returns has the fields it was given.
#[verifier::external_body]
fn jiff_date_new(year: i16, month: i8, day: i8) -> (res: Result<CivilDate, jiff::Error>)
    ensures
        res.is_ok() <==> valid_ymd(year as int, month as int, day as int),
        res matches Ok(d) ==> d.wf() && d.is(year as int, month as int, day as int),
{
    match jiff::civil::Date::new(year, month, day) {
        Ok(d) => Ok(CivilDate { year: d.year(), month: d.month(), day: d.day() }),
        Err(e) => Err(e),
    }
}

/// Calls the `from_str` of `jiff::civil::Date`. Claimed of it: whether it
/// reads a date, and which, depends on the text alone, and the date it returns
/// is one of the calendar.
#[verifier::external_body]
fn jiff_date_from_str(text: &str) -> (res: Result<CivilDate, jiff::Error>)
    ensures
        res matches Ok(d) ==> d.wf() && parsed_date(text@) == Some(
            (d.spec_year(), d.spec_month(), d.spec_day()),
        ),
        res is Err <==> parsed_date(text@) is None,
{
    match text.parse::<jiff::civil::Date>() {
        Ok(d) => Ok(CivilDate { year: d.year(), month: d.month(), day: d.day() }),
        Err(e) => Err(e),
    }
}

/// Calls `jiff::civil::Date::duration_since`. Claimed of it: the duration
/// from `earlier` to `later` is 86400 seconds for each day between the two,
/// negative where `earlier` is the later day.
#[verifier::external_body]
fn jiff_duration_since(later: &CivilDate, earlier: &CivilDate) -> (secs: i64)
    requires
        later.wf(),
        earlier.wf(),
    ensures
        secs == 86400 * (later.day_number() - earlier.day_number()),
{
    let a = jiff::civil::date(later.year, later.month, later.day);
    let b = jiff::civil::date(earlier.year, earlier.month, earlier.day);
    a.duration_since(b).as_secs()
}

/// Within one year a later month starts after the last day of an earlier one.
pub proof fn lemma_months_in_order(year: int, m1: int, m2: int)
    requires
        1 <= m1 < m2,
    ensures
        days_before_month(year, m1) + days_in_month(year, m1) <= days_before_month(year, m2),
    decreases m2,
{
    if m1 + 1 < m2 {
        lemma_months_in_order(year, m1, m2 - 1);
    }
}

/// The months of a year hold 365 days, or 366 where it is a leap year.
pub proof fn lemma_months_of_year(year: int)
    ensures
        days_before_month(year, 13) == if is_leap_year(year) { 366int } else { 365int },
{
    reveal_with_fuel(days_before_month, 14);
}

/// A year ends where the next begins: 365 days after its start, or 366 where
/// it is a leap year.
pub proof fn lemma_year_length(year: int)
    ensures
        days_before_month(year, 13) == if is_leap_year(year) { 366int } else { 365int },
        days_before_year(year + 1) - days_before_year(year) == days_before_month(year, 13),
{
    lemma_months_of_year(year);
    let by4 = (year + 4) / 4 - (year + 3) / 4;
    let by100 = (year + 100) / 100 - (year + 99) / 100;
    let by400 = (year + 400) / 400 - (year + 399) / 400;
    assert(by4 == if year % 4 == 0 { 1int } else { 0int });
    assert(by100 == if year % 100 == 0 { 1int } else { 0int });
    assert(by400 == if year % 400 == 0 { 1int } else { 0int });
    assert(year % 400 == 0 ==> year % 100 == 0);
    assert(year % 100 == 0 ==> year % 4 == 0);
    assert(days_before_year(year + 1) - days_before_year(year) == 365 + by4 - by100 + by400);
}

/// Dates with the same year, month and day are the same date.
pub proof fn lemma_fields_determine(a: CivilDate, b: CivilDate)
    requires
        a.is(b.spec_year(), b.spec_month(), b.spec_day()),
    ensures
        a == b,
{
}

/// The day numbers of the calendar's first and last day bound all others.
pub proof fn lemma_day_number_bounds(d: CivilDate)
    requires
        d.wf(),
    ensures
        -3_652_059 <= d.day_number() <= 3_652_424,
{
    let (y, m) = (d.spec_year(), d.spec_month());
    lemma_year_length(y);
    lemma_months_in_order(y, m, 13);
    if m > 1 {
        lemma_months_in_order(y, 1, m);
    }
}

/// Day numbers grow with the dates: the earlier date has the smaller number.
pub proof fn lemma_day_number_in_order(a: CivilDate, b: CivilDate)
    requires
        a.wf(),
        b.wf(),
        a.before(&b),
    ensures
        a.day_number() < b.day_number(),
{
    let (y1, m1, d1) = (a.spec_year(), a.spec_month(), a.spec_day());
    let (y2, m2, d2) = (b.spec_year(), b.spec_month(), b.spec_day());
    if y1 < y2 {
        lemma_year_length(y1);
        if m1 < 13 {
            lemma_months_in_order(y1, m1, 13);
        }
        assert(days_before_year(y1 + 1) <= days_before_year(y2));
        if m2 > 1 {
            lemma_months_in_order(y2, 1, m2);
        }
    } else if m1 < m2 {
        lemma_months_in_order(y1, m1, m2);
    }
}

} // verus!
