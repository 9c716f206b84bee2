//! Signed spans of time, their totals in one unit, and their breakdown into
//! years, weeks and days.

use vstd::prelude::*;
use jiff::civil::date;
use jiff::{Span, Unit};
use crate::calendar::{CivilDate, DateError};

verus! {

pub const MAX_SPAN_YEARS: i16 = 19_998;

pub const MAX_SPAN_MONTHS: i32 = 239_976;

pub const MAX_SPAN_WEEKS: i32 = 1_043_497;

pub const MAX_SPAN_DAYS: i32 = 7_304_484;

pub const MAX_SPAN_SECONDS: i64 = 631_107_417_600;

pub const SECONDS_PER_DAY: i64 = 86_400;

/// The units in which a span is totalled.
#[derive(Clone, Copy, Debug, PartialEq, Eq, Structural)]
pub enum TimeUnit {
    Year,
    Week,
    Day,
}

impl TimeUnit {
    pub open spec fn code(&self) -> int {
        match self {
            TimeUnit::Year => 0,
            TimeUnit::Week => 1,
            TimeUnit::Day => 2,
        }
    }
}

/// A signed span of whole days, in calendar units and in seconds. All its
/// units point the same way: none is negative while another is positive.
#[derive(Clone, Copy, Debug, PartialEq, Eq, Structural)]
pub struct ElapsedSpan {
    pub years: i16,
    pub months: i32,
    pub weeks: i32,
    pub days: i32,
    pub seconds: i64,
}

/// What a span holds, as unbounded integers.
pub struct SpanModel {
    pub years: int,
    pub months: int,
    pub weeks: int,
    pub days: int,
    pub seconds: int,
}

impl View for ElapsedSpan {
    type V = SpanModel;

    open spec fn view(&self) -> SpanModel {
        SpanModel {
            years: self.years as int,
            months: self.months as int,
            weeks: self.weeks as int,
            days: self.days as int,
            seconds: self.seconds as int,
        }
    }
}

/// The whole units that `jiff::Span::total` counts in a span, relative to the
/// date `year`-`month`-`day`, cut towards zero; `None` where it fails. The
/// unit is 0 for years, 1 for weeks and 2 for days.
pub uninterp spec fn whole_units(
    unit: int,
    year: int,
    month: int,
    day: int,
    years: int,
    months: int,
    weeks: int,
    days: int,
    seconds: int,
) -> Option<int>;

/// The span that `jiff::Span::checked_sub` returns for the first span less
/// the second, relative to the date `year`-`month`-`day`, as its years,
/// months, weeks, days and seconds; `None` where it fails.
pub uninterp spec fn span_difference(
    year: int,
    month: int,
    day: int,
    years: int,
    months: int,
    weeks: int,
    days: int,
    seconds: int,
    less_years: int,
    less_months: int,
    less_weeks: int,
    less_days: int,
    less_seconds: int,
) -> Option<(int, int, int, int, int)>;

impl SpanModel {
    /// Each unit is within its limit, the seconds make whole days, and all
    /// units point the same way.
    pub open spec fn wf(&self) -> bool {
        &&& -MAX_SPAN_YEARS <= self.years <= MAX_SPAN_YEARS
        &&& -MAX_SPAN_MONTHS <= self.months <= MAX_SPAN_MONTHS
        &&& -MAX_SPAN_WEEKS <= self.weeks <= MAX_SPAN_WEEKS
        &&& -MAX_SPAN_DAYS <= self.days <= MAX_SPAN_DAYS
        &&& -MAX_SPAN_SECONDS <= self.seconds <= MAX_SPAN_SECONDS
        &&& self.seconds % 86_400 == 0
        &&& ((self.years >= 0 && self.months >= 0 && self.weeks >= 0 && self.days >= 0
            && self.seconds >= 0) || (self.years <= 0 && self.months <= 0 && self.weeks <= 0
            && self.days <= 0 && self.seconds <= 0))
    }

    pub open spec fn of_years(years: int) -> SpanModel {
        SpanModel { years, months: 0, weeks: 0, days: 0, seconds: 0 }
    }

    pub open spec fn of_weeks(weeks: int) -> SpanModel {
        SpanModel { years: 0, months: 0, weeks, days: 0, seconds: 0 }
    }

    pub open spec fn of_seconds(seconds: int) -> SpanModel {
        SpanModel { years: 0, months: 0, weeks: 0, days: 0, seconds }
    }

    /// No unit of the span holds anything.
    pub open spec fn is_zero(&self) -> bool {
        *self == SpanModel::of_seconds(0)
    }

    /// The span holds seconds only, and they make whole days.
    pub open spec fn is_whole_days(&self) -> bool {
        *self == SpanModel::of_seconds(self.seconds) && self.seconds % 86_400 == 0
    }

    /// The span of the same length that points forward.
    pub open spec fn abs(&self) -> SpanModel {
        SpanModel {
            years: vstd::math::abs(self.years) as int,
            months: vstd::math::abs(self.months) as int,
            weeks: vstd::math::abs(self.weeks) as int,
            days: vstd::math::abs(self.days) as int,
            seconds: vstd::math::abs(self.seconds) as int,
        }
    }

    /// What the calendar counts of the span's whole units relative to `now`.
    pub open spec fn counted_in(&self, unit: TimeUnit, now: &CivilDate) -> Option<int> {
        whole_units(
            unit.code(),
            now.spec_year(),
            now.spec_month(),
            now.spec_day(),
            self.years,
            self.months,
            self.weeks,
            self.days,
            self.seconds,
        )
    }

    /// The span's whole units relative to `now`, cut towards zero, where they
    /// can be counted: none in a span of no time.
    pub open spec fn total_in(&self, unit: TimeUnit, now: &CivilDate) -> Option<int> {
        if self.is_zero() {
            Some(0int)
        } else {
            self.counted_in(unit, now)
        }
    }

    /// The span less `less`, relative to `now`, where it can be computed:
    /// no time less no time is no time.
    pub open spec fn minus(&self, less: &SpanModel, now: &CivilDate) -> Option<SpanModel> {
        if self.is_zero() && less.is_zero() {
            Some(*self)
        } else {
            match span_difference(
                now.spec_year(),
                now.spec_month(),
                now.spec_day(),
                self.years,
                self.months,
                self.weeks,
                self.days,
                self.seconds,
                less.years,
                less.months,
                less.weeks,
                less.days,
                less.seconds,
            ) {
                Some((years, months, weeks, days, seconds)) => Some(
                    SpanModel { years, months, weeks, days, seconds },
                ),
                None => None,
            }
        }
    }
}

impl ElapsedSpan {
    /// Each unit is within its limit, the seconds make whole days, and all
    /// units point the same way.
    pub open spec fn wf(&self) -> bool {
        self@.wf()
    }

    /// Whether no unit of the span holds anything.
    pub fn is_zero(&self) -> (b: bool)
        ensures
            b == self@.is_zero(),
    {
        self.years == 0 && self.months == 0 && self.weeks == 0 && self.days == 0 && self.seconds
            == 0
    }

    /// The span of no time.
    pub fn zero() -> (s: ElapsedSpan)
        ensures
            s.wf(),
            s@.is_zero(),
    {
        ElapsedSpan { years: 0, months: 0, weeks: 0, days: 0, seconds: 0 }
    }

    /// The span of the given days, held as seconds and nothing else.
    pub fn from_days(days: i64) -> (res: Result<ElapsedSpan, DateError>)
        ensures
            res.is_ok() <==> -MAX_SPAN_DAYS <= days <= MAX_SPAN_DAYS,
            res matches Ok(s) ==> s.wf() && s@ == SpanModel::of_seconds(86_400 * days),
            res matches Err(e) ==> e == DateError::SpanOverflow,
    {
        if days < -7_304_484 || days > 7_304_484 {
            Err(DateError::SpanOverflow)
        } else {
            Ok(ElapsedSpan { years: 0, months: 0, weeks: 0, days: 0, seconds: days * SECONDS_PER_DAY })
        }
    }

    /// The span of the given years and nothing else.
    pub fn from_years(years: i64) -> (res: Result<ElapsedSpan, DateError>)
        ensures
            res.is_ok() <==> -MAX_SPAN_YEARS <= years <= MAX_SPAN_YEARS,
            res matches Ok(s) ==> s.wf() && s@ == SpanModel::of_years(years as int),
            res matches Err(e) ==> e == DateError::SpanOverflow,
    {
        if years < -19_998 || years > 19_998 {
            Err(DateError::SpanOverflow)
        } else {
            Ok(ElapsedSpan { years: years as i16, months: 0, weeks: 0, days: 0, seconds: 0 })
        }
    }

    /// The span of the given weeks and nothing else.
    pub fn from_weeks(weeks: i8) -> (s: ElapsedSpan)
        ensures
            s.wf(),
            s@ == SpanModel::of_weeks(weeks as int),
    {
        ElapsedSpan { years: 0, months: 0, weeks: weeks as i32, days: 0, seconds: 0 }
    }

    /// The span of the same length that points forward.
    pub fn abs(&self) -> (s: ElapsedSpan)
        requires
            self.wf(),
        ensures
            s.wf(),
            s@ == self@.abs(),
    {
        if self.years < 0 || self.months < 0 || self.weeks < 0 || self.days < 0 || self.seconds
            < 0 {
            ElapsedSpan {
                years: -self.years,
                months: -self.months,
                weeks: -self.weeks,
                days: -self.days,
                seconds: -self.seconds,
            }
        } else {
            *self
        }
    }

    /// The span's whole units relative to `now`, cut towards zero.
    pub fn total(&self, unit: TimeUnit, now: &CivilDate) -> (res: Result<i64, DateError>)
        requires
            self.wf(),
            now.wf(),
        ensures
            res matches Ok(v) ==> self@.total_in(unit, now) == Some(v as int),
            res is Err <==> self@.total_in(unit, now) is None,
            res matches Err(e) ==> e == DateError::SpanOverflow,
            unit == TimeUnit::Day && self@.is_whole_days() ==> (res matches Ok(v) ==> v
                == self.seconds / 86_400),
    {
        if self.is_zero() {
            return Ok(0);
        }
        match jiff_span_total(self, unit, now) {
            Ok(v) => Ok(v),
            Err(_) => Err(DateError::SpanOverflow),
        }
    }

    /// The span less `less`, relative to `now`.
    pub fn checked_sub(&self, less: &ElapsedSpan, now: &CivilDate) -> (res: Result<
        ElapsedSpan,
        DateError,
    >)
        requires
            self.wf(),
            less.wf(),
            now.wf(),
        ensures
            res matches Ok(s) ==> s.wf() && self@.minus(&less@, now) == Some(s@),
            res is Err <==> self@.minus(&less@, now) is None,
            res matches Err(e) ==> e == DateError::SpanOverflow,
    {
        if self.is_zero() && less.is_zero() {
            return Ok(*self);
        }
        match jiff_span_checked_sub(self, less, now) {
            Ok(s) => Ok(s),
            Err(_) => Err(DateError::SpanOverflow),
        }
    }
}

/// Calls `jiff::Span::total` with a unit and a date to count from, and cuts
/// the number it returns to a whole one. Claimed of it: the result depends on
/// the span, the unit and the date alone; and a span of seconds that make
/// whole days, where its days can be counted, totals that many days. A span
/// of no time is kept from it: on that one it does not return.
#[verifier::external_body]
fn jiff_span_total(span: &ElapsedSpan, unit: TimeUnit, now: &CivilDate) -> (res: Result<
    i64,
    jiff::Error,
>)
    requires
        span.wf(),
        !span@.is_zero(),
        now.wf(),
    ensures
        res matches Ok(v) ==> Some(v as int) == whole_units(
            unit.code(),
            now.spec_year(),
            now.spec_month(),
            now.spec_day(),
            span.years as int,
            span.months as int,
            span.weeks as int,
            span.days as int,
            span.seconds as int,
        ),
        res is Err <==> None::<int> == whole_units(
            unit.code(),
            now.spec_year(),
            now.spec_month(),
            now.spec_day(),
            span.years as int,
            span.months as int,
            span.weeks as int,
            span.days as int,
            span.seconds as int,
        ),
        unit == TimeUnit::Day && span@.is_whole_days() ==> (res matches Ok(v) ==> v
            == span.seconds / 86_400),
{
    let s = Span::new().years(span.years).months(span.months).weeks(span.weeks);
    let s = s.days(span.days).seconds(span.seconds);
    let u = match unit {
        TimeUnit::Year => Unit::Year,
        TimeUnit::Week => Unit::Week,
        TimeUnit::Day => Unit::Day,
    };
    match s.total((u, date(now.year(), now.month(), now.day()))) {
        Ok(t) => Ok(t as i64),
        Err(e) => Err(e),
    }
}

/// Calls `jiff::Span::checked_sub` with a span to take away and a date to
/// count from. Claimed of it: the result depends on the two spans and the
/// date alone, and each unit of a span it returns is within that unit's
/// limit and points the way the others do, and that of spans of whole days
/// it returns one: its hours, minutes and smaller units hold nothing.
#[verifier::external_body]
fn jiff_span_checked_sub(span: &ElapsedSpan, less: &ElapsedSpan, now: &CivilDate) -> (res: Result<
    ElapsedSpan,
    jiff::Error,
>)
    requires
        span.wf(),
        less.wf(),
        now.wf(),
    ensures
        res matches Ok(s) ==> s.wf() && Some((s.years as int, s.months as int, s.weeks as int, s.days as int, s.seconds as int)) == span_difference(
            now.spec_year(),
            now.spec_month(),
            now.spec_day(),
            span.years as int,
            span.months as int,
            span.weeks as int,
            span.days as int,
            span.seconds as int,
            less.years as int,
            less.months as int,
            less.weeks as int,
            less.days as int,
            less.seconds as int,
        ),
        res is Err <==> None::<(int, int, int, int, int)> == span_difference(
            now.spec_year(),
            now.spec_month(),
            now.spec_day(),
            span.years as int,
            span.months as int,
            span.weeks as int,
            span.days as int,
            span.seconds as int,
            less.years as int,
            less.months as int,
            less.weeks as int,
            less.days as int,
            less.seconds as int,
        ),
{
    let d = date(now.year(), now.month(), now.day());
    let a = Span::new().years(span.years).months(span.months).weeks(span.weeks);
    let a = a.days(span.days).seconds(span.seconds);
    let b = Span::new().years(less.years).months(less.months).weeks(less.weeks);
    let b = b.days(less.days).seconds(less.seconds);
    match a.checked_sub((b, d)) {
        Ok(r) => Ok(ElapsedSpan {
            years: r.get_years(), months: r.get_months(), weeks: r.get_weeks(),
            days: r.get_days(), seconds: r.get_seconds(),
        }),
        Err(e) => Err(e),
    }
}

} // verus!
