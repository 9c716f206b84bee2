//! The parts of a tracked event, and the steps that recompute them from the
//! current date.

use vstd::prelude::*;
use crate::calendar::{
    days_in_month,
    lemma_day_number_bounds,
    lemma_day_number_in_order,
    valid_ymd,
    ymd_before,
    CivilDate,
    DateError,
};
use crate::span::{ElapsedSpan, SpanModel, TimeUnit};

verus! {

/// The calendar date that an event refers to in this cycle.
#[derive(Clone, Copy, Debug, PartialEq, Eq, Structural)]
pub struct FixedDate(pub CivilDate);

/// A day of the year that comes back every year, and the number of years to
/// add to its next occurrence.
#[derive(Clone, Copy, Debug, PartialEq, Eq, Structural)]
pub struct NextOrPrevDate {
    pub count: i16,
    pub month: i8,
    pub day: i8,
}

/// The signed span from an event's date to the current date.
#[derive(Clone, Copy, Debug, PartialEq, Eq, Structural)]
pub struct ElapsedSince(pub ElapsedSpan);

/// Whole days since an event: positive for a past event, negative for one to
/// come, zero for today.
#[derive(Clone, Copy, Debug, PartialEq, Eq, Structural)]
pub struct TotalDays(pub i64);

/// The length of a span in years, then weeks, then days.
#[derive(Clone, Copy, Debug, PartialEq, Eq, Structural)]
pub struct SpanParts {
    pub years: i64,
    pub weeks: i8,
    pub days: i8,
}

/// The name that the user gave an event.
#[derive(Clone, Debug)]
pub struct DisplayLabel(pub String);

/// One tracked event: its name, what was stored of it, and what each cycle
/// recomputes of it.
#[derive(Clone, Debug)]
pub struct TrackedEvent {
    pub label: DisplayLabel,
    /// The recurring day, where the event has one and no fixed date.
    pub recurring: Option<NextOrPrevDate>,
    pub date: FixedDate,
    pub elapsed: ElapsedSince,
    pub total_days: TotalDays,
    pub parts: SpanParts,
}

impl TrackedEvent {
    /// The date and the span of the event hold what dates and spans may hold.
    pub open spec fn wf(&self) -> bool {
        self.date.0.wf() && self.elapsed.0.wf()
    }

    /// Nothing has been computed of the event yet.
    pub open spec fn is_fresh(&self) -> bool {
        &&& self.elapsed.0@.is_zero()
        &&& self.total_days.0 == 0
        &&& self.parts == (SpanParts { years: 0, weeks: 0, days: 0 })
    }
}

/// The month has such a day in some year.
pub open spec fn recurs(month: int, day: int) -> bool {
    exists|year: int| valid_ymd(year, month, day)
}

/// The date that a recurring day resolves to on `now`: its occurrence in the
/// current year where that is still to come, else in the next, moved by
/// `count` years. A day that the current year or that year lacks is no date.
pub open spec fn next_occurrence(now: &CivilDate, date: &NextOrPrevDate) -> Result<
    (int, int, int),
    DateError,
> {
    let (month, day) = (date.month as int, date.day as int);
    if !valid_ymd(now.spec_year(), month, day) {
        Err(DateError::InvalidDate)
    } else {
        let adjust: int = if ymd_before(
            now.spec_year(),
            now.spec_month(),
            now.spec_day(),
            now.spec_year(),
            month,
            day,
        ) {
            0
        } else {
            1
        };
        let year = now.spec_year() + date.count + adjust;
        if valid_ymd(year, month, day) {
            Ok((year, month, day))
        } else {
            Err(DateError::InvalidDate)
        }
    }
}

/// The span from `date` to `now`, in seconds: 86400 for each day.
pub open spec fn elapsed_between(now: &CivilDate, date: &CivilDate) -> SpanModel {
    SpanModel::of_seconds(86_400 * (now.day_number() - date.day_number()))
}

/// The nearest value that eight bits hold.
pub open spec fn clamp_to_i8(v: int) -> int {
    if v < -128 {
        -128
    } else if v > 127 {
        127
    } else {
        v
    }
}

/// The years, weeks and days of a span's length, counted from `now`: the whole
/// years in it; then the whole weeks in what is left without those years;
/// then the whole days in what is left without those weeks.
pub open spec fn breakdown(span: SpanModel, now: &CivilDate) -> Result<
    (int, int, int),
    DateError,
> {
    let length = span.abs();
    match length.total_in(TimeUnit::Year, now) {
        Some(years) if -19_998 <= years <= 19_998 => match length.minus(
            &SpanModel::of_years(years),
            now,
        ) {
            Some(rest) => match rest.total_in(TimeUnit::Week, now) {
                Some(w) => match rest.minus(&SpanModel::of_weeks(clamp_to_i8(w)), now) {
                    Some(last) => match last.total_in(TimeUnit::Day, now) {
                        Some(d) => Ok((years, clamp_to_i8(w), clamp_to_i8(d))),
                        None => Err(DateError::SpanOverflow),
                    },
                    None => Err(DateError::SpanOverflow),
                },
                None => Err(DateError::SpanOverflow),
            },
            None => Err(DateError::SpanOverflow),
        },
        _ => Err(DateError::SpanOverflow),
    }
}

impl NextOrPrevDate {
    /// Whether the month has such a day in some year.
    pub fn is_valid(&self) -> (b: bool)
        ensures
            b == recurs(self.month as int, self.day as int),
    {
        NextOrPrevDate::new(self.count, self.month, self.day).is_ok()
    }


    /// A recurring day, where the month has such a day in some year.
    pub fn new(count: i16, month: i8, day: i8) -> (res: Result<NextOrPrevDate, DateError>)
        ensures
            res.is_ok() <==> recurs(month as int, day as int),
            res matches Ok(d) ==> d == (NextOrPrevDate { count, month, day }),
            res matches Err(e) ==> e == DateError::InvalidDate,
    {
        match CivilDate::new(2000, month, day) {
            Ok(_) => {
                assert(valid_ymd(2000, month as int, day as int));
                Ok(NextOrPrevDate { count, month, day })
            },
            Err(e) => {
                assert forall|year: int| !valid_ymd(year, month as int, day as int) by {
                    assert(days_in_month(year, month as int) <= days_in_month(
                        2000,
                        month as int,
                    ));
                }
                Err(e)
            },
        }
    }
}

/// A new event on a fixed date, with nothing computed yet.
pub fn fixed_date_bundle(label: String, date: CivilDate) -> (event: TrackedEvent)
    requires
        date.wf(),
    ensures
        event.wf(),
        event.is_fresh(),
        event.label.0 == label,
        event.recurring is None,
        event.date.0 == date,
{
    TrackedEvent {
        label: DisplayLabel(label),
        recurring: None,
        date: FixedDate(date),
        elapsed: ElapsedSince(ElapsedSpan::zero()),
        total_days: TotalDays(0),
        parts: SpanParts { years: 0, weeks: 0, days: 0 },
    }
}

/// A new event on a recurring day, with nothing computed yet: its date is
/// the first of January of year 0 until the first cycle.
pub fn next_or_prev_date_bundle(label: String, next_date: NextOrPrevDate) -> (event: TrackedEvent)
    ensures
        event.wf(),
        event.is_fresh(),
        event.label.0 == label,
        event.recurring == Some(next_date),
        event.date.0.is(0, 1, 1),
{
    TrackedEvent {
        label: DisplayLabel(label),
        recurring: Some(next_date),
        date: FixedDate(CivilDate::zero()),
        elapsed: ElapsedSince(ElapsedSpan::zero()),
        total_days: TotalDays(0),
        parts: SpanParts { years: 0, weeks: 0, days: 0 },
    }
}

/// Cuts a count to the nearest value that eight bits hold.
pub fn saturate_to_i8(v: i64) -> (r: i8)
    ensures
        r == clamp_to_i8(v as int),
{
    if v < -128 {
        -128
    } else if v > 127 {
        127
    } else {
        v as i8
    }
}

/// Resolves a recurring day to its date for this cycle.
pub fn calculate_next_date(now: &CivilDate, date: &NextOrPrevDate) -> (res: Result<
    FixedDate,
    DateError,
>)
    requires
        now.wf(),
    ensures
        match next_occurrence(now, date) {
            Ok((year, month, day)) => res matches Ok(next) && next.0.wf() && next.0.is(
                year,
                month,
                day,
            ),
            Err(e) => res == Err::<FixedDate, DateError>(e),
        },
{
    let this_year = now.year();
    let candidate = match CivilDate::new(this_year, date.month, date.day) {
        Ok(c) => c,
        Err(e) => {
            return Err(e);
        },
    };
    let adjust: i32 = if candidate.later_than(now) {
        0
    } else {
        1
    };
    let year: i32 = this_year as i32 + date.count as i32 + adjust;
    if year < -9999 || year > 9999 {
        return Err(DateError::InvalidDate);
    }
    match CivilDate::new(year as i16, date.month, date.day) {
        Ok(next) => Ok(FixedDate(next)),
        Err(e) => Err(e),
    }
}

/// The span from an event's date to `now`.
pub fn calculate_fixed_date(now: &CivilDate, date: &FixedDate) -> (res: Result<
    ElapsedSince,
    DateError,
>)
    requires
        now.wf(),
        date.0.wf(),
    ensures
        res matches Ok(since) && since.0.wf() && since.0@ == elapsed_between(now, &date.0),
{
    proof {
        lemma_day_number_bounds(*now);
        lemma_day_number_bounds(date.0);
    }
    match ElapsedSpan::from_days(now.seconds_since(&date.0) / 86_400) {
        Ok(span) => Ok(ElapsedSince(span)),
        Err(e) => Err(e),
    }
}

/// The whole days of a span, counted from `now`.
pub fn update_total_days(now: &CivilDate, since: &ElapsedSince) -> (res: Result<
    TotalDays,
    DateError,
>)
    requires
        now.wf(),
        since.0.wf(),
    ensures
        res matches Ok(total) ==> since.0@.total_in(TimeUnit::Day, now) == Some(total.0 as int),
        res is Err <==> since.0@.total_in(TimeUnit::Day, now) is None,
        res matches Err(e) ==> e == DateError::SpanOverflow,
        since.0@.is_whole_days() ==> (res matches Ok(total) ==> total.0 == since.0.seconds
            / 86_400),
{
    match since.0.total(TimeUnit::Day, now) {
        Ok(days) => Ok(TotalDays(days)),
        Err(e) => Err(e),
    }
}

/// The years, weeks and days of a span's length, counted from `now`.
pub fn update_span_parts(now: &CivilDate, since: &ElapsedSince) -> (res: Result<
    SpanParts,
    DateError,
>)
    requires
        now.wf(),
        since.0.wf(),
    ensures
        match breakdown(since.0@, now) {
            Ok((years, weeks, days)) => res matches Ok(parts) && parts.years == years
                && parts.weeks == weeks && parts.days == days,
            Err(e) => res == Err::<SpanParts, DateError>(e),
        },
{
    let length = since.0.abs();
    let years = match length.total(TimeUnit::Year, now) {
        Ok(y) => y,
        Err(e) => {
            return Err(e);
        },
    };
    let whole_years = match ElapsedSpan::from_years(years) {
        Ok(s) => s,
        Err(e) => {
            return Err(e);
        },
    };
    let rest = match length.checked_sub(&whole_years, now) {
        Ok(s) => s,
        Err(e) => {
            return Err(e);
        },
    };
    let weeks = match rest.total(TimeUnit::Week, now) {
        Ok(w) => saturate_to_i8(w),
        Err(e) => {
            return Err(e);
        },
    };
    let last = match rest.checked_sub(&ElapsedSpan::from_weeks(weeks), now) {
        Ok(s) => s,
        Err(e) => {
            return Err(e);
        },
    };
    match last.total(TimeUnit::Day, now) {
        Ok(d) => Ok(SpanParts { years, weeks, days: saturate_to_i8(d) }),
        Err(e) => Err(e),
    }
}

/// An event's date that is today gives no days and no years, weeks or days.
pub proof fn lemma_today_is_zero(d: CivilDate)
    requires
        d.wf(),
    ensures
        elapsed_between(&d, &d).is_zero(),
        elapsed_between(&d, &d).total_in(TimeUnit::Day, &d) == Some(0int),
        breakdown(elapsed_between(&d, &d), &d) == Ok::<(int, int, int), DateError>(
            (0int, 0int, 0int),
        ),
{
}

/// The sign of the days tells past from future: where the event's date is
/// before `now` the span's days are positive, where it is after `now` they are
/// negative, and where the two are one day there are none.
pub proof fn lemma_sign_of_days(now: CivilDate, target: CivilDate)
    requires
        now.wf(),
        target.wf(),
    ensures
        elapsed_between(&now, &target).is_whole_days(),
        target.before(&now) ==> elapsed_between(&now, &target).seconds / 86_400 > 0,
        now.before(&target) ==> elapsed_between(&now, &target).seconds / 86_400 < 0,
        now == target ==> elapsed_between(&now, &target).seconds / 86_400 == 0,
{
    if target.before(&now) {
        lemma_day_number_in_order(target, now);
    }
    if now.before(&target) {
        lemma_day_number_in_order(now, target);
    }
}

/// Resolving a recurring day twice on one date gives one date.
pub proof fn lemma_resolution_repeats(
    now: CivilDate,
    date: NextOrPrevDate,
    first: CivilDate,
    second: CivilDate,
)
    requires
        next_occurrence(&now, &date) matches Ok((year, month, day)) && first.is(year, month, day)
            && second.is(year, month, day),
    ensures
        first == second,
{
    crate::calendar::lemma_fields_determine(first, second);
}

} // verus!
