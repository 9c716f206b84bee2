//! One cycle: every tracked event recomputed from one current date, and its
//! report line.

use vstd::prelude::*;
use crate::calendar::{day_number, lemma_day_number_in_order, CivilDate, DateError};
use crate::components::{
    breakdown,
    calculate_fixed_date,
    calculate_next_date,
    next_occurrence,
    update_span_parts,
    update_total_days,
    SpanParts,
    TrackedEvent,
};
use crate::display::{report_line, report_text};
use crate::span::{SpanModel, TimeUnit};

verus! {

/// The date that an event refers to on `now`, as year, month and day: its
/// fixed date, or the occurrence that its recurring day resolves to.
pub open spec fn resolved_date(now: &CivilDate, event: &TrackedEvent) -> Result<
    (int, int, int),
    DateError,
> {
    match event.recurring {
        Some(date) => next_occurrence(now, &date),
        None => Ok((event.date.0.spec_year(), event.date.0.spec_month(), event.date.0.spec_day())),
    }
}

/// What one cycle makes of an event on `now`: `after` is the event `before`
/// with its date resolved and its span, days and parts counted from `now`,
/// or, where one of them cannot be had, `before` itself with the error.
pub open spec fn recomputes(
    now: &CivilDate,
    before: &TrackedEvent,
    after: &TrackedEvent,
    res: Result<(), DateError>,
) -> bool {
    &&& after.wf()
    &&& match resolved_date(now, before) {
        Ok((year, month, day)) => {
            let days = now.day_number() - day_number(year, month, day);
            let span = SpanModel::of_seconds(86_400 * days);
            match (span.total_in(TimeUnit::Day, now), breakdown(span, now)) {
                (Some(total), Ok((years, weeks, rest))) => {
                    &&& res is Ok
                    &&& after.label == before.label
                    &&& after.recurring == before.recurring
                    &&& after.date.0.is(year, month, day)
                    &&& after.elapsed.0@ == span
                    &&& after.total_days.0 == total == days
                    &&& after.parts.years == years
                    &&& after.parts.weeks == weeks
                    &&& after.parts.days == rest
                },
                _ => res == Err::<(), DateError>(DateError::SpanOverflow) && *after == *before,
            }
        },
        Err(e) => res == Err::<(), DateError>(e) && *after == *before,
    }
}

/// Recomputes an event from the current date, in order: its date, the span
/// since that date, the days and the parts. An event that fails stays as it
/// was. A past date gives positive days, a coming one negative days, and
/// today gives none: neither days nor years, weeks or days, without fail.
pub fn recompute(now: &CivilDate, event: &mut TrackedEvent) -> (res: Result<(), DateError>)
    requires
        now.wf(),
        old(event).wf(),
    ensures
        recomputes(now, old(event), final(event), res),
        res is Ok && final(event).date.0.before(now) ==> final(event).total_days.0 > 0,
        res is Ok && now.before(&final(event).date.0) ==> final(event).total_days.0 < 0,
        old(event).recurring is None && old(event).date.0 == *now ==> res is Ok,
        old(event).recurring is None && old(event).date.0 == *now ==> final(event).total_days.0
            == 0 && final(event).parts == (SpanParts { years: 0, weeks: 0, days: 0 }),
{
    let date = match event.recurring {
        Some(recurring) => match calculate_next_date(now, &recurring) {
            Ok(next) => next,
            Err(e) => {
                return Err(e);
            },
        },
        None => event.date,
    };
    let since = match calculate_fixed_date(now, &date) {
        Ok(since) => since,
        Err(e) => {
            return Err(e);
        },
    };
    let total_days = match update_total_days(now, &since) {
        Ok(total) => total,
        Err(e) => {
            return Err(e);
        },
    };
    let parts = match update_span_parts(now, &since) {
        Ok(parts) => parts,
        Err(e) => {
            return Err(e);
        },
    };
    proof {
        if date.0.before(now) {
            lemma_day_number_in_order(date.0, *now);
        }
        if now.before(&date.0) {
            lemma_day_number_in_order(*now, date.0);
        }
    }
    event.date = date;
    event.elapsed = since;
    event.total_days = total_days;
    event.parts = parts;
    Ok(())
}

/// What a cycle leaves of one event, and its line: the line reports the
/// recomputed event, and an event that failed has none.
pub open spec fn cycle_step(
    now: &CivilDate,
    before: &TrackedEvent,
    after: &TrackedEvent,
    line: Option<String>,
) -> bool {
    exists|res: Result<(), DateError>|
        {
            &&& #[trigger] recomputes(now, before, after, res)
            &&& match line {
                Some(text) => res is Ok && text@ == report_text(
                    after.label.0@,
                    after.total_days.0 as int,
                    after.parts,
                ),
                None => res is Err,
            }
        }
}

/// Runs one cycle: recomputes every event from the one date `now`, each on
/// its own, and gives the line of each in the events' order. An event that
/// fails keeps what it had and gets no line; the others are not touched by
/// it.
pub fn run_cycle(now: &CivilDate, events: &mut Vec<TrackedEvent>) -> (lines: Vec<Option<String>>)
    requires
        now.wf(),
        forall|i: int| 0 <= i < old(events)@.len() ==> (#[trigger] old(events)@[i]).wf(),
    ensures
        final(events)@.len() == old(events)@.len(),
        lines@.len() == old(events)@.len(),
        forall|i: int|
            0 <= i < lines@.len() ==> cycle_step(
                now,
                &old(events)@[i],
                &final(events)@[i],
                #[trigger] lines@[i],
            ),
{
    let ghost before = events@;
    let mut lines: Vec<Option<String>> = Vec::new();
    let mut i: usize = 0;
    while i < events.len()
        invariant
            now.wf(),
            i <= events@.len(),
            events@.len() == before.len(),
            lines@.len() == i,
            forall|j: int| i <= j < events@.len() ==> events@[j] == before[j],
            forall|j: int| 0 <= j < before.len() ==> (#[trigger] before[j]).wf(),
            forall|j: int|
                0 <= j < i ==> cycle_step(now, &before[j], &events@[j], #[trigger] lines@[j]),
        decreases events@.len() - i,
    {
        assert(before[i as int].wf());
        let res = recompute(now, &mut events[i]);
        let line = match res {
            Ok(()) => {
                let event = &events[i];
                Some(report_line(&event.label, &event.total_days, &event.parts))
            },
            Err(_) => None,
        };
        proof {
            assert(recomputes(now, &before[i as int], &events@[i as int], res));
        }
        lines.push(line);
        i += 1;
    }
    lines
}

} // verus!
