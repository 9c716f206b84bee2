use datez::calendar::{CivilDate, DateError};
use datez::components::{
    calculate_fixed_date, calculate_next_date, fixed_date_bundle, next_or_prev_date_bundle,
    saturate_to_i8, update_span_parts, update_total_days, FixedDate, NextOrPrevDate, SpanParts,
    TotalDays,
};
use datez::cycle::{recompute, run_cycle};
use datez::span::{ElapsedSpan, TimeUnit};

fn day(year: i16, month: i8, day: i8) -> CivilDate {
    CivilDate::new(year, month, day).unwrap()
}

fn yearly(count: i16, month: i8, day: i8) -> NextOrPrevDate {
    NextOrPrevDate::new(count, month, day).unwrap()
}

fn days_and_parts(now: CivilDate, target: CivilDate) -> (i64, SpanParts) {
    let since = calculate_fixed_date(&now, &FixedDate(target)).unwrap();
    let total = update_total_days(&now, &since).unwrap();
    let parts = update_span_parts(&now, &since).unwrap();
    (total.0, parts)
}

#[test]
fn date_new_accepts_leap_day_in_leap_year() {
    let d = CivilDate::new(2024, 2, 29).unwrap();
    assert_eq!((d.year(), d.month(), d.day()), (2024, 2, 29));
}

#[test]
fn date_new_rejects_what_the_calendar_lacks() {
    assert_eq!(CivilDate::new(2023, 2, 29), Err(DateError::InvalidDate));
    assert_eq!(CivilDate::new(2023, 13, 1), Err(DateError::InvalidDate));
    assert_eq!(CivilDate::new(2023, 0, 1), Err(DateError::InvalidDate));
    assert_eq!(CivilDate::new(2023, 4, 31), Err(DateError::InvalidDate));
    assert_eq!(CivilDate::new(2023, 4, 0), Err(DateError::InvalidDate));
    assert_eq!(CivilDate::new(10000, 1, 1), Err(DateError::InvalidDate));
    assert_eq!(CivilDate::new(-10000, 1, 1), Err(DateError::InvalidDate));
    assert_eq!(CivilDate::new(1900, 2, 29), Err(DateError::InvalidDate));
    assert!(CivilDate::new(2000, 2, 29).is_ok());
    assert!(CivilDate::new(9999, 12, 31).is_ok());
    assert!(CivilDate::new(-9999, 1, 1).is_ok());
}

#[test]
fn date_parse_reads_iso_text() {
    assert_eq!(CivilDate::parse("2020-01-01"), Ok(day(2020, 1, 1)));
    assert_eq!(CivilDate::parse("1999-12-31"), Ok(day(1999, 12, 31)));
}

#[test]
fn date_parse_rejects_other_text() {
    assert_eq!(CivilDate::parse("not a date"), Err(DateError::InvalidDate));
    assert_eq!(CivilDate::parse("2023-02-30"), Err(DateError::InvalidDate));
    assert_eq!(CivilDate::parse(""), Err(DateError::InvalidDate));
}

#[test]
fn zero_date_is_first_day_of_year_zero() {
    assert_eq!(CivilDate::zero(), day(0, 1, 1));
}

#[test]
fn later_than_orders_by_year_month_day() {
    assert!(day(2024, 1, 1).later_than(&day(2023, 12, 31)));
    assert!(day(2024, 2, 1).later_than(&day(2024, 1, 31)));
    assert!(day(2024, 2, 2).later_than(&day(2024, 2, 1)));
    assert!(!day(2024, 2, 1).later_than(&day(2024, 2, 1)));
    assert!(!day(2023, 12, 31).later_than(&day(2024, 1, 1)));
}

#[test]
fn seconds_since_counts_whole_days() {
    assert_eq!(day(2023, 1, 1).seconds_since(&day(2020, 1, 1)), 1096 * 86_400);
    assert_eq!(day(2020, 1, 1).seconds_since(&day(2023, 1, 1)), -1096 * 86_400);
    assert_eq!(day(2024, 3, 1).seconds_since(&day(2024, 2, 28)), 2 * 86_400);
    assert_eq!(day(2023, 3, 1).seconds_since(&day(2023, 2, 28)), 86_400);
    assert_eq!(day(2023, 3, 1).seconds_since(&day(2023, 3, 1)), 0);
    assert_eq!(day(9999, 12, 31).seconds_since(&day(-9999, 1, 1)), 7_304_483 * 86_400);
    assert_eq!(day(1, 1, 1).seconds_since(&day(0, 1, 1)), 366 * 86_400);
    assert_eq!(day(0, 1, 1).seconds_since(&day(-1, 1, 1)), 365 * 86_400);
}

#[test]
fn same_day_gives_zero_days_and_zero_parts() {
    for d in [day(2024, 2, 29), day(2023, 1, 1), day(-9999, 1, 1), day(9999, 12, 31), day(0, 1, 1)]
    {
        let since = calculate_fixed_date(&d, &FixedDate(d)).unwrap();
        assert_eq!(since.0, ElapsedSpan::zero());
        assert_eq!(update_total_days(&d, &since), Ok(TotalDays(0)));
        assert_eq!(
            update_span_parts(&d, &since),
            Ok(SpanParts { years: 0, weeks: 0, days: 0 })
        );
    }
}

#[test]
fn past_is_positive_and_future_is_negative() {
    let now = day(2023, 6, 20);
    assert_eq!(days_and_parts(now, day(2023, 6, 19)).0, 1);
    assert_eq!(days_and_parts(now, day(2023, 6, 21)).0, -1);
    assert_eq!(days_and_parts(now, day(2021, 3, 1)).0, 841);
    assert_eq!(days_and_parts(now, day(2024, 6, 15)).0, -361);
}

#[test]
fn resolver_gives_the_same_date_twice() {
    let now = day(2024, 2, 1);
    let spec = yearly(3, 7, 4);
    let first = calculate_next_date(&now, &spec);
    let second = calculate_next_date(&now, &spec);
    assert_eq!(first, second);
    assert_eq!(first, Ok(FixedDate(day(2027, 7, 4))));
}

#[test]
fn resolver_rolls_over_on_the_day_itself() {
    let spec = yearly(0, 2, 1);
    assert_eq!(
        calculate_next_date(&day(2024, 2, 1), &spec),
        Ok(FixedDate(day(2025, 2, 1)))
    );
    assert_eq!(
        calculate_next_date(&day(2024, 1, 31), &spec),
        Ok(FixedDate(day(2024, 2, 1)))
    );
    assert_eq!(
        calculate_next_date(&day(2024, 2, 2), &spec),
        Ok(FixedDate(day(2025, 2, 1)))
    );
}

#[test]
fn resolver_adds_the_year_offset() {
    assert_eq!(
        calculate_next_date(&day(2024, 1, 31), &yearly(2, 2, 1)),
        Ok(FixedDate(day(2026, 2, 1)))
    );
    assert_eq!(
        calculate_next_date(&day(2024, 3, 1), &yearly(-1, 2, 1)),
        Ok(FixedDate(day(2024, 2, 1)))
    );
    assert_eq!(
        calculate_next_date(&day(2024, 3, 1), &yearly(-3, 2, 1)),
        Ok(FixedDate(day(2022, 2, 1)))
    );
}

#[test]
fn resolver_fails_on_a_leap_day_the_year_lacks() {
    let spec = yearly(0, 2, 29);
    assert_eq!(
        calculate_next_date(&day(2024, 1, 1), &spec),
        Ok(FixedDate(day(2024, 2, 29)))
    );
    assert_eq!(
        calculate_next_date(&day(2024, 3, 1), &spec),
        Err(DateError::InvalidDate)
    );
    assert_eq!(
        calculate_next_date(&day(2023, 6, 1), &spec),
        Err(DateError::InvalidDate)
    );
    assert_eq!(
        calculate_next_date(&day(2024, 3, 1), &yearly(3, 2, 29)),
        Ok(FixedDate(day(2028, 2, 29)))
    );
}

#[test]
fn resolver_fails_beyond_the_calendar() {
    assert_eq!(
        calculate_next_date(&day(9999, 6, 1), &yearly(0, 2, 1)),
        Err(DateError::InvalidDate)
    );
    assert_eq!(
        calculate_next_date(&day(2024, 6, 1), &yearly(i16::MAX, 2, 1)),
        Err(DateError::InvalidDate)
    );
    assert_eq!(
        calculate_next_date(&day(2024, 6, 1), &yearly(i16::MIN, 2, 1)),
        Err(DateError::InvalidDate)
    );
}

#[test]
fn recurring_day_must_exist_in_some_year() {
    assert_eq!(NextOrPrevDate::new(0, 2, 30), Err(DateError::InvalidDate));
    assert_eq!(NextOrPrevDate::new(0, 13, 1), Err(DateError::InvalidDate));
    assert_eq!(NextOrPrevDate::new(0, 6, 31), Err(DateError::InvalidDate));
    assert_eq!(NextOrPrevDate::new(0, 6, 0), Err(DateError::InvalidDate));
    assert_eq!(
        NextOrPrevDate::new(5, 2, 29),
        Ok(NextOrPrevDate { count: 5, month: 2, day: 29 })
    );
    assert!(NextOrPrevDate { count: 0, month: 12, day: 31 }.is_valid());
    assert!(!NextOrPrevDate { count: 0, month: 2, day: 30 }.is_valid());
}

#[test]
fn parts_are_years_then_weeks_then_days() {
    assert_eq!(
        days_and_parts(day(2023, 1, 1), day(2020, 1, 1)),
        (1096, SpanParts { years: 3, weeks: 0, days: 0 })
    );
    assert_eq!(
        days_and_parts(day(2024, 3, 15), day(2023, 12, 25)),
        (81, SpanParts { years: 0, weeks: 11, days: 4 })
    );
    assert_eq!(
        days_and_parts(day(2023, 6, 20), day(2021, 3, 1)),
        (841, SpanParts { years: 2, weeks: 15, days: 5 })
    );
    assert_eq!(
        days_and_parts(day(2024, 2, 29), day(2019, 11, 3)),
        (1579, SpanParts { years: 4, weeks: 16, days: 6 })
    );
    assert_eq!(
        days_and_parts(day(2023, 1, 1), day(2022, 12, 31)),
        (1, SpanParts { years: 0, weeks: 0, days: 1 })
    );
}

#[test]
fn parts_of_a_future_date_are_those_of_its_distance() {
    assert_eq!(
        days_and_parts(day(2023, 6, 20), day(2024, 6, 15)),
        (-361, SpanParts { years: 0, weeks: 51, days: 4 })
    );
}

#[test]
fn parts_add_up_to_the_days() {
    let now = day(2023, 6, 20);
    let (total, parts) = days_and_parts(now, day(2021, 3, 1));
    let after_years = day(2025, 6, 20);
    let end = day(2025, 10, 8);
    assert_eq!(parts.years, 2);
    assert_eq!(end.seconds_since(&now), total * 86_400);
    assert_eq!(
        end.seconds_since(&after_years),
        (i64::from(parts.weeks) * 7 + i64::from(parts.days)) * 86_400
    );
}

#[test]
fn span_total_counts_each_unit() {
    let now = day(2023, 1, 1);
    let span = ElapsedSpan::from_days(1096).unwrap();
    assert_eq!(span.total(TimeUnit::Day, &now), Ok(1096));
    assert_eq!(span.total(TimeUnit::Week, &now), Ok(156));
    assert_eq!(span.total(TimeUnit::Year, &now), Ok(3));
    assert_eq!(ElapsedSpan::zero().total(TimeUnit::Year, &now), Ok(0));
    assert_eq!(ElapsedSpan::zero().total(TimeUnit::Week, &now), Ok(0));
    assert_eq!(ElapsedSpan::zero().total(TimeUnit::Day, &now), Ok(0));
}

#[test]
fn span_checked_sub_takes_years_away() {
    let now = day(2023, 1, 1);
    let span = ElapsedSpan::from_days(1100).unwrap();
    let years = ElapsedSpan::from_years(3).unwrap();
    let rest = span.checked_sub(&years, &now).unwrap();
    assert_eq!(rest.total(TimeUnit::Day, &now), Ok(4));
    let zero = ElapsedSpan::zero();
    assert_eq!(zero.checked_sub(&zero, &now), Ok(zero));
}

#[test]
fn span_builders_keep_the_limits() {
    assert_eq!(ElapsedSpan::from_years(19_999), Err(DateError::SpanOverflow));
    assert_eq!(ElapsedSpan::from_years(-19_999), Err(DateError::SpanOverflow));
    assert_eq!(ElapsedSpan::from_years(19_998).unwrap().years, 19_998);
    assert_eq!(ElapsedSpan::from_days(7_304_485), Err(DateError::SpanOverflow));
    assert_eq!(ElapsedSpan::from_days(-7_304_485), Err(DateError::SpanOverflow));
    assert_eq!(ElapsedSpan::from_days(7_304_484).unwrap().seconds, 631_107_417_600);
    assert_eq!(ElapsedSpan::from_days(-2).unwrap().seconds, -172_800);
    assert_eq!(ElapsedSpan::from_weeks(-7).weeks, -7);
}

#[test]
fn span_abs_points_forward() {
    let back = ElapsedSpan::from_days(-1).unwrap();
    assert_eq!(back.abs(), ElapsedSpan::from_days(1).unwrap());
    assert_eq!(back.abs().abs(), back.abs());
    assert!(ElapsedSpan::zero().is_zero());
    assert!(!back.is_zero());
}

#[test]
fn saturate_cuts_to_eight_bits() {
    assert_eq!(saturate_to_i8(0), 0);
    assert_eq!(saturate_to_i8(127), 127);
    assert_eq!(saturate_to_i8(128), 127);
    assert_eq!(saturate_to_i8(-128), -128);
    assert_eq!(saturate_to_i8(-129), -128);
    assert_eq!(saturate_to_i8(i64::MAX), 127);
    assert_eq!(saturate_to_i8(i64::MIN), -128);
}

#[test]
fn days_beyond_the_calendar_overflow() {
    let now = day(9999, 12, 31);
    let since = calculate_fixed_date(&now, &FixedDate(day(1, 1, 1))).unwrap();
    assert_eq!(update_total_days(&now, &since), Err(DateError::SpanOverflow));
    assert_eq!(update_span_parts(&now, &since), Err(DateError::SpanOverflow));
}

#[test]
fn recompute_fills_a_fixed_event() {
    let now = day(2023, 1, 1);
    let mut event = fixed_date_bundle(String::from("Launch"), day(2020, 1, 1));
    assert_eq!(event.total_days, TotalDays(0));
    assert_eq!(recompute(&now, &mut event), Ok(()));
    assert_eq!(event.date, FixedDate(day(2020, 1, 1)));
    assert_eq!(event.elapsed.0, ElapsedSpan::from_days(1096).unwrap());
    assert_eq!(event.total_days, TotalDays(1096));
    assert_eq!(event.parts, SpanParts { years: 3, weeks: 0, days: 0 });
    assert_eq!(event.label.0, "Launch");
}

#[test]
fn recompute_resolves_a_recurring_event() {
    let now = day(2023, 6, 20);
    let mut event = next_or_prev_date_bundle(String::from("Birthday"), yearly(0, 6, 15));
    assert_eq!(event.date, FixedDate(day(0, 1, 1)));
    assert_eq!(recompute(&now, &mut event), Ok(()));
    assert_eq!(event.date, FixedDate(day(2024, 6, 15)));
    assert_eq!(event.total_days, TotalDays(-361));
    assert!(event.total_days.0 < 0);
}

#[test]
fn recompute_leaves_a_failing_event_as_it_was() {
    let mut event = next_or_prev_date_bundle(String::from("Leap"), yearly(0, 2, 29));
    assert_eq!(recompute(&day(2024, 1, 1), &mut event), Ok(()));
    let before = event.clone();
    assert_eq!(recompute(&day(2023, 6, 1), &mut event), Err(DateError::InvalidDate));
    assert_eq!(event.date, before.date);
    assert_eq!(event.elapsed, before.elapsed);
    assert_eq!(event.total_days, before.total_days);
    assert_eq!(event.parts, before.parts);
}

#[test]
fn cycle_reports_each_event_on_its_own() {
    let now = day(2023, 6, 20);
    let mut events = vec![
        fixed_date_bundle(String::from("Launch"), day(2021, 3, 1)),
        next_or_prev_date_bundle(String::from("Leap"), yearly(0, 2, 29)),
        next_or_prev_date_bundle(String::from("Birthday"), yearly(0, 6, 15)),
        fixed_date_bundle(String::from("Now"), now),
    ];
    let lines = run_cycle(&now, &mut events);
    assert_eq!(
        lines,
        vec![
            Some(String::from("\"Launch\": 2 years 15 weeks 5 days ago (841 days ago)")),
            None,
            Some(String::from("\"Birthday\": 0 years 51 weeks 4 days away (361 days away)")),
            Some(String::from("\"Now\": today")),
        ]
    );
    assert_eq!(events.len(), 4);
    assert_eq!(events[0].total_days, TotalDays(841));
    assert_eq!(events[1].total_days, TotalDays(0));
    assert_eq!(events[1].date, FixedDate(day(0, 1, 1)));
    assert_eq!(events[2].date, FixedDate(day(2024, 6, 15)));
    assert_eq!(events[3].parts, SpanParts { years: 0, weeks: 0, days: 0 });
}

#[test]
fn cycle_on_no_events_gives_no_lines() {
    let mut events = Vec::new();
    assert!(run_cycle(&day(2023, 6, 20), &mut events).is_empty());
    assert!(events.is_empty());
}
