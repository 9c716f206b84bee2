//! The report lines: what is shown of an event and its days.

use vstd::prelude::*;
use vstd::string::*;
use crate::components::{DisplayLabel, SpanParts, TotalDays};

verus! {

/// The character of a digit from 0 to 9.
pub open spec fn digit_char(d: int) -> char {
    if d == 0 {
        '0'
    } else if d == 1 {
        '1'
    } else if d == 2 {
        '2'
    } else if d == 3 {
        '3'
    } else if d == 4 {
        '4'
    } else if d == 5 {
        '5'
    } else if d == 6 {
        '6'
    } else if d == 7 {
        '7'
    } else if d == 8 {
        '8'
    } else {
        '9'
    }
}

/// The decimal digits of a number, without leading zeros.
pub open spec fn digits(n: nat) -> Seq<char>
    decreases n,
{
    if n < 10 {
        seq![digit_char(n as int)]
    } else {
        digits(n / 10).push(digit_char((n % 10) as int))
    }
}

/// A number in decimal, with a minus sign where it is negative.
pub open spec fn decimal_text(n: int) -> Seq<char> {
    if n < 0 {
        seq!['-'] + digits((-n) as nat)
    } else {
        digits(n as nat)
    }
}

/// The label in double quotes.
pub open spec fn label_text(label: Seq<char>) -> Seq<char> {
    "\""@ + label + "\""@
}

/// "N days ago" for a past day, "today", or "N days away" for one to come.
pub open spec fn total_days_text(days: int) -> Seq<char> {
    if days < 0 {
        decimal_text(-days) + " days away"@
    } else if days == 0 {
        "today"@
    } else {
        decimal_text(days) + " days ago"@
    }
}

/// "Y years W weeks D days".
pub open spec fn span_parts_text(years: int, weeks: int, days: int) -> Seq<char> {
    decimal_text(years) + " years "@ + decimal_text(weeks) + " weeks "@ + decimal_text(days)
        + " days"@
}

/// Which way an event lies: "ago" for a past day, "away" for one to come.
pub open spec fn direction_text(days: int) -> Seq<char> {
    if days < 0 {
        "away"@
    } else {
        "ago"@
    }
}

/// The line of a report with both the parts and the days: the quoted label,
/// then "today", or the parts, the direction and in brackets the days.
pub open spec fn report_text(label: Seq<char>, days: int, parts: SpanParts) -> Seq<char> {
    if days == 0 {
        label_text(label) + ": "@ + total_days_text(days)
    } else {
        label_text(label) + ": "@ + span_parts_text(
            parts.years as int,
            parts.weeks as int,
            parts.days as int,
        ) + " "@ + direction_text(days) + " ("@ + total_days_text(days) + ")"@
    }
}

/// Formats a number with `format!`. Claimed of it: the text is the number's
/// decimal digits, after a minus sign where it is negative.
#[verifier::external_body]
fn decimal(n: i128) -> (s: String)
    ensures
        s@ == decimal_text(n as int),
{
    format!("{}", n)
}

impl DisplayLabel {
    pub fn to_string(&self) -> (s: String)
        ensures
            s@ == label_text(self.0@),
    {
        let mut s = String::from_str("\"");
        s.append(self.0.as_str());
        s.append("\"");
        s
    }
}

impl TotalDays {
    pub fn to_string(&self) -> (s: String)
        ensures
            s@ == total_days_text(self.0 as int),
    {
        if self.0 < 0 {
            decimal(-(self.0 as i128)).concat(" days away")
        } else if self.0 == 0 {
            String::from_str("today")
        } else {
            decimal(self.0 as i128).concat(" days ago")
        }
    }
}

impl SpanParts {
    pub fn to_string(&self) -> (s: String)
        ensures
            s@ == span_parts_text(self.years as int, self.weeks as int, self.days as int),
    {
        let mut s = decimal(self.years as i128);
        s.append(" years ");
        s.append(decimal(self.weeks as i128).as_str());
        s.append(" weeks ");
        s.append(decimal(self.days as i128).as_str());
        s.append(" days");
        s
    }
}

/// The line that reports an event's days: the quoted label, a colon and the
/// days.
pub fn total_days_line(label: &DisplayLabel, days: &TotalDays) -> (line: String)
    ensures
        line@ == label_text(label.0@) + ": "@ + total_days_text(days.0 as int),
{
    let mut s = label.to_string();
    s.append(": ");
    s.append(days.to_string().as_str());
    s
}

/// The line that reports an event's years, weeks and days.
pub fn span_parts_line(label: &DisplayLabel, parts: &SpanParts) -> (line: String)
    ensures
        line@ == label_text(label.0@) + ": "@ + span_parts_text(
            parts.years as int,
            parts.weeks as int,
            parts.days as int,
        ),
{
    let mut s = label.to_string();
    s.append(": ");
    s.append(parts.to_string().as_str());
    s
}

/// The line that reports both.
pub fn report_line(label: &DisplayLabel, days: &TotalDays, parts: &SpanParts) -> (line: String)
    ensures
        line@ == report_text(label.0@, days.0 as int, *parts),
{
    if days.0 == 0 {
        return total_days_line(label, days);
    }
    let mut s = span_parts_line(label, parts);
    s.append(" ");
    if days.0 < 0 {
        s.append("away");
    } else {
        s.append("ago");
    }
    s.append(" (");
    s.append(days.to_string().as_str());
    s.append(")");
    s
}

} // verus!
