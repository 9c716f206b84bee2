//! The stored entries, and how the tracked events are made of them.

use vstd::prelude::*;
use crate::calendar::{parsed_date, CivilDate, DateError};
use crate::components::{
    fixed_date_bundle,
    next_or_prev_date_bundle,
    recurs,
    NextOrPrevDate,
    TrackedEvent,
};

verus! {

/// Where the stored entries are kept.
pub struct DataSource {
    filename: String,
}

impl DataSource {
    pub closed spec fn spec_filename(&self) -> String {
        self.filename
    }

    pub fn new(filename: String) -> (source: DataSource)
        ensures
            source.spec_filename() == filename,
    {
        DataSource { filename }
    }

    pub fn filename(&self) -> (name: &String)
        ensures
            *name == self.spec_filename(),
    {
        &self.filename
    }
}

/// One stored entry: an event on a date written as text, or one on a
/// recurring day.
#[derive(Clone, Debug)]
#[allow(inconsistent_fields)]
pub enum Stored {
    FixedDate { label: String, date: String },
    NextDate { label: String, date: NextOrPrevDate },
}

impl Stored {
    /// The entry can become an event: its text holds a date, or its month has
    /// such a day in some year.
    pub open spec fn admissible(&self) -> bool {
        match self {
            Stored::FixedDate { label, date } => parsed_date(date@) is Some,
            Stored::NextDate { label, date } => recurs(date.month as int, date.day as int),
        }
    }

    /// `event` is the new event of this entry, with nothing computed yet.
    pub open spec fn stores(&self, event: &TrackedEvent) -> bool {
        &&& event.wf()
        &&& event.is_fresh()
        &&& match self {
            Stored::FixedDate { label, date } => {
                &&& event.label.0 == *label
                &&& event.recurring is None
                &&& parsed_date(date@) == Some(
                    (event.date.0.spec_year(), event.date.0.spec_month(), event.date.0.spec_day()),
                )
            },
            Stored::NextDate { label, date } => {
                &&& event.label.0 == *label
                &&& event.recurring == Some(*date)
                &&& event.date.0.is(0, 1, 1)
            },
        }
    }

    /// Adds the entry's event to the tracked events, or refuses an entry
    /// that holds no date and leaves the events as they are.
    pub fn add_event(&self, events: &mut Vec<TrackedEvent>) -> (res: Result<(), DateError>)
        ensures
            self.admissible() ==> res is Ok && final(events)@.len() == old(events)@.len() + 1
                && final(events)@.drop_last() == old(events)@ && self.stores(
                &final(events)@.last(),
            ),
            !self.admissible() ==> res == Err::<(), DateError>(DateError::InvalidDate),
            !self.admissible() ==> final(events)@ == old(events)@,
    {
        match self {
            Stored::FixedDate { label, date } => {
                let date = match CivilDate::parse(date.as_str()) {
                    Ok(d) => d,
                    Err(e) => {
                        return Err(e);
                    },
                };
                events.push(fixed_date_bundle(label.clone(), date));
            },
            Stored::NextDate { label, date } => {
                if !date.is_valid() {
                    return Err(DateError::InvalidDate);
                }
                events.push(next_or_prev_date_bundle(label.clone(), *date));
            },
        }
        proof {
            assert(final(events)@.drop_last() =~= old(events)@);
        }
        Ok(())
    }
}

/// Makes the tracked events of the stored entries, one of each and in their
/// order; where one entry holds no date, none is made.
pub fn load(stored: &Vec<Stored>) -> (res: Result<Vec<TrackedEvent>, DateError>)
    ensures
        res is Ok <==> forall|i: int| 0 <= i < stored@.len() ==> (#[trigger] stored@[i]).admissible(),
        res matches Ok(events) ==> events@.len() == stored@.len() && forall|i: int|
            0 <= i < stored@.len() ==> (#[trigger] stored@[i]).stores(&events@[i]),
        res matches Err(e) ==> e == DateError::InvalidDate,
{
    let mut events: Vec<TrackedEvent> = Vec::new();
    let mut i: usize = 0;
    while i < stored.len()
        invariant
            i <= stored@.len(),
            events@.len() == i,
            forall|j: int| 0 <= j < i ==> (#[trigger] stored@[j]).admissible(),
            forall|j: int| 0 <= j < i ==> (#[trigger] stored@[j]).stores(&events@[j]),
        decreases stored@.len() - i,
    {
        let ghost before = events@;
        match stored[i].add_event(&mut events) {
            Ok(()) => {
                assert(events@.drop_last() == before);
                assert forall|j: int| 0 <= j < i + 1 implies (#[trigger] stored@[j]).stores(
                    &events@[j],
                ) by {
                    if j < i {
                        assert(events@[j] == events@.drop_last()[j]);
                    }
                }
            },
            Err(e) => {
                assert(!stored@[i as int].admissible());
                return Err(e);
            },
        }
        i += 1;
    }
    Ok(events)
}

} // verus!
