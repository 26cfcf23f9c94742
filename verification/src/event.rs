//! Events: single timed entries of a calendar.

use crate::ident::{fresh_id, is_uuid_text};
use crate::time::{
    lemma_shifted_instant, Span, Timestamp, TimestampView, EARLIEST_CLOCK_SECOND,
    LATEST_CLOCK_SECOND, NANOS_PER_SECOND, SECONDS_PER_HOUR,
};
use vstd::prelude::*;

verus! {

/// An entry in time, to be stored in a calendar.
#[derive(Clone, Debug, PartialEq)]
pub struct Event {
    pub id: String,
    pub name: String,
    pub desc: String,
    pub location: String,
    pub start: Timestamp,
    pub end: Timestamp,
    pub sync: bool,
}

/// What an [`Event`] stands for.
pub struct EventView {
    pub id: Seq<char>,
    pub name: Seq<char>,
    pub desc: Seq<char>,
    pub location: Seq<char>,
    pub start: TimestampView,
    pub end: TimestampView,
    pub sync: bool,
}

impl View for Event {
    type V = EventView;

    open spec fn view(&self) -> EventView {
        EventView {
            id: self.id@,
            name: self.name@,
            desc: self.desc@,
            location: self.location@,
            start: self.start@,
            end: self.end@,
            sync: self.sync,
        }
    }
}

/// What a sequence of events stands for.
pub open spec fn views(events: Seq<Event>) -> Seq<EventView> {
    events.map_values(|e: Event| e@)
}

/// What a sequence of borrowed events stands for.
pub open spec fn views_of_refs(events: Seq<&Event>) -> Seq<EventView> {
    events.map_values(|e: &Event| e@)
}

/// The copies of `e` that start `distance` nanoseconds later, one under
/// each of the identifiers, in their order.
pub open spec fn copies(e: EventView, ids: Seq<Seq<char>>, distance: int) -> Seq<EventView> {
    Seq::new(ids.len(), |i: int| e.repeated(ids[i], distance))
}

impl EventView {
    /// The number of the local day on which the event starts.
    pub open spec fn day(self) -> int {
        self.start.local_day()
    }

    /// The time from start to end, in nanoseconds.
    pub open spec fn length(self) -> int {
        self.end.instant() - self.start.instant()
    }

    /// Whether both ends of a copy `distance` nanoseconds later can be held.
    pub open spec fn can_repeat(self, distance: int) -> bool {
        &&& self.start.can_shift(distance)
        &&& self.start.shifted(distance).can_shift(self.length())
    }

    /// The copy under the identifier `id` that starts `distance` nanoseconds
    /// later and lasts as long. It is not marked as synchronised.
    pub open spec fn repeated(self, id: Seq<char>, distance: int) -> EventView {
        EventView {
            id,
            name: self.name,
            desc: self.desc,
            location: self.location,
            start: self.start.shifted(distance),
            end: self.start.shifted(distance).shifted(self.length()),
            sync: false,
        }
    }
}

impl Event {
    /// A new event under a fresh identifier. It starts now, ends one hour
    /// later and is not marked as synchronised.
    pub fn new(name: &str, desc: &str, location: &str) -> (e: Event)
        ensures
            is_uuid_text(e@.id),
            e@.name == name@,
            e@.desc == desc@,
            e@.location == location@,
            e@.start.valid(),
            EARLIEST_CLOCK_SECOND <= e@.start.secs <= LATEST_CLOCK_SECOND,
            e@.end == e@.start.shifted(SECONDS_PER_HOUR * NANOS_PER_SECOND),
            !e@.sync,
    {
        let start = Timestamp::now();
        proof {
            use_type_invariant(start);
        }
        match Event::starting_at(fresh_id(), name, desc, location, start) {
            Some(e) => e,
            None => vstd::pervasive::unreached(),
        }
    }

    /// A new event under the identifier `id` that starts at `start`, ends
    /// one hour later and is not marked as synchronised; `None` where the
    /// seconds of the end would not fit in 64 bits.
    pub fn starting_at(id: String, name: &str, desc: &str, location: &str, start: Timestamp) -> (r:
        Option<Event>)
        ensures
            r is Some <==> start@.can_shift(SECONDS_PER_HOUR * NANOS_PER_SECOND),
            r matches Some(e) ==> e@ == (EventView {
                id: id@,
                name: name@,
                desc: desc@,
                location: location@,
                start: start@,
                end: start@.shifted(SECONDS_PER_HOUR * NANOS_PER_SECOND),
                sync: false,
            }),
    {
        match start.checked_add(Span::hours(1)) {
            Some(end) => Some(
                Event {
                    id,
                    name: name.to_owned(),
                    desc: desc.to_owned(),
                    location: location.to_owned(),
                    start,
                    end,
                    sync: false,
                },
            ),
            None => None,
        }
    }

    /// Whether both ends of a copy that starts `distance` later can be
    /// held: their seconds have to fit in 64 bits.
    pub fn can_repeat(&self, distance: Span) -> (ok: bool)
        ensures
            ok == self@.can_repeat(distance@),
    {
        match self.start.checked_add(distance) {
            Some(start) => start.checked_add(self.end.since(&self.start)).is_some(),
            None => false,
        }
    }

    /// The copy of this event under the identifier `id` that starts
    /// `distance` later and lasts as long. The copy is not marked as
    /// synchronised; this event stays as it is.
    pub fn repeat_with_id(&self, id: String, distance: Span) -> (e: Event)
        requires
            self@.can_repeat(distance@),
        ensures
            e@ == self@.repeated(id@, distance@),
            id@ != self@.id ==> e@.id != self@.id,
            e@.start.instant() == self@.start.instant() + distance@,
            e@.end.instant() - e@.start.instant() == self@.end.instant() - self@.start.instant(),
    {
        let length = self.end.since(&self.start);
        let start = self.start.plus(distance);
        let end = start.plus(length);
        proof {
            lemma_shifted_instant(self.start@, distance@);
            lemma_shifted_instant(start@, length@);
        }
        Event {
            id,
            name: self.name.clone(),
            desc: self.desc.clone(),
            location: self.location.clone(),
            start,
            end,
            sync: false,
        }
    }

    /// The copy of this event under a fresh identifier that starts
    /// `distance` later and lasts as long. The copy is not marked as
    /// synchronised; this event stays as it is.
    pub fn repeat(&self, distance: Span) -> (e: Event)
        requires
            self@.can_repeat(distance@),
        ensures
            is_uuid_text(e@.id),
            e@ == self@.repeated(e@.id, distance@),
            e@.start.instant() == self@.start.instant() + distance@,
            e@.end.instant() - e@.start.instant() == self@.end.instant() - self@.start.instant(),
    {
        self.repeat_with_id(fresh_id(), distance)
    }
}

} // verus!
