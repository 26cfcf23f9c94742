//! The day index of a calendar as a mathematical map: from the number of a
//! day to the events that start on it, in the order in which they came.

use crate::event::EventView;
use vstd::prelude::*;

verus! {

/// The events on `day`, oldest first; none where the day has no bucket.
pub open spec fn events_on(index: Map<int, Seq<EventView>>, day: int) -> Seq<EventView> {
    if index.contains_key(day) {
        index[day]
    } else {
        Seq::empty()
    }
}

/// Every bucket holds at least one event, and every event lies in the
/// bucket of the day on which it starts.
pub open spec fn well_formed(index: Map<int, Seq<EventView>>) -> bool {
    &&& forall|day: int| #[trigger] index.contains_key(day) ==> index[day].len() > 0
    &&& forall|day: int, i: int|
        index.contains_key(day) && 0 <= i < index[day].len() ==> (#[trigger] index[day][i]).day()
            == day
}

/// The index after `e` went to the end of the bucket of its day.
pub open spec fn with_event(index: Map<int, Seq<EventView>>, e: EventView) -> Map<
    int,
    Seq<EventView>,
> {
    index.insert(e.day(), events_on(index, e.day()).push(e))
}

/// The index after the events went in, one after the other.
pub open spec fn with_events(index: Map<int, Seq<EventView>>, events: Seq<EventView>) -> Map<
    int,
    Seq<EventView>,
>
    decreases events.len(),
{
    if events.len() == 0 {
        index
    } else {
        with_event(with_events(index, events.drop_last()), events.last())
    }
}

/// `at` is the first place in the bucket that holds an event with the
/// identifier `id`.
pub open spec fn is_first_with_id(bucket: Seq<EventView>, id: Seq<char>, at: int) -> bool {
    &&& 0 <= at < bucket.len()
    &&& bucket[at].id == id
    &&& forall|j: int| 0 <= j < at ==> (#[trigger] bucket[j]).id != id
}

/// The first place in the bucket that holds an event with the identifier
/// `id`, if there is one.
pub open spec fn position_of(bucket: Seq<EventView>, id: Seq<char>) -> Option<int> {
    if exists|at: int| is_first_with_id(bucket, id, at) {
        Some(choose|at: int| is_first_with_id(bucket, id, at))
    } else {
        None
    }
}

/// The index after the first event with the identifier of `e` left the
/// bucket of the day on which `e` starts. A bucket that is left empty goes
/// too. Without such an event the index stays as it is.
pub open spec fn without_event(index: Map<int, Seq<EventView>>, e: EventView) -> Map<
    int,
    Seq<EventView>,
> {
    match position_of(events_on(index, e.day()), e.id) {
        None => index,
        Some(at) => {
            let rest = index[e.day()].remove(at);
            if rest.len() == 0 {
                index.remove(e.day())
            } else {
                index.insert(e.day(), rest)
            }
        },
    }
}

/// The buckets of the given days, one after the other.
pub open spec fn chained(index: Map<int, Seq<EventView>>, days: Seq<int>) -> Seq<EventView>
    decreases days.len(),
{
    if days.len() == 0 {
        Seq::empty()
    } else {
        chained(index, days.drop_last()) + events_on(index, days.last())
    }
}

/// `days` names every day of the index once.
pub open spec fn is_day_order(index: Map<int, Seq<EventView>>, days: Seq<int>) -> bool {
    &&& days.no_duplicates()
    &&& days.to_set() == index.dom()
}

/// `events` lists the index bucket by bucket: the days come in some order,
/// the events of one day stay together and in their order.
pub open spec fn is_listing(index: Map<int, Seq<EventView>>, events: Seq<EventView>) -> bool {
    exists|days: Seq<int>| #[trigger] is_day_order(index, days) && events == chained(index, days)
}

} // verus!
