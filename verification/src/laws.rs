//! What holds of the day index whatever the calendar and the events are.

use crate::event::{copies, EventView};
use crate::index::{
    chained, events_on, is_day_order, is_listing, well_formed, with_event, with_events,
};
use vstd::prelude::*;

verus! {

/// An event that was added is found: its day has a bucket, the event is the
/// last one in it, and every listing of the calendar holds the event. In a
/// calendar that was empty the bucket holds that event alone.
pub proof fn lemma_added_event_is_found(
    index: Map<int, Seq<EventView>>,
    e: EventView,
    listing: Seq<EventView>,
)
    requires
        is_listing(with_event(index, e), listing),
    ensures
        with_event(index, e).contains_key(e.day()),
        with_event(index, e)[e.day()].last() == e,
        with_event(index, e)[e.day()].contains(e),
        index == Map::<int, Seq<EventView>>::empty() ==> with_event(index, e)[e.day()] == seq![e],
        listing.contains(e),
{
    let after = with_event(index, e);
    let days = choose|days: Seq<int>| #[trigger]
        is_day_order(after, days) && listing == chained(after, days);
    assert(days.to_set().contains(e.day()));
    lemma_chained_holds_bucket(after, days, e.day(), after[e.day()].len() - 1);
}

/// The events that a repetition adds, one for each identifier drawn, all
/// start on one day and go to the end of that day's bucket, in the order of
/// their identifiers; every other bucket stays as it is. Where the
/// identifiers differ from each other and from that of `e`, so do those of
/// the copies.
pub proof fn lemma_repeats_are_new(
    index: Map<int, Seq<EventView>>,
    e: EventView,
    ids: Seq<Seq<char>>,
    distance: int,
)
    requires
        ids.no_duplicates(),
        !ids.contains(e.id),
    ensures
        copies(e, ids, distance).len() == ids.len(),
        forall|i: int|
            0 <= i < ids.len() ==> (#[trigger] copies(e, ids, distance)[i]).id != e.id,
        forall|i: int, j: int|
            0 <= i < j < ids.len() ==> (#[trigger] copies(e, ids, distance)[i]).id != (
            #[trigger] copies(e, ids, distance)[j]).id,
        with_events(index, copies(e, ids, distance)) == if ids.len() == 0 {
            index
        } else {
            index.insert(
                e.start.shifted(distance).local_day(),
                events_on(index, e.start.shifted(distance).local_day()) + copies(
                    e,
                    ids,
                    distance,
                ),
            )
        },
{
    let added = copies(e, ids, distance);
    assert forall|i: int| 0 <= i < ids.len() implies (#[trigger] added[i]).id != e.id by {
    }
    if ids.len() > 0 {
        lemma_one_day_goes_to_one_bucket(index, added, e.start.shifted(distance).local_day());
    }
}

/// Adding every event of a listing to an empty index, in the order of the
/// listing, makes the index that was listed: the same days, each with the
/// same events in the same order.
pub proof fn lemma_replay_rebuilds_index(
    index: Map<int, Seq<EventView>>,
    listing: Seq<EventView>,
)
    requires
        well_formed(index),
        is_listing(index, listing),
    ensures
        with_events(Map::<int, Seq<EventView>>::empty(), listing) == index,
{
    let days = choose|days: Seq<int>| #[trigger]
        is_day_order(index, days) && listing == chained(index, days);
    lemma_replay_of_days(index, days, days.len() as int);
    assert(days.take(days.len() as int) =~= days);
}

/// Adding the events of two sequences in turn is adding those of the two put
/// together.
pub proof fn lemma_with_events_of_both(
    index: Map<int, Seq<EventView>>,
    first: Seq<EventView>,
    second: Seq<EventView>,
)
    ensures
        with_events(index, first + second) == with_events(with_events(index, first), second),
    decreases second.len(),
{
    if second.len() > 0 {
        assert((first + second).drop_last() =~= first + second.drop_last());
        lemma_with_events_of_both(index, first, second.drop_last());
    }
}

/// Events that start on one day all go to the end of that day's bucket, in
/// their order.
pub proof fn lemma_one_day_goes_to_one_bucket(
    index: Map<int, Seq<EventView>>,
    events: Seq<EventView>,
    day: int,
)
    requires
        events.len() > 0,
        forall|i: int| 0 <= i < events.len() ==> (#[trigger] events[i]).day() == day,
    ensures
        with_events(index, events) == index.insert(day, events_on(index, day) + events),
    decreases events.len(),
{
    let before = events.drop_last();
    let bucket = events_on(index, day);
    if before.len() == 0 {
        assert(with_events(index, before) == index);
        assert(bucket.push(events.last()) =~= bucket + events);
    } else {
        lemma_one_day_goes_to_one_bucket(index, before, day);
        assert((bucket + before).push(events.last()) =~= bucket + events);
    }
}

/// A chain of buckets holds every event of each of its days.
proof fn lemma_chained_holds_bucket(
    index: Map<int, Seq<EventView>>,
    days: Seq<int>,
    day: int,
    at: int,
)
    requires
        days.contains(day),
        0 <= at < events_on(index, day).len(),
    ensures
        chained(index, days).contains(events_on(index, day)[at]),
    decreases days.len(),
{
    let before = chained(index, days.drop_last());
    let bucket = events_on(index, days.last());
    if days.last() == day {
        assert((before + bucket)[before.len() + at] == bucket[at]);
    } else {
        let k = choose|k: int| 0 <= k < days.len() && days[k] == day;
        assert(days.drop_last()[k] == day);
        lemma_chained_holds_bucket(index, days.drop_last(), day, at);
        let found = choose|i: int|
            0 <= i < before.len() && before[i] == events_on(index, day)[at];
        assert((before + bucket)[found] == events_on(index, day)[at]);
    }
}

/// Replaying the buckets of the first `upto` days of a day order makes the
/// part of the index that lies on those days.
proof fn lemma_replay_of_days(index: Map<int, Seq<EventView>>, days: Seq<int>, upto: int)
    requires
        well_formed(index),
        is_day_order(index, days),
        0 <= upto <= days.len(),
    ensures
        with_events(Map::<int, Seq<EventView>>::empty(), chained(index, days.take(upto)))
            == index.restrict(days.take(upto).to_set()),
    decreases upto,
{
    if upto == 0 {
        assert(index.restrict(days.take(0).to_set()) =~= Map::<int, Seq<EventView>>::empty());
    } else {
        let day = days[upto - 1];
        let earlier = days.take(upto - 1);
        let part = index.restrict(earlier.to_set());
        assert(days.take(upto) =~= earlier.push(day));
        assert(days.take(upto).drop_last() =~= earlier);
        assert(days.to_set().contains(day));
        assert(!earlier.contains(day)) by {
            assert forall|k: int| 0 <= k < earlier.len() implies earlier[k] != day by {
                assert(earlier[k] == days[k]);
            }
        }
        lemma_replay_of_days(index, days, upto - 1);
        lemma_with_events_of_both(
            Map::<int, Seq<EventView>>::empty(),
            chained(index, earlier),
            index[day],
        );
        lemma_one_day_goes_to_one_bucket(part, index[day], day);
        earlier.lemma_push_to_set_commute(day);
        assert(part.insert(day, events_on(part, day) + index[day]) =~= index.restrict(
            earlier.to_set().insert(day),
        ));
    }
}

} // verus!
