//! Calendars: named stores of events, bucketed by the local day on which
//! each event starts.

use crate::event::{copies, views, views_of_refs, Event, EventView};
use crate::ident::{fresh_id, is_uuid_text, texts};
use crate::index::{
    chained, events_on, is_day_order, is_first_with_id, is_listing, position_of, well_formed,
    with_event, with_events, without_event,
};
use crate::time::{Day, Span, NANOS_PER_SECOND, SECONDS_PER_WEEK};
use std::collections::HashMap;
use vstd::prelude::*;
use vstd::std_specs::hash::spec_keys_iter;
use vstd::std_specs::iter::IteratorSpec;

verus! {

broadcast use vstd::std_specs::hash::group_hash_axioms;

/// The buckets of a calendar, keyed by the number of the day.
#[derive(Debug, PartialEq)]
struct Buckets {
    map: HashMap<i64, Vec<Event>>,
}

/// The day index that a map of buckets stands for.
spec fn index_of(map: Map<i64, Vec<Event>>) -> Map<int, Seq<EventView>> {
    Map::new(
        |day: int| i64::MIN <= day <= i64::MAX && map.contains_key(day as i64),
        |day: int| views(map[day as i64]@),
    )
}

impl Buckets {
    spec fn index(self) -> Map<int, Seq<EventView>> {
        index_of(self.map@)
    }

    #[verifier::type_invariant]
    spec fn inv(self) -> bool {
        well_formed(self.index())
    }
}

/// The first place in the bucket that holds an event with the identifier
/// `id`.
fn position(bucket: &Vec<Event>, id: &String) -> (found: Option<usize>)
    ensures
        match found {
            Some(at) => is_first_with_id(views(bucket@), id@, at as int),
            None => forall|j: int| 0 <= j < bucket.len() ==> (#[trigger] views(bucket@)[j]).id != id@,
        },
{
    let mut at: usize = 0;
    while at < bucket.len()
        invariant
            at <= bucket.len(),
            forall|j: int| 0 <= j < at ==> (#[trigger] views(bucket@)[j]).id != id@,
        decreases bucket.len() - at,
    {
        if bucket[at].id == *id {
            return Some(at);
        }
        at += 1;
    }
    None
}

/// What a search from the front found is what `position_of` names.
proof fn lemma_position_found(bucket: Seq<EventView>, id: Seq<char>, found: Option<usize>)
    requires
        match found {
            Some(at) => is_first_with_id(bucket, id, at as int),
            None => forall|j: int| 0 <= j < bucket.len() ==> (#[trigger] bucket[j]).id != id,
        },
    ensures
        position_of(bucket, id) == match found {
            Some(at) => Some(at as int),
            None => None,
        },
{
    if let Some(at) = found {
        // Two first places cannot differ: the later one has the earlier before it.
        let chosen = choose|i: int| is_first_with_id(bucket, id, i);
        assert(chosen == at);
    }
}

/// An account: the calendars of one user, in the order in which they were
/// put in. Nothing keeps two of them from being alike.
pub struct Account {
    pub items: Vec<Calendar>,
}

/// A calendar: its description and the events in it.
#[derive(Debug, PartialEq)]
pub struct Calendar {
    pub id: String,
    pub name: String,
    pub desc: String,
    pub sync: bool,
    days: Buckets,
}

/// What a [`Calendar`] stands for.
pub struct CalendarView {
    pub id: Seq<char>,
    pub name: Seq<char>,
    pub desc: Seq<char>,
    pub sync: bool,
    /// The day index: from the number of a day to the events that start on
    /// it, in the order in which they were added.
    pub index: Map<int, Seq<EventView>>,
}

impl View for Calendar {
    type V = CalendarView;

    closed spec fn view(&self) -> CalendarView {
        CalendarView {
            id: self.id@,
            name: self.name@,
            desc: self.desc@,
            sync: self.sync,
            index: self.days.index(),
        }
    }
}

impl Calendar {
    /// A new, empty calendar under a fresh identifier. `sync` says whether
    /// the calendar takes part in synchronisation.
    pub fn new(name: &str, desc: &str, sync: bool) -> (c: Calendar)
        ensures
            is_uuid_text(c@.id),
            c@.name == name@,
            c@.desc == desc@,
            c@.sync == sync,
            c@.index == Map::<int, Seq<EventView>>::empty(),
            well_formed(c@.index),
    {
        let days = Buckets { map: HashMap::new() };
        Calendar { id: fresh_id(), name: name.to_owned(), desc: desc.to_owned(), sync, days }
    }

    /// Stores an event at the end of the bucket of the day on which it
    /// starts, and makes that bucket where the day had none.
    pub fn add_event(&mut self, e: Event)
        ensures
            final(self)@ == (CalendarView {
                index: with_event(old(self)@.index, e@),
                ..old(self)@
            }),
            well_formed(final(self)@.index),
    {
        let day = e.start.day();
        let ghost before = self.days.index();
        let ghost added = e@;
        let mut map = self.take_buckets();
        let mut bucket = match map.remove(&day.number) {
            Some(bucket) => bucket,
            None => Vec::new(),
        };
        bucket.push(e);
        assert(views(bucket@) =~= events_on(before, day@).push(added));
        map.insert(day.number, bucket);
        assert(index_of(map@) =~= with_event(before, added));
        self.days = Buckets { map };
    }

    /// All events of the calendar, bucket by bucket: the days come in the
    /// order in which the hash map walks them, which is any order; the
    /// events of one day stay together, oldest first.
    pub fn get_events(&self) -> (events: Vec<&Event>)
        ensures
            is_listing(self@.index, views_of_refs(events@)),
            well_formed(self@.index),
    {
        proof {
            use_type_invariant(&self.days);
        }
        let mut events: Vec<&Event> = Vec::new();
        let ghost mut days: Seq<int> = Seq::empty();
        for key in keys: self.days.map.keys()
            invariant
                keys.seq() == spec_keys_iter(&self.days.map).remaining(),
                days.len() == keys.index(),
                forall|k: int| 0 <= k < days.len() ==> days[k] == *keys.seq()[k],
                views_of_refs(events@) == chained(self@.index, days),
            ensures
                days.len() == spec_keys_iter(&self.days.map).remaining().len(),
        {
            let ghost listed = views_of_refs(events@);
            proof {
                assert(days.push(*key as int).drop_last() =~= days);
                days = days.push(*key as int);
            }
            match self.days.map.get(key) {
                Some(bucket) => {
                    let mut at: usize = 0;
                    while at < bucket.len()
                        invariant
                            at <= bucket.len(),
                            views_of_refs(events@) == listed + views(bucket@).take(at as int),
                        decreases bucket.len() - at,
                    {
                        let ghost shown = events@;
                        events.push(&bucket[at]);
                        assert(views_of_refs(events@) =~= views_of_refs(shown).push(
                            bucket[at as int]@,
                        ));
                        at += 1;
                    }
                },
                None => {},
            }
        }
        proof {
            let walked = spec_keys_iter(&self.days.map).remaining();
            assert forall|day: int| self@.index.contains_key(day) implies days.contains(day) by {
                let k = choose|k: int| 0 <= k < walked.len() && walked.unref()[k] == day as i64;
                assert(days[k] == day);
            }
            assert forall|day: int| days.contains(day) implies self@.index.contains_key(day) by {
                let k = choose|k: int| 0 <= k < days.len() && days[k] == day;
                assert(walked.unref()[k] == *walked[k]);
            }
            assert(days.to_set() =~= self@.index.dom());
            assert(is_day_order(self@.index, days));
        }
        events
    }

    /// The events of the given day, oldest first; `None` where no event
    /// starts on that day.
    pub fn get_events_by_day(&self, date: Day) -> (events: Option<&[Event]>)
        ensures
            match events {
                Some(bucket) => self@.index.contains_key(date@) && views(bucket@)
                    == self@.index[date@] && bucket@.len() > 0,
                None => !self@.index.contains_key(date@),
            },
            well_formed(self@.index),
    {
        proof {
            use_type_invariant(&self.days);
        }
        match self.days.map.get(&date.number) {
            Some(bucket) => {
                Some(bucket.as_slice())
            },
            None => None,
        }
    }

    /// Deletes the first event that has the identifier of `e` from the
    /// bucket of the day on which `e` starts. A bucket that is left empty
    /// goes too. Where that day has no bucket, or the bucket no such event,
    /// nothing happens.
    pub fn delete_event(&mut self, e: &Event)
        ensures
            final(self)@ == (CalendarView {
                index: without_event(old(self)@.index, e@),
                ..old(self)@
            }),
            well_formed(final(self)@.index),
            position_of(events_on(old(self)@.index, e@.day()), e@.id) is None ==> *final(self)
                == *old(self),
            position_of(events_on(old(self)@.index, e@.day()), e@.id) matches Some(at) ==> {
                &&& events_on(final(self)@.index, e@.day()) == events_on(
                    old(self)@.index,
                    e@.day(),
                ).remove(at)
                &&& forall|day: int|
                    day != e@.day() ==> final(self)@.index.contains_key(day) == old(
                        self,
                    )@.index.contains_key(day) && #[trigger] events_on(final(self)@.index, day)
                        == events_on(old(self)@.index, day)
            },
    {
        proof {
            use_type_invariant(&self.days);
        }
        let day = e.start.day();
        let ghost before = self.days.index();
        let found = match self.days.map.get(&day.number) {
            Some(bucket) => position(bucket, &e.id),
            None => None,
        };
        proof {
            lemma_position_found(events_on(before, day@), e@.id, found);
        }
        match found {
            None => {},
            Some(at) => {
                let mut map = self.take_buckets();
                match map.remove(&day.number) {
                    Some(mut bucket) => {
                        bucket.remove(at);
                        assert(views(bucket@) =~= before[day@].remove(at as int));
                        if bucket.len() > 0 {
                            map.insert(day.number, bucket);
                        }
                    },
                    None => {},
                }
                assert(index_of(map@) =~= without_event(before, e@));
                self.days = Buckets { map };
            },
        }
    }

    /// Stores one copy of `e` for each of the given identifiers, in their
    /// order. Each copy starts one week after `e` and lasts as long; `e`
    /// stays as it is.
    pub fn repeat_event_with_ids(&mut self, e: &Event, ids: &Vec<String>)
        requires
            e@.can_repeat(SECONDS_PER_WEEK * NANOS_PER_SECOND),
        ensures
            final(self)@ == (CalendarView {
                index: with_events(
                    old(self)@.index,
                    copies(e@, texts(ids@), SECONDS_PER_WEEK * NANOS_PER_SECOND),
                ),
                ..old(self)@
            }),
            well_formed(final(self)@.index),
    {
        proof {
            use_type_invariant(&self.days);
        }
        let ghost week = SECONDS_PER_WEEK * NANOS_PER_SECOND;
        let ghost all = copies(e@, texts(ids@), week);
        let mut done: usize = 0;
        while done < ids.len()
            invariant
                done <= ids.len(),
                e@.can_repeat(week),
                week == SECONDS_PER_WEEK * NANOS_PER_SECOND,
                all == copies(e@, texts(ids@), week),
                self@ == (CalendarView {
                    index: with_events(old(self)@.index, all.take(done as int)),
                    ..old(self)@
                }),
                well_formed(self@.index),
            decreases ids.len() - done,
        {
            let copy = e.repeat_with_id(ids[done].clone(), Span::weeks(1));
            assert(all.take(done as int + 1).drop_last() =~= all.take(done as int));
            self.add_event(copy);
            done += 1;
        }
        assert(all.take(done as int) =~= all);
    }

    /// Stores `n` copies of `e`, each under a fresh identifier. Each copy
    /// starts one week after `e` and lasts as long; `e` stays as it is.
    pub fn repeat_event_n_times(&mut self, e: &Event, n: usize)
        requires
            e@.can_repeat(SECONDS_PER_WEEK * NANOS_PER_SECOND),
        ensures
            exists|ids: Seq<Seq<char>>|
                {
                    &&& ids.len() == n
                    &&& forall|i: int| 0 <= i < n ==> is_uuid_text(#[trigger] ids[i])
                    &&& final(self)@ == (CalendarView {
                        index: with_events(
                            old(self)@.index,
                            #[trigger] copies(e@, ids, SECONDS_PER_WEEK * NANOS_PER_SECOND),
                        ),
                        ..old(self)@
                    })
                },
            well_formed(final(self)@.index),
    {
        let mut ids: Vec<String> = Vec::new();
        while ids.len() < n
            invariant
                ids.len() <= n,
                forall|i: int| 0 <= i < ids.len() ==> is_uuid_text(#[trigger] texts(ids@)[i]),
            decreases n - ids.len(),
        {
            let ghost drawn = ids@;
            ids.push(fresh_id());
            assert(texts(ids@) =~= texts(drawn).push(ids@.last()@));
        }
        self.repeat_event_with_ids(e, &ids);
    }

    /// Takes the buckets out of the calendar and leaves it empty. The caller
    /// changes them and puts them back.
    fn take_buckets(&mut self) -> (map: HashMap<i64, Vec<Event>>)
        ensures
            index_of(map@) == old(self)@.index,
            well_formed(index_of(map@)),
            final(self)@ == (CalendarView {
                index: Map::<int, Seq<EventView>>::empty(),
                ..old(self)@
            }),
    {
        let mut days = Buckets { map: HashMap::new() };
        assert(days.index() =~= Map::<int, Seq<EventView>>::empty());
        std::mem::swap(&mut self.days, &mut days);
        proof {
            use_type_invariant(&days);
        }
        let Buckets { map } = days;
        map
    }
}

} // verus!
