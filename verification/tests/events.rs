use daybook::{Event, Span, Timestamp};

const WEEK: i128 = 604_800_000_000_000;

fn event_at(name: &str, secs: i64, offset: i32) -> Event {
    let mut e = Event::new(name, "about", "somewhere");
    e.start = Timestamp::new(secs, 0, offset).unwrap();
    e.end = e.start.plus(Span::hours(2));
    e
}

fn is_uuid_text(id: &str) -> bool {
    let id: Vec<char> = id.chars().collect();
    id.len() == 36
        && id.iter().enumerate().all(|(i, c)| {
            if i == 8 || i == 13 || i == 18 || i == 23 {
                *c == '-'
            } else {
                matches!(*c, '0'..='9' | 'a'..='f')
            }
        })
        && id[14] == '4'
        && matches!(id[19], '8' | '9' | 'a' | 'b')
}

#[test]
fn new_event_keeps_what_it_was_given() {
    let e = Event::new("Lunch", "with the team", "Canteen");
    assert_eq!(e.name, "Lunch");
    assert_eq!(e.desc, "with the team");
    assert_eq!(e.location, "Canteen");
    assert!(!e.sync);
}

#[test]
fn new_event_takes_empty_texts() {
    let e = Event::new("", "", "");
    assert_eq!(e.name, "");
    assert_eq!(e.desc, "");
    assert_eq!(e.location, "");
}

#[test]
fn new_event_starts_now_and_lasts_an_hour() {
    let before = Timestamp::now();
    let e = Event::new("n", "d", "l");
    let after = Timestamp::now();
    assert!(e.start.since(&before).nanos >= 0);
    assert!(after.since(&e.start).nanos >= 0);
    assert_eq!(e.end.since(&e.start), Span::hours(1));
    assert_eq!(e.end.since(&e.start).nanos, 3_600_000_000_000);
    assert_eq!(e.end.utc_offset(), e.start.utc_offset());
}

#[test]
fn new_event_has_a_random_uuid() {
    let e = Event::new("n", "d", "l");
    assert!(is_uuid_text(&e.id), "{}", e.id);
}

#[test]
fn new_events_get_identifiers_of_their_own() {
    let a = Event::new("same", "same", "same");
    let b = Event::new("same", "same", "same");
    assert_ne!(a.id, b.id);
}

#[test]
fn repeat_shifts_the_start_and_keeps_the_length() {
    let e = event_at("Standup", 1_709_632_800, 3_600);
    let r = e.repeat(Span::weeks(1));
    assert_eq!(r.start.since(&e.start).nanos, WEEK);
    assert_eq!(r.start.unix_seconds(), 1_709_632_800 + 604_800);
    assert_eq!(r.end.since(&r.start), e.end.since(&e.start));
    assert_eq!(r.end.unix_seconds(), 1_709_632_800 + 604_800 + 7_200);
    assert_ne!(r.id, e.id);
    assert!(is_uuid_text(&r.id));
}

#[test]
fn repeat_copies_the_texts_and_clears_the_sync_flag() {
    let mut e = event_at("Standup", 1_709_632_800, 0);
    e.sync = true;
    let r = e.repeat(Span::hours(3));
    assert_eq!(r.name, "Standup");
    assert_eq!(r.desc, "about");
    assert_eq!(r.location, "somewhere");
    assert!(!r.sync);
}

#[test]
fn repeat_leaves_the_event_as_it_is() {
    let mut e = event_at("Standup", 1_709_632_800, -18_000);
    e.sync = true;
    let kept = e.clone();
    let _ = e.repeat(Span::weeks(1));
    assert_eq!(e, kept);
}

#[test]
fn repeat_keeps_the_offset_of_the_start() {
    let mut e = event_at("Flight", 1_709_632_800, 3_600);
    e.end = Timestamp::new(1_709_640_000, 0, -18_000).unwrap();
    let r = e.repeat(Span::weeks(1));
    assert_eq!(r.start.utc_offset(), 3_600);
    assert_eq!(r.end.utc_offset(), 3_600);
    assert_eq!(r.end.unix_seconds(), 1_709_640_000 + 604_800);
}

#[test]
fn repeat_by_nothing_copies_the_times() {
    let e = event_at("Standup", 1_709_632_800, 0);
    let r = e.repeat(Span::nanoseconds(0));
    assert_eq!(r.start, e.start);
    assert_eq!(r.end, e.end);
    assert_ne!(r.id, e.id);
}

#[test]
fn repeat_by_a_negative_distance_goes_back() {
    let e = event_at("Standup", 1_709_632_800, 0);
    let r = e.repeat(Span::nanoseconds(-1));
    assert_eq!(r.start.unix_seconds(), 1_709_632_799);
    assert_eq!(r.start.subsec_nanos(), 999_999_999);
    assert_eq!(r.end.since(&r.start), Span::hours(2));
    let earlier = e.repeat(Span::weeks(-2));
    assert_eq!(earlier.start.unix_seconds(), 1_709_632_800 - 1_209_600);
}

#[test]
fn repeat_keeps_a_negative_length() {
    let mut e = event_at("Backwards", 1_000, 0);
    e.end = Timestamp::new(400, 0, 0).unwrap();
    let r = e.repeat(Span::seconds(50));
    assert_eq!(r.start.unix_seconds(), 1_050);
    assert_eq!(r.end.unix_seconds(), 450);
}

#[test]
fn repeat_with_id_takes_the_identifier() {
    let e = event_at("Standup", 1_709_632_800, 0);
    let r = e.repeat_with_id(String::from("copy-1"), Span::weeks(1));
    assert_eq!(r.id, "copy-1");
    assert_eq!(r.name, e.name);
    assert_eq!(r.start.since(&e.start).nanos, WEEK);
    assert_eq!(r.end.since(&r.start), e.end.since(&e.start));
    assert!(!r.sync);
}

#[test]
fn repeat_with_id_may_reuse_the_identifier() {
    let e = event_at("Standup", 1_709_632_800, 0);
    let r = e.repeat_with_id(e.id.clone(), Span::weeks(1));
    assert_eq!(r.id, e.id);
}

#[test]
fn can_repeat_in_ordinary_times() {
    let e = event_at("Standup", 1_709_632_800, 0);
    assert!(e.can_repeat(Span::weeks(1)));
    assert!(e.can_repeat(Span::weeks(-1)));
    assert!(e.can_repeat(Span::nanoseconds(0)));
}

#[test]
fn can_repeat_fails_where_the_start_runs_out() {
    let e = event_at("Late", i64::MAX - 10_000, 0);
    assert!(e.can_repeat(Span::seconds(2_000)));
    assert!(!e.can_repeat(Span::seconds(10_001)));
    let early = event_at("Early", i64::MIN, 0);
    assert!(!early.can_repeat(Span::nanoseconds(-1)));
}

#[test]
fn can_repeat_fails_where_the_end_runs_out() {
    // The start can move by 5000 seconds, the end two hours later cannot.
    let e = event_at("Late", i64::MAX - 10_000, 0);
    assert!(e.can_repeat(Span::seconds(2_800)));
    assert!(!e.can_repeat(Span::seconds(5_000)));
}

#[test]
fn starting_at_keeps_what_it_was_given() {
    let start = Timestamp::new(1_709_632_800, 5, -3_600).unwrap();
    let e = Event::starting_at(String::from("id-1"), "Lunch", "with the team", "Canteen", start)
        .unwrap();
    assert_eq!(e.id, "id-1");
    assert_eq!(e.name, "Lunch");
    assert_eq!(e.desc, "with the team");
    assert_eq!(e.location, "Canteen");
    assert_eq!(e.start, start);
    assert!(!e.sync);
}

#[test]
fn starting_at_ends_an_hour_later() {
    let start = Timestamp::new(1_709_632_800, 5, -3_600).unwrap();
    let e = Event::starting_at(String::new(), "", "", "", start).unwrap();
    assert_eq!(e.end, Timestamp::new(1_709_636_400, 5, -3_600).unwrap());
    let before_epoch = Timestamp::new(-1_800, 0, 0).unwrap();
    let f = Event::starting_at(String::new(), "", "", "", before_epoch).unwrap();
    assert_eq!(f.end, Timestamp::new(1_800, 0, 0).unwrap());
}

#[test]
fn starting_at_fails_where_the_end_runs_out() {
    let last_good = Timestamp::new(i64::MAX - 3_600, 999_999_999, 0).unwrap();
    let e = Event::starting_at(String::new(), "", "", "", last_good).unwrap();
    assert_eq!(e.end.unix_seconds(), i64::MAX);
    assert_eq!(e.end.subsec_nanos(), 999_999_999);
    let too_late = Timestamp::new(i64::MAX - 3_599, 0, 0).unwrap();
    assert!(Event::starting_at(String::new(), "", "", "", too_late).is_none());
    let first = Timestamp::new(i64::MIN, 0, 0).unwrap();
    assert!(Event::starting_at(String::new(), "", "", "", first).is_some());
}
