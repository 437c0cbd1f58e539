use event_tracker::model::{Event, EventQuery, Timestamp};
use event_tracker::table::EventTable;
use serde_json::Value;

fn event(id: u128, event_type: &str, secs: i64) -> Event {
    Event {
        id,
        event_type: event_type.to_string(),
        timestamp: Timestamp::new(secs, 0),
        payload: Value::String(format!("payload of {}", id)),
    }
}

fn ids(events: &[Event]) -> Vec<u128> {
    let mut ids: Vec<u128> = events.iter().map(|e| e.id).collect();
    ids.sort();
    ids
}

#[test]
fn new_table_is_empty() {
    let table = EventTable::new();
    assert_eq!(table.len(), 0);
    assert_eq!(table.get(0), None);
    assert!(table.select(&EventQuery::default()).is_empty());
}

#[test]
fn insert_then_get() {
    let mut table = EventTable::new();
    table.insert(event(1, "login", 10));
    table.insert(event(2, "logout", 20));
    assert_eq!(table.len(), 2);
    assert_eq!(table.get(1), Some(event(1, "login", 10)));
    assert_eq!(table.get(2), Some(event(2, "logout", 20)));
    assert_eq!(table.get(3), None);
}

#[test]
fn insert_under_a_used_id_replaces() {
    let mut table = EventTable::new();
    table.insert(event(1, "login", 10));
    table.insert(event(2, "logout", 20));
    table.insert(event(1, "signup", 30));
    assert_eq!(table.len(), 2);
    assert_eq!(table.get(1), Some(event(1, "signup", 30)));
    assert_eq!(table.get(2), Some(event(2, "logout", 20)));
}

#[test]
fn distinct_inserts_are_all_counted() {
    let mut table = EventTable::new();
    for i in 0..100u128 {
        table.insert(event(i, "tick", i as i64));
    }
    assert_eq!(table.len(), 100);
    let all = table.select(&EventQuery::default());
    assert_eq!(ids(&all), (0..100u128).collect::<Vec<u128>>());
}

#[test]
fn select_returns_each_match_once_as_stored() {
    let mut table = EventTable::new();
    table.insert(event(1, "login", 10));
    table.insert(event(2, "logout", 20));
    table.insert(event(3, "login", 30));
    table.insert(event(4, "login", 40));
    let query = EventQuery {
        event_type: Some("login".to_string()),
        start: Some(Timestamp::new(10, 0)),
        end: Some(Timestamp::new(30, 0)),
    };
    let mut found = table.select(&query);
    found.sort_by_key(|e| e.id);
    assert_eq!(found, vec![event(1, "login", 10), event(3, "login", 30)]);
}

#[test]
fn select_does_not_depend_on_insertion_order() {
    let mut forward = EventTable::new();
    let mut backward = EventTable::new();
    for i in 0..10u128 {
        forward.insert(event(i, if i % 3 == 0 { "login" } else { "other" }, i as i64));
        let j = 9 - i;
        backward.insert(event(j, if j % 3 == 0 { "login" } else { "other" }, j as i64));
    }
    let query = EventQuery { event_type: Some("login".to_string()), start: None, end: None };
    assert_eq!(ids(&forward.select(&query)), vec![0, 3, 6, 9]);
    assert_eq!(ids(&backward.select(&query)), vec![0, 3, 6, 9]);
}

#[test]
fn select_twice_gives_the_same_events() {
    let mut table = EventTable::new();
    for i in 0..10u128 {
        table.insert(event(i, "tick", i as i64));
    }
    let query = EventQuery { event_type: None, start: Some(Timestamp::new(4, 0)), end: None };
    let first = table.select(&query);
    let second = table.select(&query);
    assert_eq!(ids(&first), vec![4, 5, 6, 7, 8, 9]);
    assert_eq!(ids(&first), ids(&second));
}

#[test]
fn select_under_an_inverted_range_is_empty() {
    let mut table = EventTable::new();
    table.insert(event(1, "login", 10));
    let query = EventQuery {
        event_type: None,
        start: Some(Timestamp::new(11, 0)),
        end: Some(Timestamp::new(9, 0)),
    };
    assert!(table.select(&query).is_empty());
}

#[test]
fn insert_under_a_new_id_adds_one_entry() {
    let mut table = EventTable::new();
    for i in 0..5u128 {
        let before = table.len();
        table.insert(event(i, "tick", 0));
        assert_eq!(table.len(), before + 1);
    }
    let before = table.len();
    table.insert(event(3, "tock", 1));
    assert_eq!(table.len(), before);
}
