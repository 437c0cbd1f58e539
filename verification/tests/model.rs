use event_tracker::model::{Event, EventQuery, NewEvent, Timestamp};
use serde_json::Value;

fn event(event_type: &str, secs: i64, nanos: u32) -> Event {
    Event {
        id: 7,
        event_type: event_type.to_string(),
        timestamp: Timestamp::new(secs, nanos),
        payload: Value::Null,
    }
}

#[test]
fn timestamp_new_keeps_both_parts() {
    let t = Timestamp::new(-5, 999_999_999);
    assert_eq!(t.secs, -5);
    assert_eq!(t.nanos, 999_999_999);
    assert_eq!(t, Timestamp { secs: -5, nanos: 999_999_999 });
}

#[test]
fn timestamps_order_by_seconds_then_nanoseconds() {
    let a = Timestamp::new(10, 500);
    let b = Timestamp::new(10, 501);
    let c = Timestamp::new(11, 0);
    let before_epoch = Timestamp::new(-1, 999_999_999);
    assert!(a.at_or_before(&a));
    assert!(a.at_or_after(&a));
    assert!(a.at_or_before(&b));
    assert!(!b.at_or_before(&a));
    assert!(b.at_or_after(&a));
    assert!(!a.at_or_after(&b));
    assert!(b.at_or_before(&c));
    assert!(!c.at_or_before(&b));
    assert!(before_epoch.at_or_before(&Timestamp::new(0, 0)));
    assert!(!before_epoch.at_or_after(&Timestamp::new(0, 0)));
}

#[test]
fn leap_second_sorts_between_its_second_and_the_next() {
    let ordinary = Timestamp::new(59, 999_999_999);
    let leap = Timestamp::new(59, 1_500_000_000);
    let next = Timestamp::new(60, 0);
    assert!(ordinary.at_or_before(&leap));
    assert!(!leap.at_or_before(&ordinary));
    assert!(leap.at_or_before(&next));
    assert!(!next.at_or_before(&leap));
}

#[test]
fn timestamp_order_agrees_with_chrono() {
    let texts = [
        "2024-12-31T23:59:59.999999999Z",
        "2025-01-01T00:00:00Z",
        "2025-01-01T00:00:00.000000001Z",
        "2025-01-01T01:00:00+01:00",
        "1969-12-31T23:59:59.5Z",
    ];
    for x in texts.iter() {
        for y in texts.iter() {
            let dx = chrono::DateTime::parse_from_rfc3339(x).unwrap().to_utc();
            let dy = chrono::DateTime::parse_from_rfc3339(y).unwrap().to_utc();
            let tx = Timestamp::new(dx.timestamp(), dx.timestamp_subsec_nanos());
            let ty = Timestamp::new(dy.timestamp(), dy.timestamp_subsec_nanos());
            assert_eq!(tx.at_or_before(&ty), dx <= dy, "{} <= {}", x, y);
            assert_eq!(tx.at_or_after(&ty), dx >= dy, "{} >= {}", x, y);
        }
    }
}

#[test]
fn clone_of_an_event_is_equal_to_it() {
    let mut fields = serde_json::Map::new();
    fields.insert("n".to_string(), Value::Number(serde_json::Number::from(3)));
    fields.insert("list".to_string(), Value::Array(vec![Value::Bool(false), Value::Null]));
    let first = Event {
        id: u128::MAX,
        event_type: "login".to_string(),
        timestamp: Timestamp::new(1, 2),
        payload: Value::Object(fields),
    };
    let copy = first.clone();
    assert_eq!(copy, first);
    assert_eq!(copy.id, u128::MAX);
    assert_eq!(copy.event_type, "login");
    assert_eq!(copy.timestamp, Timestamp::new(1, 2));
    assert_eq!(copy.payload, first.payload);
}

#[test]
fn with_id_takes_over_every_field() {
    let submission = NewEvent {
        event_type: "signup".to_string(),
        timestamp: Timestamp::new(1_735_732_800, 250),
        payload: Value::String("verbatim".to_string()),
    };
    let stored = submission.with_id(42);
    assert_eq!(
        stored,
        Event {
            id: 42,
            event_type: "signup".to_string(),
            timestamp: Timestamp::new(1_735_732_800, 250),
            payload: Value::String("verbatim".to_string()),
        }
    );
}

#[test]
fn into_event_draws_a_random_version_four_id() {
    let make = || NewEvent {
        event_type: "signup".to_string(),
        timestamp: Timestamp::new(1_735_732_800, 0),
        payload: Value::Bool(true),
    };
    let a = make().into_event();
    let b = make().into_event();
    assert_ne!(a.id, b.id);
    assert_eq!(a.event_type, "signup");
    assert_eq!(a.timestamp, Timestamp::new(1_735_732_800, 0));
    assert_eq!(a.payload, Value::Bool(true));
    let as_uuid = uuid::Uuid::from_u128(a.id);
    assert_eq!(as_uuid.get_version_num(), 4);
    assert_eq!((a.id >> 76) & 0xf, 4);
    assert_eq!((a.id >> 62) & 0x3, 2);
    assert_eq!((b.id >> 76) & 0xf, 4);
    assert_eq!((b.id >> 62) & 0x3, 2);
    assert_eq!(as_uuid.as_u128(), a.id);
}

#[test]
fn default_query_has_no_clause_and_matches_everything() {
    let q = EventQuery::default();
    assert!(q.event_type.is_none());
    assert!(q.start.is_none());
    assert!(q.end.is_none());
    assert!(q.matches(&event("", i64::MIN, 0)));
    assert!(q.matches(&event("anything", i64::MAX, u32::MAX)));
}

#[test]
fn type_clause_is_an_exact_match() {
    let q = EventQuery { event_type: Some("login".to_string()), start: None, end: None };
    assert!(q.matches(&event("login", 0, 0)));
    assert!(!q.matches(&event("Login", 0, 0)));
    assert!(!q.matches(&event("login ", 0, 0)));
    assert!(!q.matches(&event("logi", 0, 0)));
    assert!(!q.matches(&event("", 0, 0)));
}

#[test]
fn bounds_are_inclusive_and_independent() {
    let q = EventQuery {
        event_type: None,
        start: Some(Timestamp::new(100, 5)),
        end: Some(Timestamp::new(200, 5)),
    };
    assert!(q.matches(&event("x", 100, 5)));
    assert!(q.matches(&event("x", 200, 5)));
    assert!(q.matches(&event("x", 150, 0)));
    assert!(!q.matches(&event("x", 100, 4)));
    assert!(!q.matches(&event("x", 200, 6)));
    assert!(!q.matches(&event("x", 99, 999_999_999)));
    assert!(!q.matches(&event("x", 201, 0)));

    let only_start = EventQuery { event_type: None, start: Some(Timestamp::new(100, 5)), end: None };
    assert!(only_start.matches(&event("x", i64::MAX, 0)));
    assert!(!only_start.matches(&event("x", 100, 4)));

    let only_end = EventQuery { event_type: None, start: None, end: Some(Timestamp::new(200, 5)) };
    assert!(only_end.matches(&event("x", i64::MIN, 0)));
    assert!(!only_end.matches(&event("x", 200, 6)));
}

#[test]
fn inverted_range_matches_no_event() {
    let q = EventQuery {
        event_type: None,
        start: Some(Timestamp::new(200, 0)),
        end: Some(Timestamp::new(100, 0)),
    };
    for secs in [0i64, 100, 150, 200, 300] {
        assert!(!q.matches(&event("x", secs, 0)));
    }
}

#[test]
fn all_clauses_must_hold_together() {
    let q = EventQuery {
        event_type: Some("login".to_string()),
        start: Some(Timestamp::new(100, 0)),
        end: Some(Timestamp::new(200, 0)),
    };
    assert!(q.matches(&event("login", 150, 0)));
    assert!(!q.matches(&event("logout", 150, 0)));
    assert!(!q.matches(&event("login", 50, 0)));
    assert!(!q.matches(&event("login", 250, 0)));
}
