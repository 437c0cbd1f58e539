//! The event record, the shape of a new submission and the query filter.

use vstd::prelude::*;

verus! {

/// An opaque JSON document. Its contents are never inspected here: payloads
/// are carried through and handed back as they came.
#[verifier::external_type_specification]
#[verifier::external_body]
pub struct ExJsonValue(serde_json::Value);

/// `Clone::clone` on `serde_json::Value` (a derived impl): the copy is the
/// same document as the one it was made from.
pub assume_specification[ <serde_json::Value as Clone>::clone ](
    value: &serde_json::Value,
) -> (copy: serde_json::Value)
    ensures
        copy == *value,
;

/// A point in time on the UTC scale: whole seconds since the Unix epoch and
/// the nanoseconds past that second. Instants are ordered by seconds first
/// and nanoseconds second, so a leap second (a nanosecond part of one
/// billion or more) sorts after every ordinary instant of the same second
/// and before the next second.
#[derive(Clone, Copy, Debug, PartialEq, Eq, Structural)]
pub struct Timestamp {
    pub secs: i64,
    pub nanos: u32,
}

impl Timestamp {
    /// `self` is not later than `other`.
    pub open spec fn spec_le(self, other: Timestamp) -> bool {
        self.secs < other.secs || (self.secs == other.secs && self.nanos <= other.nanos)
    }

    /// `self` is strictly earlier than `other`.
    pub open spec fn spec_lt(self, other: Timestamp) -> bool {
        self.secs < other.secs || (self.secs == other.secs && self.nanos < other.nanos)
    }

    pub fn new(secs: i64, nanos: u32) -> (t: Timestamp)
        ensures
            t.secs == secs,
            t.nanos == nanos,
    {
        Timestamp { secs, nanos }
    }

    /// Whether `self` is at or before `other`.
    pub fn at_or_before(&self, other: &Timestamp) -> (r: bool)
        ensures
            r == self.spec_le(*other),
    {
        self.secs < other.secs || (self.secs == other.secs && self.nanos <= other.nanos)
    }

    /// Whether `self` is at or after `other`.
    pub fn at_or_after(&self, other: &Timestamp) -> (r: bool)
        ensures
            r == other.spec_le(*self),
    {
        other.at_or_before(self)
    }
}

/// Of two instants one is not later than the other, and "strictly earlier"
/// is the opposite of "not earlier".
pub proof fn lemma_order_total(a: Timestamp, b: Timestamp)
    ensures
        a.spec_le(b) || b.spec_le(a),
        a.spec_lt(b) <==> !b.spec_le(a),
        a.spec_le(b) && b.spec_le(a) ==> a == b,
{
}

/// The order of instants is transitive.
pub proof fn lemma_order_transitive(a: Timestamp, b: Timestamp, c: Timestamp)
    requires
        a.spec_le(b),
        b.spec_le(c),
    ensures
        a.spec_le(c),
{
}

/// A stored event. Once built its fields are only ever read.
#[derive(Debug, PartialEq)]
pub struct Event {
    pub id: u128,
    pub event_type: String,
    pub timestamp: Timestamp,
    pub payload: serde_json::Value,
}

impl Clone for Event {
    fn clone(&self) -> (copy: Event)
        ensures
            copy == *self,
    {
        Event {
            id: self.id,
            event_type: self.event_type.clone(),
            timestamp: self.timestamp,
            payload: self.payload.clone(),
        }
    }
}

/// A submission that has not been given an identifier yet.
#[derive(Debug)]
pub struct NewEvent {
    pub event_type: String,
    pub timestamp: Timestamp,
    pub payload: serde_json::Value,
}

/// `id` has the marks of a random (version 4) UUID read as a number with
/// the first byte on top: the version digit is 4 and the two variant bits
/// are one and zero.
pub open spec fn is_version_four(id: u128) -> bool {
    (id >> 76) & 0xf == 4 && (id >> 62) & 0x3 == 2
}

/// `Uuid::new_v4`, read as a 128-bit number by `Uuid::as_u128`. The
/// identifier is drawn at random; all that is known of it are the version
/// and variant marks that the crate sets in every identifier it draws. The
/// call gives up only where the operating system has no random bytes to
/// give.
#[verifier::external_body]
fn fresh_id() -> (id: u128)
    ensures
        is_version_four(id),
{
    uuid::Uuid::new_v4().as_u128()
}

impl NewEvent {
    /// The submission as an event with the identifier `id`: type, time and
    /// payload are taken over as they are.
    pub open spec fn with_id_spec(self, id: u128) -> Event {
        Event {
            id,
            event_type: self.event_type,
            timestamp: self.timestamp,
            payload: self.payload,
        }
    }

    /// The event that carries this submission under the identifier `id`.
    pub fn with_id(self, id: u128) -> (event: Event)
        ensures
            event == self.with_id_spec(id),
    {
        Event {
            id,
            event_type: self.event_type,
            timestamp: self.timestamp,
            payload: self.payload,
        }
    }

    /// The event that carries this submission under a freshly drawn random
    /// identifier. Everything but the identifier is taken over unchanged.
    pub fn into_event(self) -> (event: Event)
        ensures
            event == self.with_id_spec(event.id),
            is_version_four(event.id),
    {
        let id: u128 = fresh_id();
        self.with_id(id)
    }
}

/// A filter over stored events. Every field is optional, and an absent
/// field constrains nothing. The two bounds are applied independently, so a
/// range whose start lies after its end matches no event.
#[derive(Debug)]
pub struct EventQuery {
    pub event_type: Option<String>,
    pub start: Option<Timestamp>,
    pub end: Option<Timestamp>,
}

impl Default for EventQuery {
    fn default() -> (q: EventQuery)
        ensures
            q.event_type is None,
            q.start is None,
            q.end is None,
    {
        EventQuery { event_type: None, start: None, end: None }
    }
}

impl EventQuery {
    /// The type clause: absent, or equal to the event's type.
    pub open spec fn type_ok(self, event: Event) -> bool {
        self.event_type matches Some(t) ==> event.event_type@ == t@
    }

    /// The lower bound, inclusive: absent, or not after the event's time.
    pub open spec fn start_ok(self, event: Event) -> bool {
        self.start matches Some(s) ==> s.spec_le(event.timestamp)
    }

    /// The upper bound, inclusive: absent, or not before the event's time.
    pub open spec fn end_ok(self, event: Event) -> bool {
        self.end matches Some(e) ==> event.timestamp.spec_le(e)
    }

    /// The filter as a predicate: the conjunction of the clauses present.
    pub open spec fn spec_matches(self, event: Event) -> bool {
        self.type_ok(event) && self.start_ok(event) && self.end_ok(event)
    }

    /// Whether `event` passes every clause that is present.
    pub fn matches(&self, event: &Event) -> (r: bool)
        ensures
            r == self.spec_matches(*event),
    {
        let type_ok = match &self.event_type {
            Some(t) => event.event_type == *t,
            None => true,
        };
        let start_ok = match &self.start {
            Some(s) => event.timestamp.at_or_after(s),
            None => true,
        };
        let end_ok = match &self.end {
            Some(e) => event.timestamp.at_or_before(e),
            None => true,
        };
        type_ok && start_ok && end_ok
    }
}

/// Both bounds of a range are inclusive: an event whose time is the start
/// or the end passes that bound, and an event strictly before the start or
/// strictly after the end does not pass the filter.
pub proof fn lemma_range_inclusive(query: EventQuery, event: Event)
    ensures
        query.start == Some(event.timestamp) ==> query.start_ok(event),
        query.end == Some(event.timestamp) ==> query.end_ok(event),
        query.start matches Some(s) && event.timestamp.spec_lt(s) ==> !query.spec_matches(event),
        query.end matches Some(e) && e.spec_lt(event.timestamp) ==> !query.spec_matches(event),
{
}

/// A filter with nothing but a range that holds the event's time, bounds
/// included, lets the event pass.
pub proof fn lemma_within_range_matches(start: Timestamp, end: Timestamp, event: Event)
    requires
        start.spec_le(event.timestamp),
        event.timestamp.spec_le(end),
    ensures
        (EventQuery { event_type: None, start: Some(start), end: Some(end) }).spec_matches(event),
{
}

/// A range whose start lies strictly after its end lets no event pass.
pub proof fn lemma_inverted_range_matches_nothing(query: EventQuery, event: Event)
    requires
        query.start is Some,
        query.end is Some,
        query.end->0.spec_lt(query.start->0),
    ensures
        !query.spec_matches(event),
{
}

/// A filter with nothing but a type lets exactly the events of that type
/// pass.
pub proof fn lemma_type_only_filter(wanted: String, event: Event)
    ensures
        (EventQuery { event_type: Some(wanted), start: None, end: None }).spec_matches(event)
            <==> event.event_type@ == wanted@,
{
}

/// A filter without any clause lets every event pass.
pub proof fn lemma_empty_filter_matches_all(query: EventQuery, event: Event)
    requires
        query.event_type is None,
        query.start is None,
        query.end is None,
    ensures
        query.spec_matches(event),
{
}

} // verus!
