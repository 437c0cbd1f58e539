//! The table of stored events: one entry per identifier, with insertion,
//! point lookup and a filtered scan. The table is a plain value; sharing it
//! between threads is the store's business.

use std::collections::HashMap;
use vstd::prelude::*;
use vstd::std_specs::hash::*;
use vstd::std_specs::iter::IteratorSpec;

use crate::model::{
    lemma_empty_filter_matches_all, lemma_inverted_range_matches_nothing, Event, EventQuery,
};

verus! {

/// Every entry is filed under its own event's identifier.
pub open spec fn keyed_by_id(events: Map<u128, Event>) -> bool {
    forall|id: u128| #[trigger] events.contains_key(id) ==> events[id].id == id
}

/// The entries after `event` has been filed: it takes the place of any
/// entry with its identifier, and every other entry stays.
pub open spec fn with_event(events: Map<u128, Event>, event: Event) -> Map<u128, Event> {
    events.insert(event.id, event)
}

/// The event filed under `id`, if there is one.
pub open spec fn lookup(events: Map<u128, Event>, id: u128) -> Option<Event> {
    if events.contains_key(id) {
        Some(events[id])
    } else {
        None
    }
}

/// The identifiers of the events in `events` that pass `query`.
pub open spec fn matching_ids(events: Map<u128, Event>, query: EventQuery) -> Set<u128> {
    Set::new(|id: u128| events.contains_key(id) && query.spec_matches(events[id]))
}

/// The identifiers of a list of events, in the list's order.
pub open spec fn ids_of(events: Seq<Event>) -> Seq<u128> {
    events.map_values(|e: Event| e.id)
}

/// What a scan of `events` under `query` may return: each matching event
/// exactly once, as it is stored, in any order.
pub open spec fn is_selection(
    result: Seq<Event>,
    events: Map<u128, Event>,
    query: EventQuery,
) -> bool {
    &&& ids_of(result).no_duplicates()
    &&& ids_of(result).to_set() == matching_ids(events, query)
    &&& forall|i: int|
        0 <= i < result.len() ==> events.contains_key(#[trigger] result[i].id)
            && events[result[i].id] == result[i]
}

/// Every event of a selection passes the query it was selected under.
pub proof fn lemma_selection_matches(
    result: Seq<Event>,
    events: Map<u128, Event>,
    query: EventQuery,
)
    requires
        is_selection(result, events, query),
    ensures
        forall|i: int| 0 <= i < result.len() ==> query.spec_matches(#[trigger] result[i]),
{
    assert forall|i: int| 0 <= i < result.len() implies query.spec_matches(
        #[trigger] result[i],
    ) by {
        assert(ids_of(result)[i] == result[i].id);
        assert(ids_of(result).to_set().contains(result[i].id));
    }
}

/// An event is part of a selection exactly if it is stored, under its own
/// identifier, and passes the query.
pub proof fn lemma_selection_exact(
    result: Seq<Event>,
    events: Map<u128, Event>,
    query: EventQuery,
    event: Event,
)
    requires
        is_selection(result, events, query),
    ensures
        result.contains(event) <==> lookup(events, event.id) == Some(event) && query.spec_matches(
            event,
        ),
{
    let ids = ids_of(result);
    if result.contains(event) {
        let i = choose|i: int| 0 <= i < result.len() && result[i] == event;
        assert(ids[i] == event.id);
        assert(ids.to_set().contains(event.id));
    }
    if lookup(events, event.id) == Some(event) && query.spec_matches(event) {
        assert(matching_ids(events, query).contains(event.id));
        assert(ids.to_set().contains(event.id));
        let i = choose|i: int| 0 <= i < ids.len() && ids[i] == event.id;
        assert(result[i].id == event.id);
        assert(result[i] == event);
    }
}

/// Two scans of the same entries under the same query return the same
/// events, whatever the order: neither holds an event that the other lacks,
/// and they are equally long.
pub proof fn lemma_selection_repeatable(
    first: Seq<Event>,
    second: Seq<Event>,
    events: Map<u128, Event>,
    query: EventQuery,
)
    requires
        is_selection(first, events, query),
        is_selection(second, events, query),
    ensures
        first.to_set() == second.to_set(),
        first.len() == second.len(),
{
    assert forall|e: Event| first.to_set().contains(e) <==> second.to_set().contains(e) by {
        lemma_selection_exact(first, events, query, e);
        lemma_selection_exact(second, events, query, e);
    }
    assert(first.to_set() =~= second.to_set());
    ids_of(first).unique_seq_to_set();
    ids_of(second).unique_seq_to_set();
}

/// A scan under a range whose start lies strictly after its end is empty.
pub proof fn lemma_inverted_range_selects_nothing(
    result: Seq<Event>,
    events: Map<u128, Event>,
    query: EventQuery,
)
    requires
        is_selection(result, events, query),
        query.start is Some,
        query.end is Some,
        query.end->0.spec_lt(query.start->0),
    ensures
        result.len() == 0,
{
    if result.len() > 0 {
        lemma_selection_matches(result, events, query);
        lemma_inverted_range_matches_nothing(query, result[0]);
    }
}

/// Filing an event leaves every entry under another identifier as it was,
/// and the event itself is what its identifier then finds.
pub proof fn lemma_insert_keeps_others(events: Map<u128, Event>, event: Event, id: u128)
    ensures
        lookup(with_event(events, event), event.id) == Some(event),
        id != event.id ==> lookup(with_event(events, event), id) == lookup(events, id),
        keyed_by_id(events) ==> keyed_by_id(with_event(events, event)),
{
}

/// Identifiers determine content: of two events with different identifiers
/// filed one after the other, each identifier finds its own event and never
/// the other.
pub proof fn lemma_ids_determine_content(events: Map<u128, Event>, a: Event, b: Event)
    requires
        a.id != b.id,
    ensures
        lookup(with_event(with_event(events, a), b), a.id) == Some(a),
        lookup(with_event(with_event(events, a), b), b.id) == Some(b),
        lookup(with_event(with_event(events, a), b), a.id) != Some(b),
{
}

/// The order in which two events with different identifiers are filed makes
/// no difference to the entries, and so none to any scan of them.
pub proof fn lemma_insertion_order_is_irrelevant(events: Map<u128, Event>, a: Event, b: Event)
    requires
        a.id != b.id,
    ensures
        with_event(with_event(events, a), b) == with_event(with_event(events, b), a),
{
    assert(with_event(with_event(events, a), b) =~= with_event(with_event(events, b), a));
}

/// Filing an event that does not pass the query, under an identifier that
/// no passing event holds, changes nothing for a scan under that query:
/// what was a selection before is one after.
pub proof fn lemma_unrelated_insert_keeps_selection(
    result: Seq<Event>,
    events: Map<u128, Event>,
    query: EventQuery,
    other: Event,
)
    requires
        is_selection(result, events, query),
        !query.spec_matches(other),
        !matching_ids(events, query).contains(other.id),
    ensures
        matching_ids(with_event(events, other), query) == matching_ids(events, query),
        is_selection(result, with_event(events, other), query),
{
    let after = with_event(events, other);
    assert(matching_ids(after, query) =~= matching_ids(events, query));
    assert forall|i: int| 0 <= i < result.len() implies after.contains_key(
        #[trigger] result[i].id,
    ) && after[result[i].id] == result[i] by {
        assert(ids_of(result)[i] == result[i].id);
        assert(ids_of(result).to_set().contains(result[i].id));
    }
}

/// The entries after each event of `added` has been filed in turn.
pub open spec fn with_events(events: Map<u128, Event>, added: Seq<Event>) -> Map<u128, Event>
    decreases added.len(),
{
    if added.len() == 0 {
        events
    } else {
        with_event(with_events(events, added.drop_last()), added.last())
    }
}

/// Filing events with pairwise different identifiers into an empty table
/// loses none and doubles none: the table then holds exactly these events,
/// each under its identifier.
pub proof fn lemma_distinct_inserts_all_kept(added: Seq<Event>)
    requires
        ids_of(added).no_duplicates(),
    ensures
        keyed_by_id(with_events(Map::empty(), added)),
        with_events(Map::empty(), added).dom() == ids_of(added).to_set(),
        with_events(Map::empty(), added).dom().finite(),
        with_events(Map::empty(), added).len() == added.len(),
        forall|i: int|
            0 <= i < added.len() ==> lookup(
                with_events(Map::empty(), added),
                (#[trigger] added[i]).id,
            ) == Some(added[i]),
    decreases added.len(),
{
    let table = with_events(Map::empty(), added);
    if added.len() == 0 {
        assert(table.dom() =~= ids_of(added).to_set());
    } else {
        let front = added.drop_last();
        let last = added.last();
        let before = with_events(Map::empty(), front);
        assert(ids_of(front) =~= ids_of(added).drop_last());
        assert forall|i: int, j: int|
            0 <= i < ids_of(front).len() && 0 <= j < ids_of(front).len() && i
                != j implies ids_of(front)[i] != ids_of(front)[j] by {
            assert(ids_of(added)[i] != ids_of(added)[j]);
        }
        lemma_distinct_inserts_all_kept(front);
        assert(!before.dom().contains(last.id)) by {
            if ids_of(front).to_set().contains(last.id) {
                let k = choose|k: int| 0 <= k < ids_of(front).len() && ids_of(front)[k] == last.id;
                assert(ids_of(added)[k] == ids_of(added)[added.len() - 1]);
            }
        }
        assert(table.dom() =~= ids_of(added).to_set()) by {
            assert forall|id: u128| table.dom().contains(id) <==> ids_of(added).to_set().contains(
                id,
            ) by {
                if ids_of(added).to_set().contains(id) {
                    let k = choose|k: int| 0 <= k < ids_of(added).len() && ids_of(added)[k] == id;
                    if k < front.len() {
                        assert(ids_of(front)[k] == id);
                        assert(ids_of(front).to_set().contains(id));
                    }
                }
                if before.dom().contains(id) {
                    let k = choose|k: int| 0 <= k < ids_of(front).len() && ids_of(front)[k] == id;
                    assert(ids_of(added)[k] == id);
                }
                if id == last.id {
                    assert(ids_of(added)[added.len() - 1] == id);
                }
            }
        }
        assert forall|i: int| 0 <= i < added.len() implies lookup(table, (#[trigger] added[i]).id)
            == Some(added[i]) by {
            if i < front.len() {
                assert(front[i] == added[i]);
                assert(ids_of(added)[i] != ids_of(added)[added.len() - 1]);
            }
        }
    }
}

/// After events with pairwise different identifiers have been filed into
/// an empty table, a scan under a filter without any clause returns as many
/// events as were filed, and each of them.
pub proof fn lemma_scan_after_distinct_inserts(
    added: Seq<Event>,
    result: Seq<Event>,
    query: EventQuery,
)
    requires
        ids_of(added).no_duplicates(),
        query.event_type is None,
        query.start is None,
        query.end is None,
        is_selection(result, with_events(Map::empty(), added), query),
    ensures
        result.len() == added.len(),
        result.to_set() == added.to_set(),
{
    let table = with_events(Map::empty(), added);
    lemma_distinct_inserts_all_kept(added);
    assert(matching_ids(table, query) =~= table.dom()) by {
        assert forall|id: u128| table.dom().contains(id) implies matching_ids(
            table,
            query,
        ).contains(id) by {
            lemma_empty_filter_matches_all(query, table[id]);
        }
    }
    ids_of(result).unique_seq_to_set();
    assert forall|e: Event| result.to_set().contains(e) <==> added.to_set().contains(e) by {
        lemma_selection_exact(result, table, query, e);
        lemma_empty_filter_matches_all(query, e);
        if added.contains(e) {
            let i = choose|i: int| 0 <= i < added.len() && added[i] == e;
            assert(lookup(table, added[i].id) == Some(added[i]));
        }
        if lookup(table, e.id) == Some(e) {
            assert(ids_of(added).to_set().contains(e.id));
            let i = choose|i: int| 0 <= i < ids_of(added).len() && ids_of(added)[i] == e.id;
            assert(lookup(table, added[i].id) == Some(added[i]));
        }
    }
    assert(result.to_set() =~= added.to_set());
}

/// The stored events, each filed under its identifier.
pub struct EventTable {
    events: HashMap<u128, Event>,
}

impl View for EventTable {
    type V = Map<u128, Event>;

    closed spec fn view(&self) -> Map<u128, Event> {
        self.events@
    }
}

impl EventTable {
    #[verifier::type_invariant]
    spec fn wf(self) -> bool {
        keyed_by_id(self.events@)
    }

    /// An empty table.
    pub fn new() -> (table: EventTable)
        ensures
            table@ == Map::<u128, Event>::empty(),
            table@.dom().finite(),
            keyed_by_id(table@),
    {
        EventTable { events: HashMap::new() }
    }

    /// Files `event` under its identifier. An entry already filed under
    /// that identifier is replaced; every other entry stays as it was.
    pub fn insert(&mut self, event: Event)
        ensures
            final(self)@ == with_event(old(self)@, event),
            old(self)@.dom().finite(),
            final(self)@.dom().finite(),
            keyed_by_id(final(self)@),
    {
        proof {
            use_type_invariant(&*self);
        }
        broadcast use group_hash_axioms;
        let id: u128 = event.id;
        let mut taken = EventTable::new();
        std::mem::swap(self, &mut taken);
        let mut events = taken.events;
        events.insert(id, event);
        *self = EventTable { events };
    }

    /// The number of entries.
    pub fn len(&self) -> (n: usize)
        ensures
            n == self@.len(),
            self@.dom().finite(),
    {
        broadcast use group_hash_axioms;
        self.events.len()
    }

    /// A copy of the event filed under `id`, if there is one.
    pub fn get(&self, id: u128) -> (found: Option<Event>)
        ensures
            found == lookup(self@, id),
            found matches Some(event) ==> event.id == id,
    {
        proof {
            use_type_invariant(self);
        }
        broadcast use group_hash_axioms;
        match self.events.get(&id) {
            Some(event) => Some(event.clone()),
            None => None,
        }
    }
}

impl EventTable {
    /// The events that pass `query`: each of them once, as stored. The
    /// order in which they come is not fixed.
    pub fn select(&self, query: &EventQuery) -> (result: Vec<Event>)
        ensures
            is_selection(result@, self@, *query),
            result@.len() == matching_ids(self@, *query).len(),
    {
        proof {
            use_type_invariant(self);
        }
        broadcast use group_hash_axioms;
        let keys = self.events.keys();
        let ghost walk: Seq<u128> = keys.remaining().unref();
        assert(walk.no_duplicates());
        assert(walk.to_set() == self.events@.dom());
        let mut result: Vec<Event> = Vec::new();
        let ghost mut origin: Seq<int> = Seq::empty();
        for key in it: keys
            invariant
                it.seq().unref() == walk,
                walk.no_duplicates(),
                walk.to_set() == self.events@.dom(),
                keyed_by_id(self.events@),
                origin.len() == result@.len(),
                ids_of(result@).no_duplicates(),
                forall|i: int|
                    0 <= i < result@.len() ==> 0 <= #[trigger] origin[i] < it.index()
                        && walk[origin[i]] == result@[i].id,
                forall|i: int|
                    0 <= i < result@.len() ==> self.events@.contains_key(#[trigger] result@[i].id)
                        && self.events@[result@[i].id] == result@[i] && query.spec_matches(
                        result@[i],
                    ),
                forall|j: int|
                    0 <= j < it.index() && query.spec_matches(self.events@[#[trigger] walk[j]])
                        ==> ids_of(result@).contains(walk[j]),
        {
            let ghost at = it.index();
            let ghost before = result@;
            assert(walk[at] == *key);
            assert(walk.to_set().contains(walk[at]));
            match self.events.get(key) {
                Some(event) => {
                    if query.matches(event) {
                        result.push(event.clone());
                        proof {
                            origin = origin.push(at);
                            let after = result@;
                            assert(after == before.push(*event));
                            assert(ids_of(after) =~= ids_of(before).push(event.id));
                            assert(event.id == walk[at]);
                            assert forall|a: int, b: int|
                                0 <= a < ids_of(after).len() && 0 <= b < ids_of(after).len() && a
                                    != b implies ids_of(after)[a] != ids_of(after)[b] by {
                                if a < before.len() && b < before.len() {
                                    assert(ids_of(before)[a] != ids_of(before)[b]);
                                } else if a < before.len() {
                                    assert(walk[origin[a]] == before[a].id);
                                } else {
                                    assert(walk[origin[b]] == before[b].id);
                                }
                            }
                            assert forall|j: int|
                                0 <= j < at + 1 && query.spec_matches(
                                    self.events@[#[trigger] walk[j]],
                                ) implies ids_of(after).contains(walk[j]) by {
                                if j < at {
                                    let k = choose|k: int|
                                        0 <= k < ids_of(before).len() && ids_of(before)[k]
                                            == walk[j];
                                    assert(ids_of(after)[k] == walk[j]);
                                } else {
                                    assert(ids_of(after)[before.len() as int] == walk[j]);
                                }
                            }
                        }
                    }
                },
                None => {},
            }
        }
        proof {
            let ids = ids_of(result@);
            assert forall|id: u128| ids.to_set().contains(id) implies matching_ids(
                self@,
                *query,
            ).contains(id) by {
                let i = choose|i: int| 0 <= i < ids.len() && ids[i] == id;
                assert(result@[i].id == id);
            }
            assert forall|id: u128| matching_ids(self@, *query).contains(id) implies ids.to_set()
                .contains(id) by {
                assert(walk.to_set().contains(id));
                let j = choose|j: int| 0 <= j < walk.len() && walk[j] == id;
                assert(ids.contains(walk[j]));
            }
            assert(ids.to_set() =~= matching_ids(self@, *query));
            ids.unique_seq_to_set();
        }
        result
    }
}

} // verus!
