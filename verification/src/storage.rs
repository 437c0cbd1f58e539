//! The event store: the table of events behind a reader/writer lock, so
//! that any number of readers or one writer work on it at a time.

use std::ops::{Deref, DerefMut};
use std::sync::atomic::AtomicUsize;
use std::sync::atomic::Ordering;
use std::sync::{LockResult, PoisonError, RwLock, RwLockReadGuard, RwLockWriteGuard};
use vstd::prelude::*;

use crate::error::AppError;
use crate::model::{Event, EventQuery};
use crate::table::{
    ids_of, is_selection, lemma_selection_matches, lookup, matching_ids, with_event, EventTable,
};

verus! {

/// `std::sync::RwLock`: what it guards is reached only through a guard.
#[verifier::external_type_specification]
#[verifier::external_body]
#[verifier::reject_recursive_types(T)]
pub struct ExRwLock<T: ?Sized>(RwLock<T>);

/// `std::sync::RwLockReadGuard`: shared access for as long as it lives.
#[verifier::external_type_specification]
#[verifier::external_body]
#[verifier::reject_recursive_types(T)]
pub struct ExRwLockReadGuard<'a, T: ?Sized>(RwLockReadGuard<'a, T>);

/// `std::sync::RwLockWriteGuard`: exclusive access for as long as it lives.
#[verifier::external_type_specification]
#[verifier::external_body]
#[verifier::reject_recursive_types(T)]
pub struct ExRwLockWriteGuard<'a, T: ?Sized + 'a>(RwLockWriteGuard<'a, T>);

/// `std::sync::PoisonError`: what a lock hands out in place of a guard once
/// a thread has panicked while it held the lock for writing.
#[verifier::external_type_specification]
#[verifier::external_body]
#[verifier::reject_recursive_types(T)]
pub struct ExPoisonError<T>(PoisonError<T>);

/// `RwLock::new`: a lock around its argument.
pub assume_specification<T>[ RwLock::<T>::new ](t: T) -> RwLock<T>;

/// `RwLock::read`: waits for shared access. On a poisoned lock the call
/// fails. Which of the two happens depends on the lock's history, so
/// nothing is promised of the result. A thread that asks again while it
/// holds the lock may wait for ever or panic; the store asks once in each
/// operation and lets go before the operation returns.
pub assume_specification<T: ?Sized>[ RwLock::<T>::read ](lock: &RwLock<T>) -> LockResult<
    RwLockReadGuard<'_, T>,
>;

/// `RwLock::write`: waits for exclusive access, and fails on a poisoned
/// lock as `read` does. The same holds of a thread that asks twice.
pub assume_specification<T: ?Sized>[ RwLock::<T>::write ](lock: &RwLock<T>) -> LockResult<
    RwLockWriteGuard<'_, T>,
>;

/// `Deref::deref` on a read guard: the table as it stands while the guard
/// is held.
#[verifier::external_body]
fn guarded<'a, 'b>(guard: &'a RwLockReadGuard<'b, EventTable>) -> &'a EventTable {
    guard.deref()
}

/// `DerefMut::deref_mut` on a write guard: the table, open to change while
/// the guard is held.
#[verifier::external_body]
fn guarded_mut<'a, 'b>(guard: &'a mut RwLockWriteGuard<'b, EventTable>) -> &'a mut EventTable {
    guard.deref_mut()
}

/// What a scan reports once the lock has answered: the selection from the
/// table that the lock gave, or the lock's failure as an internal error
/// with the failure's text.
pub fn query_outcome(held: Result<&EventTable, String>, query: &EventQuery) -> (r: Result<
    Vec<Event>,
    AppError,
>)
    ensures
        match held {
            Ok(table) => r matches Ok(events) && is_selection(events@, table@, *query)
                && events@.len() == matching_ids(table@, *query).len(),
            Err(reason) => r matches Err(AppError::InternalError(m)) && m == reason,
        },
{
    match held {
        Ok(table) => Ok(table.select(query)),
        Err(reason) => Err(AppError::InternalError(reason)),
    }
}

/// What a lookup reports once the lock has answered: the entry under `id`
/// in the table that the lock gave, or the lock's failure as an internal
/// error with the failure's text.
pub fn lookup_outcome(held: Result<&EventTable, String>, id: u128) -> (r: Result<
    Option<Event>,
    AppError,
>)
    ensures
        match held {
            Ok(table) => r == Ok::<Option<Event>, AppError>(lookup(table@, id)),
            Err(reason) => r matches Err(AppError::InternalError(m)) && m == reason,
        },
        r matches Ok(Some(event)) ==> event.id == id,
{
    match held {
        Ok(table) => Ok(table.get(id)),
        Err(reason) => Err(AppError::InternalError(reason)),
    }
}

/// What an insertion does once the lock has answered: it files `event` in
/// the table that the lock gave, or reports the lock's failure as an
/// internal error with the failure's text.
pub fn insert_outcome(held: Result<&mut EventTable, String>, event: Event) -> (r: Result<
    (),
    AppError,
>)
    ensures
        match held {
            Ok(table) => r is Ok && final(table)@ == with_event(table@, event),
            Err(reason) => r matches Err(AppError::InternalError(m)) && m == reason,
        },
{
    match held {
        Ok(table) => {
            table.insert(event);
            Ok(())
        },
        Err(reason) => Err(AppError::InternalError(reason)),
    }
}

/// What every backend of the tracker offers. A backend is shared between
/// request handlers, so each operation takes `&self` and reports an
/// unusable backend as `AppError::InternalError`.
pub trait EventStore: Send + Sync {
    /// Stores `event` under its identifier; an event stored earlier under
    /// the same identifier is replaced.
    fn add_event(&self, event: Event) -> (r: Result<(), AppError>)
        ensures
            r matches Err(e) ==> e is InternalError,
    ;

    /// The stored events that pass `query`, in no particular order.
    fn query_events(&self, query: EventQuery) -> (r: Result<Vec<Event>, AppError>)
        ensures
            match r {
                Ok(events) => ids_of(events@).no_duplicates() && forall|i: int|
                    0 <= i < events@.len() ==> query.spec_matches(#[trigger] events@[i]),
                Err(e) => e is InternalError,
            },
    ;

    /// The event stored under `id`, or `None` where there is none.
    fn get_by_id(&self, id: u128) -> (r: Result<Option<Event>, AppError>)
        ensures
            match r {
                Ok(Some(event)) => event.id == id,
                Ok(None) => true,
                Err(e) => e is InternalError,
            },
    ;
}

/// The store that keeps its events in memory, for the life of the process.
pub struct InMemoryEventStore {
    events: RwLock<EventTable>,
    count: AtomicUsize,
}

impl InMemoryEventStore {
    /// An empty store.
    #[must_use]
    pub fn new() -> Self {
        InMemoryEventStore { events: RwLock::new(EventTable::new()), count: AtomicUsize::new(0) }
    }

    /// How many insertions the store has taken so far. A replaced event
    /// counts again.
    pub fn metrics(&self) -> usize {
        self.count.load(Ordering::Relaxed)
    }
}

impl Default for InMemoryEventStore {
    fn default() -> Self {
        InMemoryEventStore::new()
    }
}

/// Each operation asks the lock once and hands its answer to the function
/// that says what the operation then reports: `insert_outcome`,
/// `query_outcome` or `lookup_outcome`. What the lock answers depends on
/// what other threads did before, so the operations themselves promise only
/// what holds of every answer.
impl EventStore for InMemoryEventStore {
    fn add_event(&self, event: Event) -> (r: Result<(), AppError>) {
        match self.events.write() {
            Err(poisoned) => insert_outcome(Err(poisoned.to_string()), event),
            Ok(mut guard) => {
                let r = insert_outcome(Ok(guarded_mut(&mut guard)), event);
                self.count.fetch_add(1, Ordering::Relaxed);
                r
            },
        }
    }

    fn query_events(&self, query: EventQuery) -> (r: Result<Vec<Event>, AppError>) {
        match self.events.read() {
            Err(poisoned) => query_outcome(Err(poisoned.to_string()), &query),
            Ok(guard) => {
                let table = guarded(&guard);
                let r = query_outcome(Ok(table), &query);
                proof {
                    lemma_selection_matches(r->Ok_0@, table@, query);
                }
                r
            },
        }
    }

    fn get_by_id(&self, id: u128) -> (r: Result<Option<Event>, AppError>) {
        match self.events.read() {
            Err(poisoned) => lookup_outcome(Err(poisoned.to_string()), id),
            Ok(guard) => lookup_outcome(Ok(guarded(&guard)), id),
        }
    }
}

} // verus!
