//! What each request of the tracker amounts to once it has been parsed:
//! the calls on the store and the outcome that is reported.

use vstd::prelude::*;
use vstd::string::StringExecFns;

use crate::error::AppError;
use crate::model::{is_version_four, Event, EventQuery, NewEvent};
use crate::storage::EventStore;
use crate::table::ids_of;

verus! {

/// The text of the identifier `id` as a UUID: 32 lower-case hexadecimal
/// digits in five groups, with hyphens between them.
pub uninterp spec fn uuid_text(id: u128) -> Seq<char>;

/// The outline of a hyphenated UUID: 36 characters, with a hyphen after
/// the eighth, the twelfth, the sixteenth and the twentieth digit.
pub open spec fn is_hyphenated(text: Seq<char>) -> bool {
    &&& text.len() == 36
    &&& text[8] == '-'
    &&& text[13] == '-'
    &&& text[18] == '-'
    &&& text[23] == '-'
}

/// `Uuid::from_u128` and then `to_string`, which goes through the crate's
/// `Display` impl for `Uuid`: the hyphenated lower-case form of `id`, which
/// the crate writes into 36 places with the hyphens at fixed ones.
#[verifier::external_body]
fn id_text(id: u128) -> (text: String)
    ensures
        text@ == uuid_text(id),
        is_hyphenated(text@),
{
    uuid::Uuid::from_u128(id).to_string()
}

/// The message that reports that nothing is stored under the identifier
/// whose text is `text`.
pub open spec fn not_found_text(text: Seq<char>) -> Seq<char> {
    "Event "@ + text + " not found"@
}

/// The message that reports that no event is stored under `id`.
pub open spec fn not_found_message(id: u128) -> Seq<char> {
    not_found_text(uuid_text(id))
}

/// The error that reports that nothing is stored under the identifier
/// whose text is `text`.
pub fn not_found(text: &str) -> (e: AppError)
    ensures
        e matches AppError::NotFound(m) && m@ == not_found_text(text@),
{
    AppError::NotFound(String::from_str("Event ").concat(text).concat(" not found"))
}

/// The outcome of a lookup by identifier: the event where one was found,
/// and `AppError::NotFound`, naming the identifier, where none was.
pub fn found_or_missing(id: u128, found: Option<Event>) -> (r: Result<Event, AppError>)
    ensures
        match found {
            Some(event) => r == Ok::<Event, AppError>(event),
            None => r matches Err(AppError::NotFound(m)) && m@ == not_found_message(id)
                && is_hyphenated(uuid_text(id)),
        },
{
    match found {
        Some(event) => Ok(event),
        None => Err(not_found(id_text(id).as_str())),
    }
}

/// What a lookup by identifier reports for each answer of the store: the
/// event that the store found, `AppError::NotFound` where it found none,
/// and the store's own error where it failed.
pub open spec fn is_lookup_report(
    id: u128,
    answer: Result<Option<Event>, AppError>,
    r: Result<Event, AppError>,
) -> bool {
    match answer {
        Ok(Some(event)) => r == Ok::<Event, AppError>(event),
        Ok(None) => r matches Err(AppError::NotFound(m)) && m@ == not_found_message(id),
        Err(e) => r == Err::<Event, AppError>(e),
    }
}

/// Turns the store's answer to a lookup under `id` into what is reported.
pub fn lookup_report(id: u128, answer: Result<Option<Event>, AppError>) -> (r: Result<
    Event,
    AppError,
>)
    ensures
        is_lookup_report(id, answer, r),
{
    match answer {
        Ok(found) => found_or_missing(id, found),
        Err(e) => Err(e),
    }
}

/// What a post reports for each answer of the store: the event where the
/// store took it, and the store's own error where it did not.
pub open spec fn post_report_of(event: Event, stored: Result<(), AppError>) -> Result<
    Event,
    AppError,
> {
    match stored {
        Ok(_) => Ok(event),
        Err(e) => Err(e),
    }
}

/// Turns the store's answer to the insertion of `event` into what is
/// reported.
pub fn post_report(event: Event, stored: Result<(), AppError>) -> (r: Result<Event, AppError>)
    ensures
        r == post_report_of(event, stored),
{
    match stored {
        Ok(()) => Ok(event),
        Err(e) => Err(e),
    }
}

/// Gives `submission` a fresh identifier, asks the store to take the event
/// and reports the event if the store took it, and the store's error,
/// unchanged, if it did not. Everything but the identifier is the
/// submission's.
pub fn post_event<S: EventStore + ?Sized>(store: &S, submission: NewEvent) -> (r: Result<
    Event,
    AppError,
>)
    ensures
        exists|event: Event, stored: Result<(), AppError>|
            event == submission.with_id_spec(event.id) && is_version_four(event.id)
                && #[trigger] call_ensures(S::add_event, (store, event), stored) && r
                == post_report_of(event, stored),
        match r {
            Ok(event) => event == submission.with_id_spec(event.id) && is_version_four(event.id),
            Err(e) => e is InternalError,
        },
{
    let event = submission.into_event();
    let stored = store.add_event(event.clone());
    let ghost asked = event;
    let ghost answer = stored;
    let r = post_report(event, stored);
    proof {
        assert(call_ensures(S::add_event, (store, asked), answer));
        assert(r == post_report_of(asked, answer));
    }
    r
}

/// The stored events that pass `query`: whatever the backend's own
/// `query_events` answers for this store and this query, handed on as it
/// is. Of every backend that is each matching event at most once, or an
/// internal error.
pub fn get_events<S: EventStore + ?Sized>(store: &S, query: EventQuery) -> (r: Result<
    Vec<Event>,
    AppError,
>)
    ensures
        call_ensures(S::query_events, (store, query), r),
        match r {
            Ok(events) => ids_of(events@).no_duplicates() && forall|i: int|
                0 <= i < events@.len() ==> query.spec_matches(#[trigger] events@[i]),
            Err(e) => e is InternalError,
        },
{
    store.query_events(query)
}

/// The event stored under `id`: the store is asked, and its answer is
/// reported as `lookup_report` says. That there is no such event is
/// `AppError::NotFound` with a message that names the identifier; an error
/// of the store comes back unchanged.
pub fn get_event_by_id<S: EventStore + ?Sized>(store: &S, id: u128) -> (r: Result<Event, AppError>)
    ensures
        exists|answer: Result<Option<Event>, AppError>| #[trigger]
            call_ensures(S::get_by_id, (store, id), answer) && is_lookup_report(id, answer, r),
        match r {
            Ok(event) => event.id == id,
            Err(AppError::NotFound(m)) => m@ == not_found_message(id),
            Err(e) => e is InternalError,
        },
{
    let answer = store.get_by_id(id);
    let ghost given = answer;
    let r = lookup_report(id, answer);
    proof {
        assert(call_ensures(S::get_by_id, (store, id), given));
        assert(is_lookup_report(id, given, r));
    }
    r
}

} // verus!
