//! The calendar service: validate, then exactly one operation on the events
//! collection; a date-range query over interval overlap; and the decision
//! rules around the outbound Google Calendar sync call.

use vstd::prelude::*;
use vstd::pervasive::VecAdditionalExecFns;
use vstd::string::StringExecFns;
use crate::calendar::{
    event_field_errors, event_like, event_valid, CalendarEvent, GoogleCalendarCredentials,
    GoogleCalendarToken,
};
use crate::http::ErrorResponse;
use crate::oid::{oid_error_text, oid_of_str, valid_oid_str, ObjectId, OidError, OBJECT_ID_LIMIT};
use crate::validation::{rendered_errors, ValidationErrors};

verus! {

/// Why a calendar operation failed, in the order the service checks; the
/// last two variants report the outbound Google Calendar call.
#[derive(Debug)]
pub enum CalendarServiceError {
    DatabaseError(String),
    InvalidObjectId(OidError),
    EventNotFound,
    ValidationError(ValidationErrors),
    GoogleApiError(String),
    AuthError(String),
}

/// Some record in `s` carries the identifier `oid`.
pub open spec fn event_with_id_exists(s: Seq<CalendarEvent>, oid: ObjectId) -> bool {
    exists|i: int| 0 <= i < s.len() && (#[trigger] s[i].id) == Some(oid)
}

/// Identifiers are pairwise distinct.
pub open spec fn event_ids_unique(s: Seq<CalendarEvent>) -> bool {
    forall|i: int, j: int| 0 <= i < j < s.len() ==> (#[trigger] s[i].id) != (#[trigger] s[j].id)
}

/// The record a successful create appends: the payload's fields, a fresh
/// identifier, and both timestamps set to the clock value.
pub open spec fn event_created(e: CalendarEvent, payload: CalendarEvent, id: u128, now: int) -> bool {
    &&& e.id == Some(ObjectId { value: id })
    &&& e.title == payload.title
    &&& e.description == payload.description
    &&& e.start_time == payload.start_time
    &&& e.end_time == payload.end_time
    &&& e.location == payload.location
    &&& e.is_all_day == payload.is_all_day
    &&& e.recurrence_rule == payload.recurrence_rule
    &&& e.attendees == payload.attendees
    &&& e.color == payload.color
    &&& e.created_at == now
    &&& e.updated_at == now
}

/// The record a successful update leaves: every writable field from the
/// payload, a fresh update stamp, and the identifier and creation stamp
/// kept.
pub open spec fn event_patched(
    e: CalendarEvent,
    prev: CalendarEvent,
    payload: CalendarEvent,
    now: int,
) -> bool {
    &&& e.id == prev.id
    &&& e.created_at == prev.created_at
    &&& e.title == payload.title
    &&& e.description == payload.description
    &&& e.start_time == payload.start_time
    &&& e.end_time == payload.end_time
    &&& e.location == payload.location
    &&& e.is_all_day == payload.is_all_day
    &&& e.recurrence_rule == payload.recurrence_rule
    &&& e.attendees == payload.attendees
    &&& e.color == payload.color
    &&& e.updated_at == now
}

/// The event's interval `[start_time, end_time]` intersects `[start, end]`:
/// it starts inside the range, ends inside it, or contains it whole.
pub open spec fn event_overlaps(e: CalendarEvent, start: int, end: int) -> bool {
    ||| start <= e.start_time <= end
    ||| start <= e.end_time <= end
    ||| e.start_time <= start && e.end_time >= end
}

/// The subsequence of events whose intervals intersect `[start, end]`, in
/// storage order.
pub open spec fn events_in_range(s: Seq<CalendarEvent>, start: int, end: int) -> Seq<CalendarEvent>
    decreases s.len(),
{
    if s.len() == 0 {
        Seq::empty()
    } else {
        let prev = events_in_range(s.drop_last(), start, end);
        if event_overlaps(s.last(), start, end) {
            prev.push(s.last())
        } else {
            prev
        }
    }
}

/// The events collection: records in storage order, plus the next identifier
/// value to assign.
pub struct CalendarStore {
    events: Vec<CalendarEvent>,
    next_id: u128,
}

impl View for CalendarStore {
    type V = Seq<CalendarEvent>;

    closed spec fn view(&self) -> Seq<CalendarEvent> {
        self.events@
    }
}

impl CalendarStore {
    /// The identifier value the next successful insert will use.
    pub closed spec fn id_counter(&self) -> u128 {
        self.next_id
    }

    /// Every 12-byte identifier value has been handed out already.
    pub open spec fn exhausted(&self) -> bool {
        self.id_counter() == OBJECT_ID_LIMIT
    }

    /// Every record carries an identifier below the counter, and identifiers
    /// are pairwise distinct.
    pub closed spec fn wf(&self) -> bool {
        &&& self.next_id <= OBJECT_ID_LIMIT
        &&& forall|i: int|
            0 <= i < self.events@.len() ==> ((#[trigger] self.events@[i].id) matches Some(o)
                && o.value < self.next_id)
        &&& event_ids_unique(self.events@)
    }

    /// An empty collection.
    pub fn new() -> (r: CalendarStore)
        ensures
            r.wf(),
            r@ == Seq::<CalendarEvent>::empty(),
            r.id_counter() == 0,
    {
        CalendarStore { events: Vec::new(), next_id: 0 }
    }

    /// In a well-formed store every record has a distinct, well-formed
    /// identifier.
    pub proof fn lemma_wf_ids(&self)
        requires
            self.wf(),
        ensures
            forall|i: int|
                0 <= i < self@.len() ==> (#[trigger] self@[i].id) is Some
                    && self@[i].id->0.is_valid(),
            event_ids_unique(self@),
    {
    }
}

/// Returns every stored event, in storage order.
pub fn get_all_events(store: &CalendarStore) -> (r: Result<Vec<CalendarEvent>, CalendarServiceError>)
    ensures
        r matches Ok(v) && v@.len() == store@.len() && (forall|i: int|
            0 <= i < store@.len() ==> event_like(#[trigger] v@[i], store@[i])),
{
    let mut out: Vec<CalendarEvent> = Vec::new();
    let mut i: usize = 0;
    while i < store.events.len()
        invariant
            i <= store.events@.len(),
            out@.len() == i,
            forall|j: int| 0 <= j < i ==> event_like(#[trigger] out@[j], store.events@[j]),
        decreases store.events@.len() - i,
    {
        out.push(store.events[i].duplicate());
        i += 1;
    }
    Ok(out)
}

/// Returns the events whose interval intersects `[start_date, end_date]`,
/// in storage order.
pub fn get_events_by_date_range(store: &CalendarStore, start_date: i64, end_date: i64) -> (r: Result<
    Vec<CalendarEvent>,
    CalendarServiceError,
>)
    ensures
        r matches Ok(v) && {
            let picked = events_in_range(store@, start_date as int, end_date as int);
            v@.len() == picked.len() && (forall|i: int|
                0 <= i < picked.len() ==> event_like(#[trigger] v@[i], picked[i]))
        },
{
    let mut out: Vec<CalendarEvent> = Vec::new();
    let mut i: usize = 0;
    while i < store.events.len()
        invariant
            i <= store.events@.len(),
            ({
                let picked = events_in_range(
                    store.events@.take(i as int),
                    start_date as int,
                    end_date as int,
                );
                out@.len() == picked.len() && (forall|j: int|
                    0 <= j < picked.len() ==> event_like(#[trigger] out@[j], picked[j]))
            }),
        decreases store.events@.len() - i,
    {
        let e = &store.events[i];
        let overlaps = (e.start_time >= start_date && e.start_time <= end_date) || (e.end_time
            >= start_date && e.end_time <= end_date) || (e.start_time <= start_date && e.end_time
            >= end_date);
        if overlaps {
            out.push(e.duplicate());
        }
        proof {
            assert(store.events@.take(i + 1).drop_last() =~= store.events@.take(i as int));
            assert(store.events@.take(i + 1).last() == store.events@[i as int]);
        }
        i += 1;
    }
    proof {
        assert(store.events@.take(store.events@.len() as int) =~= store.events@);
    }
    Ok(out)
}

/// Validates the payload, then inserts it as a new record with a fresh
/// identifier and both timestamps set to the clock value. A payload that
/// breaks a rule is rejected with the failures indexed by field, and the
/// store is left unchanged.
pub fn add_event(store: &mut CalendarStore, event: CalendarEvent, now_millis: i64) -> (r: Result<
    (),
    CalendarServiceError,
>)
    requires
        old(store).wf(),
    ensures
        final(store).wf(),
        match r {
            Ok(()) => event_valid(event) && !old(store).exhausted() && final(store)@ == old(store)@.push(final(store)@.last()) && event_created(
                final(store)@.last(),
                event,
                old(store).id_counter(),
                now_millis as int,
            ) && final(store).id_counter() == old(store).id_counter() + 1,
            Err(CalendarServiceError::ValidationError(ve)) => !event_valid(event) && final(store)@
                == old(store)@ && ve@ == event_field_errors(event),
            Err(CalendarServiceError::DatabaseError(_)) => event_valid(event) && old(store).exhausted() && final(store)@ == old(store)@,
            _ => false,
        },
{
    let ve = event.validation_errors();
    if !ve.is_empty() {
        return Err(CalendarServiceError::ValidationError(ve));
    }
    if store.next_id == OBJECT_ID_LIMIT {
        return Err(
            CalendarServiceError::DatabaseError(String::from_str("identifier space exhausted")),
        );
    }
    let id = ObjectId { value: store.next_id };
    store.next_id = store.next_id + 1;
    let record = CalendarEvent {
        id: Some(id),
        title: event.title,
        description: event.description,
        start_time: event.start_time,
        end_time: event.end_time,
        location: event.location,
        is_all_day: event.is_all_day,
        recurrence_rule: event.recurrence_rule,
        attendees: event.attendees,
        color: event.color,
        created_at: now_millis,
        updated_at: now_millis,
    };
    store.events.push(record);
    proof {
        assert forall|a: int, b: int| 0 <= a < b < store.events@.len() implies (
        #[trigger] store.events@[a].id) != (#[trigger] store.events@[b].id) by {
            if b < store.events@.len() - 1 {
                assert(old(store).events@[a].id != old(store).events@[b].id);
            }
        }
        assert(store.wf());
    }
    Ok(())
}

/// Validates the payload, parses the id, and replaces the writable fields of
/// the record that carries the id. Reports, in this order: a validation
/// failure (the failures indexed by field), a malformed id, or a missing
/// record — each leaving the store unchanged.
pub fn update_event(
    store: &mut CalendarStore,
    event_id: &str,
    updated_event: CalendarEvent,
    now_millis: i64,
) -> (r: Result<(), CalendarServiceError>)
    requires
        old(store).wf(),
    ensures
        final(store).wf(),
        match r {
            Ok(()) => event_valid(updated_event) && valid_oid_str(event_id@) && (exists|i: int|
                0 <= i < old(store)@.len() && (#[trigger] old(store)@[i].id) == Some(
                    oid_of_str(event_id@),
                ) && final(store)@ == old(store)@.update(i, final(store)@[i]) && event_patched(
                    final(store)@[i],
                    old(store)@[i],
                    updated_event,
                    now_millis as int,
                )),
            Err(CalendarServiceError::ValidationError(ve)) => !event_valid(updated_event) && final(store)@ == old(store)@ && ve@ == event_field_errors(updated_event),
            Err(CalendarServiceError::InvalidObjectId(_)) => event_valid(updated_event)
                && !valid_oid_str(event_id@) && final(store)@ == old(store)@,
            Err(CalendarServiceError::EventNotFound) => event_valid(updated_event) && valid_oid_str(
                event_id@,
            ) && !event_with_id_exists(old(store)@, oid_of_str(event_id@)) && final(store)@ == old(store)@,
            _ => false,
        },
{
    let ve = updated_event.validation_errors();
    if !ve.is_empty() {
        return Err(CalendarServiceError::ValidationError(ve));
    }
    let object_id = match ObjectId::parse_str(event_id) {
        Ok(oid) => oid,
        Err(e) => {
            return Err(CalendarServiceError::InvalidObjectId(e));
        },
    };
    let n = store.events.len();
    let mut i: usize = 0;
    while i < n
        invariant
            *store == *old(store),
            n == store.events@.len(),
            i <= n,
            forall|j: int| 0 <= j < i ==> (#[trigger] store.events@[j].id) != Some(object_id),
        decreases n - i,
    {
        let hit = match &store.events[i].id {
            Some(o) => *o == object_id,
            None => false,
        };
        if hit {
            let prev_id = store.events[i].id;
            let prev_created = store.events[i].created_at;
            let record = CalendarEvent {
                id: prev_id,
                title: updated_event.title,
                description: updated_event.description,
                start_time: updated_event.start_time,
                end_time: updated_event.end_time,
                location: updated_event.location,
                is_all_day: updated_event.is_all_day,
                recurrence_rule: updated_event.recurrence_rule,
                attendees: updated_event.attendees,
                color: updated_event.color,
                created_at: prev_created,
                updated_at: now_millis,
            };
            store.events.set(i, record);
            proof {
                assert forall|a: int|
                    0 <= a < store.events@.len() implies (#[trigger] store.events@[a].id) == old(store).events@[a].id by {}
                assert forall|a: int, b: int| 0 <= a < b < store.events@.len() implies (
                #[trigger] store.events@[a].id) != (#[trigger] store.events@[b].id) by {
                    assert(old(store).events@[a].id != old(store).events@[b].id);
                }
                assert(store.wf());
                assert(old(store)@[i as int].id == Some(oid_of_str(event_id@)));
                assert(store@ == old(store)@.update(i as int, store@[i as int]));
            }
            return Ok(());
        }
        i += 1;
    }
    Err(CalendarServiceError::EventNotFound)
}

/// Parses the id and removes the record that carries it; later records move
/// up one place. A malformed id or a missing record leaves the store
/// unchanged.
pub fn remove_event(store: &mut CalendarStore, event_id: &str) -> (r: Result<
    (),
    CalendarServiceError,
>)
    requires
        old(store).wf(),
    ensures
        final(store).wf(),
        match r {
            Ok(()) => valid_oid_str(event_id@) && (exists|i: int|
                0 <= i < old(store)@.len() && (#[trigger] old(store)@[i].id) == Some(
                    oid_of_str(event_id@),
                ) && final(store)@ == old(store)@.remove(i)),
            Err(CalendarServiceError::InvalidObjectId(_)) => !valid_oid_str(event_id@) && final(store)@ == old(store)@,
            Err(CalendarServiceError::EventNotFound) => valid_oid_str(event_id@)
                && !event_with_id_exists(old(store)@, oid_of_str(event_id@)) && final(store)@
                == old(store)@,
            _ => false,
        },
{
    let object_id = match ObjectId::parse_str(event_id) {
        Ok(oid) => oid,
        Err(e) => {
            return Err(CalendarServiceError::InvalidObjectId(e));
        },
    };
    let n = store.events.len();
    let mut i: usize = 0;
    while i < n
        invariant
            *store == *old(store),
            n == store.events@.len(),
            i <= n,
            forall|j: int| 0 <= j < i ==> (#[trigger] store.events@[j].id) != Some(object_id),
        decreases n - i,
    {
        let hit = match &store.events[i].id {
            Some(o) => *o == object_id,
            None => false,
        };
        if hit {
            proof {
                old(store).events@.remove_ensures(i as int);
            }
            store.events.remove(i);
            proof {
                assert forall|a: int, b: int| 0 <= a < b < store.events@.len() implies (
                #[trigger] store.events@[a].id) != (#[trigger] store.events@[b].id) by {
                    let a0: int = if a < i {
                        a
                    } else {
                        a + 1
                    };
                    let b0: int = if b < i {
                        b
                    } else {
                        b + 1
                    };
                    assert(store.events@[a] == old(store).events@[a0]);
                    assert(store.events@[b] == old(store).events@[b0]);
                    assert(old(store).events@[a0].id != old(store).events@[b0].id);
                }
                assert forall|a: int|
                    0 <= a < store.events@.len() implies ((#[trigger] store.events@[a].id) matches Some(
                    o,
                ) && o.value < store.next_id) by {
                    let a0: int = if a < i {
                        a
                    } else {
                        a + 1
                    };
                    assert(store.events@[a] == old(store).events@[a0]);
                }
                assert(store.wf());
                assert(old(store)@[i as int].id == Some(oid_of_str(event_id@)));
                assert(store@ == old(store)@.remove(i as int));
            }
            return Ok(());
        }
        i += 1;
    }
    Err(CalendarServiceError::EventNotFound)
}

/// Creating from a valid payload then listing yields exactly the records
/// already stored followed by one new record whose payload fields equal the
/// payload's.
pub proof fn lemma_create_then_list_adds_one_event(
    s: Seq<CalendarEvent>,
    e2: CalendarEvent,
    payload: CalendarEvent,
    id: u128,
    now: int,
)
    requires
        event_valid(payload),
        event_created(e2, payload, id, now),
    ensures
        s.push(e2).len() == s.len() + 1,
        s.push(e2).subrange(0, s.len() as int) == s,
        s.push(e2).last().title == payload.title,
        s.push(e2).last().description == payload.description,
        s.push(e2).last().start_time == payload.start_time,
        s.push(e2).last().end_time == payload.end_time,
        s.push(e2).last().attendees == payload.attendees,
{
    assert(s.push(e2).subrange(0, s.len() as int) =~= s);
}

/// After a record is deleted, no record carries its identifier: a second
/// delete of the same id reports the record missing instead of failing.
pub proof fn lemma_remove_event_is_idempotent(s: Seq<CalendarEvent>, i: int, oid: ObjectId)
    requires
        event_ids_unique(s),
        0 <= i < s.len(),
        s[i].id == Some(oid),
    ensures
        !event_with_id_exists(s.remove(i), oid),
{
    s.remove_ensures(i);
    assert forall|j: int| 0 <= j < s.remove(i).len() implies (#[trigger] s.remove(i)[j].id)
        != Some(oid) by {
        if j < i {
            assert(s.remove(i)[j] == s[j]);
        } else {
            assert(s.remove(i)[j] == s[j + 1]);
        }
    }
}

/// What came back from the outbound Google Calendar call: the send itself
/// failed, or the server answered with a success flag and a status line.
#[derive(Debug)]
pub enum GoogleSyncOutcome {
    SendFailed(String),
    Responded(bool, String),
}

/// The request a sync makes: the events URL of the primary calendar and the
/// bearer authorization header built from the token. The credentials play no
/// part in the request itself.
pub fn google_sync_request(_credentials: &GoogleCalendarCredentials, token: &GoogleCalendarToken) -> (r: (
    String,
    String,
))
    ensures
        r.0@ == "https://www.googleapis.com/calendar/v3/calendars/primary/events"@,
        r.1@ == "Bearer "@ + token.access_token@,
{
    let url = String::from_str("https://www.googleapis.com/calendar/v3/calendars/primary/events");
    let mut auth = String::from_str("Bearer ");
    auth.append(token.access_token.as_str());
    (url, auth)
}

/// Decides what a sync reports from what the outbound call returned: a
/// failed send or a non-success status is a Google API error carrying the
/// send error or the status line; a success status is a completed sync.
pub fn sync_with_google_calendar(outcome: GoogleSyncOutcome) -> (r: Result<
    (),
    CalendarServiceError,
>)
    ensures
        match outcome {
            GoogleSyncOutcome::SendFailed(m) => r matches Err(
                CalendarServiceError::GoogleApiError(e),
            ) && e == m,
            GoogleSyncOutcome::Responded(true, _) => r is Ok,
            GoogleSyncOutcome::Responded(false, status) => r matches Err(
                CalendarServiceError::GoogleApiError(e),
            ) && e@ == "Google API returned error: "@ + status@,
        },
{
    match outcome {
        GoogleSyncOutcome::SendFailed(m) => Err(CalendarServiceError::GoogleApiError(m)),
        GoogleSyncOutcome::Responded(success, status) => {
            if !success {
                let mut msg = String::from_str("Google API returned error: ");
                msg.append(status.as_str());
                return Err(CalendarServiceError::GoogleApiError(msg));
            }
            Ok(())
        },
    }
}

/// Maps a service error to the HTTP status and body the handler sends:
/// 500 for store and Google API failures, 400 for malformed ids and
/// validation failures, 404 for a missing record, 401 for a failed
/// authentication.
pub fn error_response(error: CalendarServiceError) -> (r: ErrorResponse)
    ensures
        match error {
            CalendarServiceError::DatabaseError(m) => r.status == 500 && r.body@
                == "Database error: "@ + m@,
            CalendarServiceError::InvalidObjectId(e) => r.status == 400 && r.body@
                == "Invalid ObjectId: "@ + oid_error_text(e),
            CalendarServiceError::EventNotFound => r.status == 404 && r.body@
                == "Event not found"@,
            CalendarServiceError::ValidationError(ve) => r.status == 400 && r.body@
                == rendered_errors(ve@),
            CalendarServiceError::GoogleApiError(m) => r.status == 500 && r.body@
                == "Google Calendar API error: "@ + m@,
            CalendarServiceError::AuthError(m) => r.status == 401 && r.body@
                == "Authentication error: "@ + m@,
        },
{
    match error {
        CalendarServiceError::DatabaseError(m) => {
            let mut body = String::from_str("Database error: ");
            body.append(m.as_str());
            ErrorResponse { status: 500, body }
        },
        CalendarServiceError::InvalidObjectId(e) => {
            let mut body = String::from_str("Invalid ObjectId: ");
            body.append(e.message());
            ErrorResponse { status: 400, body }
        },
        CalendarServiceError::EventNotFound => ErrorResponse {
            status: 404,
            body: String::from_str("Event not found"),
        },
        CalendarServiceError::ValidationError(ve) => ErrorResponse {
            status: 400,
            body: ve.message(),
        },
        CalendarServiceError::GoogleApiError(m) => {
            let mut body = String::from_str("Google Calendar API error: ");
            body.append(m.as_str());
            ErrorResponse { status: 500, body }
        },
        CalendarServiceError::AuthError(m) => {
            let mut body = String::from_str("Authentication error: ");
            body.append(m.as_str());
            ErrorResponse { status: 401, body }
        },
    }
}

} // verus!
