//! The notes service: validate, then exactly one operation on the notes
//! collection, with store outcomes mapped to a service error.

use vstd::prelude::*;
use vstd::pervasive::VecAdditionalExecFns;
use vstd::string::StringExecFns;
use crate::http::ErrorResponse;
use crate::note::{note_field_errors, note_valid, tags_view, Note};
use crate::oid::{oid_error_text, oid_of_str, valid_oid_str, ObjectId, OidError, OBJECT_ID_LIMIT};
use crate::time::{rfc3339_of, rfc3339_string, MAX_TIMESTAMP_MILLIS};
use crate::validation::{rendered_errors, ValidationErrors};

verus! {

/// Why a note operation failed, in the order the service checks.
#[derive(Debug)]
pub enum NotesServiceError {
    DatabaseError(String),
    InvalidObjectId(OidError),
    NoteNotFound,
    ValidationError(ValidationErrors),
}

/// Some record in `s` carries the identifier `oid`.
pub open spec fn note_with_id_exists(s: Seq<Note>, oid: ObjectId) -> bool {
    exists|i: int| 0 <= i < s.len() && (#[trigger] s[i].id) == Some(oid)
}

/// Identifiers are pairwise distinct.
pub open spec fn note_ids_unique(s: Seq<Note>) -> bool {
    forall|i: int, j: int| 0 <= i < j < s.len() ==> (#[trigger] s[i].id) != (#[trigger] s[j].id)
}

/// The record a successful create appends: the payload's fields, a fresh
/// identifier, and both timestamps set to the clock value.
pub open spec fn note_created(n: Note, payload: Note, id: u128, now: int) -> bool {
    &&& n.id == Some(ObjectId { value: id })
    &&& n.title == payload.title
    &&& n.content == payload.content
    &&& n.tags == payload.tags
    &&& n.is_archived == payload.is_archived
    &&& n.user_id == payload.user_id
    &&& n.created_at matches Some(c) && c@ == rfc3339_of(now)
    &&& n.updated_at matches Some(u) && u@ == rfc3339_of(now)
}

/// The record a successful update leaves: the payload's writable fields
/// (title, content, tags, archive flag), a fresh update stamp, and the
/// identifier, creation stamp and owner kept.
pub open spec fn note_patched(n: Note, prev: Note, payload: Note, now: int) -> bool {
    &&& n.id == prev.id
    &&& n.created_at == prev.created_at
    &&& n.user_id == prev.user_id
    &&& n.title == payload.title
    &&& n.content == payload.content
    &&& n.tags == payload.tags
    &&& n.is_archived == payload.is_archived
    &&& n.updated_at matches Some(u) && u@ == rfc3339_of(now)
}

/// The record after it is archived: only the archive flag (set, never
/// cleared) and the update stamp change.
pub open spec fn note_archived(n: Note, prev: Note, now: int) -> bool {
    &&& n.id == prev.id
    &&& n.title == prev.title
    &&& n.content == prev.content
    &&& n.created_at == prev.created_at
    &&& tags_view(n.tags) == tags_view(prev.tags)
    &&& n.user_id == prev.user_id
    &&& n.is_archived == Some(true)
    &&& n.updated_at matches Some(u) && u@ == rfc3339_of(now)
}

/// The notes collection: records in storage order, plus the next identifier
/// value to assign.
pub struct NoteStore {
    notes: Vec<Note>,
    next_id: u128,
}

impl View for NoteStore {
    type V = Seq<Note>;

    closed spec fn view(&self) -> Seq<Note> {
        self.notes@
    }
}

impl NoteStore {
    /// The identifier value the next successful insert will use.
    pub closed spec fn id_counter(&self) -> u128 {
        self.next_id
    }

    /// Every 12-byte identifier value has been handed out already.
    pub open spec fn exhausted(&self) -> bool {
        self.id_counter() == OBJECT_ID_LIMIT
    }

    /// Every record carries an identifier below the counter, and identifiers
    /// are pairwise distinct.
    pub closed spec fn wf(&self) -> bool {
        &&& self.next_id <= OBJECT_ID_LIMIT
        &&& forall|i: int|
            0 <= i < self.notes@.len() ==> ((#[trigger] self.notes@[i].id) matches Some(o)
                && o.value < self.next_id)
        &&& note_ids_unique(self.notes@)
    }

    /// An empty collection.
    pub fn new() -> (r: NoteStore)
        ensures
            r.wf(),
            r@ == Seq::<Note>::empty(),
            r.id_counter() == 0,
    {
        NoteStore { notes: Vec::new(), next_id: 0 }
    }

    /// In a well-formed store every record has a distinct, well-formed
    /// identifier.
    pub proof fn lemma_wf_ids(&self)
        requires
            self.wf(),
        ensures
            forall|i: int|
                0 <= i < self@.len() ==> (#[trigger] self@[i].id) is Some
                    && self@[i].id->0.is_valid(),
            note_ids_unique(self@),
    {
    }
}

/// Returns every stored note, in storage order.
pub fn get_all_notes(store: &NoteStore) -> (r: Result<Vec<Note>, NotesServiceError>)
    ensures
        r matches Ok(v) && v@.len() == store@.len() && (forall|i: int|
            0 <= i < store@.len() ==> crate::note::note_like(#[trigger] v@[i], store@[i])),
{
    let mut out: Vec<Note> = Vec::new();
    let mut i: usize = 0;
    while i < store.notes.len()
        invariant
            i <= store.notes@.len(),
            out@.len() == i,
            forall|j: int| 0 <= j < i ==> crate::note::note_like(#[trigger] out@[j], store.notes@[j]),
        decreases store.notes@.len() - i,
    {
        out.push(store.notes[i].duplicate());
        i += 1;
    }
    Ok(out)
}

/// Validates the payload, then inserts it as a new record with a fresh
/// identifier and both timestamps set to the clock value. On a validation
/// failure the store is left unchanged.
pub fn add_note(store: &mut NoteStore, note: Note, now_millis: i64) -> (r: Result<
    (),
    NotesServiceError,
>)
    requires
        old(store).wf(),
        0 <= now_millis <= MAX_TIMESTAMP_MILLIS,
    ensures
        final(store).wf(),
        match r {
            Ok(()) => note_valid(note) && !old(store).exhausted() && final(store)@ == old(store)@.push(final(store)@.last()) && note_created(
                final(store)@.last(),
                note,
                old(store).id_counter(),
                now_millis as int,
            ) && final(store).id_counter() == old(store).id_counter() + 1,
            Err(NotesServiceError::ValidationError(ve)) => !note_valid(note) && final(store)@
                == old(store)@ && ve@ == note_field_errors(note),
            Err(NotesServiceError::DatabaseError(_)) => note_valid(note) && old(store).exhausted()
                && final(store)@ == old(store)@,
            _ => false,
        },
{
    if let Err(ve) = note.validate() {
        return Err(NotesServiceError::ValidationError(ve));
    }
    if store.next_id == OBJECT_ID_LIMIT {
        return Err(
            NotesServiceError::DatabaseError(String::from_str("identifier space exhausted")),
        );
    }
    let id = ObjectId { value: store.next_id };
    store.next_id = store.next_id + 1;
    let created = rfc3339_string(now_millis);
    let updated = created.clone();
    let record = Note {
        id: Some(id),
        title: note.title,
        content: note.content,
        created_at: Some(created),
        updated_at: Some(updated),
        tags: note.tags,
        is_archived: note.is_archived,
        user_id: note.user_id,
    };
    store.notes.push(record);
    proof {
        assert forall|a: int, b: int| 0 <= a < b < store.notes@.len() implies (
        #[trigger] store.notes@[a].id) != (#[trigger] store.notes@[b].id) by {
            if b < store.notes@.len() - 1 {
                assert(old(store).notes@[a].id != old(store).notes@[b].id);
            }
        }
        assert(store.wf());
    }
    Ok(())
}

/// Validates the payload, parses the id, and replaces the writable fields of
/// the record that carries the id. Reports, in this order: a validation
/// failure, a malformed id, or a missing record — each leaving the store
/// unchanged.
pub fn update_note(store: &mut NoteStore, note_id: &str, updated_note: Note, now_millis: i64) -> (r:
    Result<(), NotesServiceError>)
    requires
        old(store).wf(),
        0 <= now_millis <= MAX_TIMESTAMP_MILLIS,
    ensures
        final(store).wf(),
        match r {
            Ok(()) => note_valid(updated_note) && valid_oid_str(note_id@) && (exists|i: int|
                0 <= i < old(store)@.len() && (#[trigger] old(store)@[i].id) == Some(
                    oid_of_str(note_id@),
                ) && final(store)@ == old(store)@.update(i, final(store)@[i]) && note_patched(
                    final(store)@[i],
                    old(store)@[i],
                    updated_note,
                    now_millis as int,
                )),
            Err(NotesServiceError::ValidationError(ve)) => !note_valid(updated_note) && final(store)@ == old(store)@ && ve@ == note_field_errors(updated_note),
            Err(NotesServiceError::InvalidObjectId(_)) => note_valid(updated_note)
                && !valid_oid_str(note_id@) && final(store)@ == old(store)@,
            Err(NotesServiceError::NoteNotFound) => note_valid(updated_note) && valid_oid_str(
                note_id@,
            ) && !note_with_id_exists(old(store)@, oid_of_str(note_id@)) && final(store)@ == old(store)@,
            _ => false,
        },
{
    if let Err(ve) = updated_note.validate() {
        return Err(NotesServiceError::ValidationError(ve));
    }
    let object_id = match ObjectId::parse_str(note_id) {
        Ok(oid) => oid,
        Err(e) => {
            return Err(NotesServiceError::InvalidObjectId(e));
        },
    };
    let n = store.notes.len();
    let mut i: usize = 0;
    while i < n
        invariant
            *store == *old(store),
            n == store.notes@.len(),
            i <= n,
            forall|j: int| 0 <= j < i ==> (#[trigger] store.notes@[j].id) != Some(object_id),
        decreases n - i,
    {
        let hit = match &store.notes[i].id {
            Some(o) => *o == object_id,
            None => false,
        };
        if hit {
            let prev_id = store.notes[i].id;
            let prev_archived = store.notes[i].is_archived;
            let prev_created = match &store.notes[i].created_at {
                Some(s) => Some(s.clone()),
                None => None,
            };
            let prev_user = match &store.notes[i].user_id {
                Some(s) => Some(s.clone()),
                None => None,
            };
            let record = Note {
                id: prev_id,
                title: updated_note.title,
                content: updated_note.content,
                created_at: prev_created,
                updated_at: Some(rfc3339_string(now_millis)),
                tags: updated_note.tags,
                is_archived: updated_note.is_archived,
                user_id: prev_user,
            };
            store.notes.set(i, record);
            proof {
                assert forall|a: int|
                    0 <= a < store.notes@.len() implies (#[trigger] store.notes@[a].id) == old(store).notes@[a].id by {}
                assert forall|a: int, b: int| 0 <= a < b < store.notes@.len() implies (
                #[trigger] store.notes@[a].id) != (#[trigger] store.notes@[b].id) by {
                    assert(old(store).notes@[a].id != old(store).notes@[b].id);
                }
                assert(store.wf());
                assert(old(store)@[i as int].id == Some(oid_of_str(note_id@)));
                assert(store@ == old(store)@.update(i as int, store@[i as int]));
                assert(note_patched(
                    store@[i as int],
                    old(store)@[i as int],
                    updated_note,
                    now_millis as int,
                ));
            }
            return Ok(());
        }
        i += 1;
    }
    Err(NotesServiceError::NoteNotFound)
}

/// Parses the id and removes the record that carries it; later records move
/// up one place. A malformed id or a missing record leaves the store
/// unchanged.
pub fn remove_note(store: &mut NoteStore, note_id: &str) -> (r: Result<(), NotesServiceError>)
    requires
        old(store).wf(),
    ensures
        final(store).wf(),
        match r {
            Ok(()) => valid_oid_str(note_id@) && (exists|i: int|
                0 <= i < old(store)@.len() && (#[trigger] old(store)@[i].id) == Some(
                    oid_of_str(note_id@),
                ) && final(store)@ == old(store)@.remove(i)),
            Err(NotesServiceError::InvalidObjectId(_)) => !valid_oid_str(note_id@) && final(store)@
                == old(store)@,
            Err(NotesServiceError::NoteNotFound) => valid_oid_str(note_id@)
                && !note_with_id_exists(old(store)@, oid_of_str(note_id@)) && final(store)@ == old(store)@,
            _ => false,
        },
{
    let object_id = match ObjectId::parse_str(note_id) {
        Ok(oid) => oid,
        Err(e) => {
            return Err(NotesServiceError::InvalidObjectId(e));
        },
    };
    let n = store.notes.len();
    let mut i: usize = 0;
    while i < n
        invariant
            *store == *old(store),
            n == store.notes@.len(),
            i <= n,
            forall|j: int| 0 <= j < i ==> (#[trigger] store.notes@[j].id) != Some(object_id),
        decreases n - i,
    {
        let hit = match &store.notes[i].id {
            Some(o) => *o == object_id,
            None => false,
        };
        if hit {
            proof {
                old(store).notes@.remove_ensures(i as int);
            }
            store.notes.remove(i);
            proof {
                assert forall|a: int, b: int| 0 <= a < b < store.notes@.len() implies (
                #[trigger] store.notes@[a].id) != (#[trigger] store.notes@[b].id) by {
                    let a0: int = if a < i {
                        a
                    } else {
                        a + 1
                    };
                    let b0: int = if b < i {
                        b
                    } else {
                        b + 1
                    };
                    assert(store.notes@[a] == old(store).notes@[a0]);
                    assert(store.notes@[b] == old(store).notes@[b0]);
                    assert(old(store).notes@[a0].id != old(store).notes@[b0].id);
                }
                assert forall|a: int|
                    0 <= a < store.notes@.len() implies ((#[trigger] store.notes@[a].id) matches Some(
                    o,
                ) && o.value < store.next_id) by {
                    let a0: int = if a < i {
                        a
                    } else {
                        a + 1
                    };
                    assert(store.notes@[a] == old(store).notes@[a0]);
                }
                assert(store.wf());
                assert(old(store)@[i as int].id == Some(oid_of_str(note_id@)));
                assert(store@ == old(store)@.remove(i as int));
            }
            return Ok(());
        }
        i += 1;
    }
    Err(NotesServiceError::NoteNotFound)
}

/// Parses the id and archives the record that carries it, refreshing the
/// update stamp. Archiving is one-way: the flag is set, never flipped back,
/// and archiving an archived note only refreshes its stamp. A malformed id
/// or a missing record leaves the store unchanged.
pub fn toggle_archive(store: &mut NoteStore, note_id: &str, now_millis: i64) -> (r: Result<
    (),
    NotesServiceError,
>)
    requires
        old(store).wf(),
        0 <= now_millis <= MAX_TIMESTAMP_MILLIS,
    ensures
        final(store).wf(),
        match r {
            Ok(()) => valid_oid_str(note_id@) && (exists|i: int|
                0 <= i < old(store)@.len() && (#[trigger] old(store)@[i].id) == Some(
                    oid_of_str(note_id@),
                ) && final(store)@ == old(store)@.update(i, final(store)@[i]) && note_archived(
                    final(store)@[i],
                    old(store)@[i],
                    now_millis as int,
                )),
            Err(NotesServiceError::InvalidObjectId(_)) => !valid_oid_str(note_id@) && final(store)@
                == old(store)@,
            Err(NotesServiceError::NoteNotFound) => valid_oid_str(note_id@)
                && !note_with_id_exists(old(store)@, oid_of_str(note_id@)) && final(store)@ == old(store)@,
            _ => false,
        },
{
    let object_id = match ObjectId::parse_str(note_id) {
        Ok(oid) => oid,
        Err(e) => {
            return Err(NotesServiceError::InvalidObjectId(e));
        },
    };
    let n = store.notes.len();
    let mut i: usize = 0;
    while i < n
        invariant
            *store == *old(store),
            n == store.notes@.len(),
            i <= n,
            forall|j: int| 0 <= j < i ==> (#[trigger] store.notes@[j].id) != Some(object_id),
        decreases n - i,
    {
        let hit = match &store.notes[i].id {
            Some(o) => *o == object_id,
            None => false,
        };
        if hit {
            let prev = &store.notes[i];
            let record = Note {
                id: prev.id,
                title: prev.title.clone(),
                content: prev.content.clone(),
                created_at: match &prev.created_at {
                    Some(s) => Some(s.clone()),
                    None => None,
                },
                updated_at: Some(rfc3339_string(now_millis)),
                tags: match &prev.tags {
                    Some(v) => Some(v.clone()),
                    None => None,
                },
                is_archived: Some(true),
                user_id: match &prev.user_id {
                    Some(s) => Some(s.clone()),
                    None => None,
                },
            };
            proof {
                if store.notes@[i as int].tags is Some {
                    let v = store.notes@[i as int].tags->0;
                    let w = record.tags->0;
                    assert forall|k: int| 0 <= k < w@.len() implies w@[k] == v@[k] by {
                        assert(cloned::<String>(v@[k], w@[k]));
                    }
                    assert(w@ =~= v@);
                }
            }
            store.notes.set(i, record);
            proof {
                assert forall|a: int|
                    0 <= a < store.notes@.len() implies (#[trigger] store.notes@[a].id) == old(store).notes@[a].id by {}
                assert forall|a: int, b: int| 0 <= a < b < store.notes@.len() implies (
                #[trigger] store.notes@[a].id) != (#[trigger] store.notes@[b].id) by {
                    assert(old(store).notes@[a].id != old(store).notes@[b].id);
                }
                assert(store.wf());
                assert(old(store)@[i as int].id == Some(oid_of_str(note_id@)));
                assert(store@ == old(store)@.update(i as int, store@[i as int]));
            }
            return Ok(());
        }
        i += 1;
    }
    Err(NotesServiceError::NoteNotFound)
}

/// Creating from a valid payload then listing yields exactly the records
/// already stored followed by one new record whose payload fields equal the
/// payload's.
pub proof fn lemma_create_then_list_adds_one_note(
    s: Seq<Note>,
    n2: Note,
    payload: Note,
    id: u128,
    now: int,
)
    requires
        note_valid(payload),
        note_created(n2, payload, id, now),
    ensures
        s.push(n2).len() == s.len() + 1,
        s.push(n2).subrange(0, s.len() as int) == s,
        s.push(n2).last().title == payload.title,
        s.push(n2).last().content == payload.content,
        s.push(n2).last().tags == payload.tags,
        s.push(n2).last().is_archived == payload.is_archived,
{
    assert(s.push(n2).subrange(0, s.len() as int) =~= s);
}

/// After a record is deleted, no record carries its identifier: a second
/// delete of the same id reports the record missing instead of failing.
pub proof fn lemma_remove_note_is_idempotent(s: Seq<Note>, i: int, oid: ObjectId)
    requires
        note_ids_unique(s),
        0 <= i < s.len(),
        s[i].id == Some(oid),
    ensures
        !note_with_id_exists(s.remove(i), oid),
{
    s.remove_ensures(i);
    assert forall|j: int| 0 <= j < s.remove(i).len() implies (#[trigger] s.remove(i)[j].id)
        != Some(oid) by {
        if j < i {
            assert(s.remove(i)[j] == s[j]);
        } else {
            assert(s.remove(i)[j] == s[j + 1]);
        }
    }
}

/// Archiving is one-way and idempotent in effect: an archived note carries
/// the flag, and archiving it again changes nothing but its update stamp.
pub proof fn lemma_archive_is_one_way(n1: Note, n2: Note, n3: Note, t1: int, t2: int)
    requires
        note_archived(n2, n1, t1),
        note_archived(n3, n2, t2),
    ensures
        n2.is_archived == Some(true),
        n3.is_archived == n2.is_archived,
        n3.id == n2.id,
        n3.title == n2.title,
        n3.content == n2.content,
        n3.created_at == n2.created_at,
        tags_view(n3.tags) == tags_view(n2.tags),
        n3.user_id == n2.user_id,
{
}

/// Maps a service error to the HTTP status and body the handler sends:
/// 500 for store failures, 400 for malformed ids and validation failures,
/// 404 for a missing record.
pub fn error_response(error: NotesServiceError) -> (r: ErrorResponse)
    ensures
        match error {
            NotesServiceError::DatabaseError(m) => r.status == 500 && r.body@
                == "Database error: "@ + m@,
            NotesServiceError::InvalidObjectId(e) => r.status == 400 && r.body@
                == "Invalid ObjectId: "@ + oid_error_text(e),
            NotesServiceError::NoteNotFound => r.status == 404 && r.body@ == "Note not found"@,
            NotesServiceError::ValidationError(ve) => r.status == 400 && r.body@
                == rendered_errors(ve@),
        },
{
    match error {
        NotesServiceError::DatabaseError(m) => {
            let mut body = String::from_str("Database error: ");
            body.append(m.as_str());
            ErrorResponse { status: 500, body }
        },
        NotesServiceError::InvalidObjectId(e) => {
            let mut body = String::from_str("Invalid ObjectId: ");
            body.append(e.message());
            ErrorResponse { status: 400, body }
        },
        NotesServiceError::NoteNotFound => ErrorResponse {
            status: 404,
            body: String::from_str("Note not found"),
        },
        NotesServiceError::ValidationError(ve) => ErrorResponse { status: 400, body: ve.message() },
    }
}

} // verus!
