//! The todo service: validate, then exactly one operation on the todos
//! collection, with store outcomes mapped to a service error.

use vstd::prelude::*;
use vstd::pervasive::VecAdditionalExecFns;
use vstd::string::StringExecFns;
use crate::http::ErrorResponse;
use crate::oid::{oid_error_text, oid_of_str, valid_oid_str, ObjectId, OidError, OBJECT_ID_LIMIT};
use crate::time::{rfc3339_of, rfc3339_string, MAX_TIMESTAMP_MILLIS};
use crate::todo::{todo_field_errors, todo_valid, Todo};
use crate::validation::{rendered_errors, ValidationErrors};

verus! {

/// Why a todo operation failed, in the order the service checks:
/// the payload broke a rule, the id string was malformed, no record has the
/// id, or the store itself failed.
#[derive(Debug)]
pub enum TodoServiceError {
    DatabaseError(String),
    InvalidObjectId(OidError),
    TodoNotFound,
    ValidationError(ValidationErrors),
}

/// Some record in `s` carries the identifier `oid`.
pub open spec fn todo_with_id_exists(s: Seq<Todo>, oid: ObjectId) -> bool {
    exists|i: int| 0 <= i < s.len() && (#[trigger] s[i].id) == Some(oid)
}

/// Identifiers are pairwise distinct.
pub open spec fn todo_ids_unique(s: Seq<Todo>) -> bool {
    forall|i: int, j: int| 0 <= i < j < s.len() ==> (#[trigger] s[i].id) != (#[trigger] s[j].id)
}

/// The record a successful create appends: the payload's fields, a fresh
/// identifier, and both timestamps set to the clock value.
pub open spec fn todo_created(t: Todo, payload: Todo, id: u128, now: int) -> bool {
    &&& t.id == Some(ObjectId { value: id })
    &&& t.title == payload.title
    &&& t.description == payload.description
    &&& t.completed == payload.completed
    &&& t.priority == payload.priority
    &&& t.created_at@ == rfc3339_of(now)
    &&& t.updated_at matches Some(u) && u@ == rfc3339_of(now)
}

/// The record a successful update leaves: the payload's writable fields,
/// a fresh update stamp, and the identifier and creation stamp kept.
pub open spec fn todo_patched(t: Todo, prev: Todo, payload: Todo, now: int) -> bool {
    &&& t.id == prev.id
    &&& t.created_at == prev.created_at
    &&& t.title == payload.title
    &&& t.description == payload.description
    &&& t.completed == payload.completed
    &&& t.priority == payload.priority
    &&& t.updated_at matches Some(u) && u@ == rfc3339_of(now)
}

/// The record after its completion flag is flipped: only `completed` and the
/// update stamp change.
pub open spec fn todo_completion_flipped(t: Todo, prev: Todo, now: int) -> bool {
    &&& t.id == prev.id
    &&& t.title == prev.title
    &&& t.description == prev.description
    &&& t.priority == prev.priority
    &&& t.created_at == prev.created_at
    &&& t.completed == !prev.completed
    &&& t.updated_at matches Some(u) && u@ == rfc3339_of(now)
}

/// The todos collection: records in storage order, plus the next identifier
/// value to assign.
pub struct TodoStore {
    todos: Vec<Todo>,
    next_id: u128,
}

impl View for TodoStore {
    type V = Seq<Todo>;

    closed spec fn view(&self) -> Seq<Todo> {
        self.todos@
    }
}

impl TodoStore {
    /// The identifier value the next successful insert will use.
    pub closed spec fn id_counter(&self) -> u128 {
        self.next_id
    }

    /// Every 12-byte identifier value has been handed out already.
    pub open spec fn exhausted(&self) -> bool {
        self.id_counter() == OBJECT_ID_LIMIT
    }

    /// Every record carries an identifier below the counter, and identifiers
    /// are pairwise distinct.
    pub closed spec fn wf(&self) -> bool {
        &&& self.next_id <= OBJECT_ID_LIMIT
        &&& forall|i: int|
            0 <= i < self.todos@.len() ==> ((#[trigger] self.todos@[i].id) matches Some(o)
                && o.value < self.next_id)
        &&& todo_ids_unique(self.todos@)
    }

    /// An empty collection.
    pub fn new() -> (r: TodoStore)
        ensures
            r.wf(),
            r@ == Seq::<Todo>::empty(),
            r.id_counter() == 0,
    {
        TodoStore { todos: Vec::new(), next_id: 0 }
    }

    /// In a well-formed store every record has a distinct, well-formed
    /// identifier.
    pub proof fn lemma_wf_ids(&self)
        requires
            self.wf(),
        ensures
            forall|i: int|
                0 <= i < self@.len() ==> (#[trigger] self@[i].id) is Some
                    && self@[i].id->0.is_valid(),
            todo_ids_unique(self@),
    {
    }
}

/// Returns every stored todo, in storage order.
pub fn get_all_todos(store: &TodoStore) -> (r: Result<Vec<Todo>, TodoServiceError>)
    ensures
        r matches Ok(v) && v@ == store@,
{
    let mut out: Vec<Todo> = Vec::new();
    let mut i: usize = 0;
    while i < store.todos.len()
        invariant
            i <= store.todos@.len(),
            out@ == store.todos@.take(i as int),
        decreases store.todos@.len() - i,
    {
        out.push(store.todos[i].duplicate());
        proof {
            assert(out@ =~= store.todos@.take(i + 1));
        }
        i += 1;
    }
    proof {
        assert(store.todos@.take(store.todos@.len() as int) =~= store.todos@);
    }
    Ok(out)
}

/// Validates the payload, then inserts it as a new record with a fresh
/// identifier and both timestamps set to the clock value. On a validation
/// failure the store is left unchanged.
pub fn add_todo(store: &mut TodoStore, todo: Todo, now_millis: i64) -> (r: Result<
    (),
    TodoServiceError,
>)
    requires
        old(store).wf(),
        0 <= now_millis <= MAX_TIMESTAMP_MILLIS,
    ensures
        final(store).wf(),
        match r {
            Ok(()) => todo_valid(todo) && !old(store).exhausted() && final(store)@ == old(store)@.push(
                final(store)@.last(),
            ) && todo_created(final(store)@.last(), todo, old(store).id_counter(), now_millis as int)
                && final(store).id_counter() == old(store).id_counter() + 1,
            Err(TodoServiceError::ValidationError(ve)) => !todo_valid(todo) && final(store)@ == old(store)@ && ve@ == todo_field_errors(todo),
            Err(TodoServiceError::DatabaseError(_)) => todo_valid(todo) && old(store).exhausted()
                && final(store)@ == old(store)@,
            _ => false,
        },
{
    if let Err(ve) = todo.validate() {
        return Err(TodoServiceError::ValidationError(ve));
    }
    if store.next_id == OBJECT_ID_LIMIT {
        return Err(TodoServiceError::DatabaseError(String::from_str("identifier space exhausted")));
    }
    let id = ObjectId { value: store.next_id };
    store.next_id = store.next_id + 1;
    let created = rfc3339_string(now_millis);
    let updated = created.clone();
    let record = Todo {
        id: Some(id),
        title: todo.title,
        description: todo.description,
        completed: todo.completed,
        priority: todo.priority,
        created_at: created,
        updated_at: Some(updated),
    };
    store.todos.push(record);
    proof {
        assert forall|a: int, b: int| 0 <= a < b < store.todos@.len() implies (
        #[trigger] store.todos@[a].id) != (#[trigger] store.todos@[b].id) by {
            if b < store.todos@.len() - 1 {
                assert(old(store).todos@[a].id != old(store).todos@[b].id);
            }
        }
        assert(store.wf());
    }
    Ok(())
}

/// Validates the payload, parses the id, and replaces the writable fields of
/// the record that carries the id. Reports, in this order: a validation
/// failure, a malformed id, or a missing record — each leaving the store
/// unchanged.
pub fn update_todo(store: &mut TodoStore, todo_id: &str, updated_todo: Todo, now_millis: i64) -> (r:
    Result<(), TodoServiceError>)
    requires
        old(store).wf(),
        0 <= now_millis <= MAX_TIMESTAMP_MILLIS,
    ensures
        final(store).wf(),
        match r {
            Ok(()) => todo_valid(updated_todo) && valid_oid_str(todo_id@) && (exists|i: int|
                0 <= i < old(store)@.len() && (#[trigger] old(store)@[i].id) == Some(
                    oid_of_str(todo_id@),
                ) && final(store)@ == old(store)@.update(i, final(store)@[i]) && todo_patched(
                    final(store)@[i],
                    old(store)@[i],
                    updated_todo,
                    now_millis as int,
                )),
            Err(TodoServiceError::ValidationError(ve)) => !todo_valid(updated_todo) && final(store)@
                == old(store)@ && ve@ == todo_field_errors(updated_todo),
            Err(TodoServiceError::InvalidObjectId(_)) => todo_valid(updated_todo)
                && !valid_oid_str(todo_id@) && final(store)@ == old(store)@,
            Err(TodoServiceError::TodoNotFound) => todo_valid(updated_todo) && valid_oid_str(
                todo_id@,
            ) && !todo_with_id_exists(old(store)@, oid_of_str(todo_id@)) && final(store)@ == old(store)@,
            _ => false,
        },
{
    if let Err(ve) = updated_todo.validate() {
        return Err(TodoServiceError::ValidationError(ve));
    }
    let object_id = match ObjectId::parse_str(todo_id) {
        Ok(oid) => oid,
        Err(e) => {
            return Err(TodoServiceError::InvalidObjectId(e));
        },
    };
    let n = store.todos.len();
    let mut i: usize = 0;
    while i < n
        invariant
            *store == *old(store),
            n == store.todos@.len(),
            i <= n,
            forall|j: int| 0 <= j < i ==> (#[trigger] store.todos@[j].id) != Some(object_id),
        decreases n - i,
    {
        let hit = match &store.todos[i].id {
            Some(o) => *o == object_id,
            None => false,
        };
        if hit {
            let prev_id = store.todos[i].id;
            let prev_created = store.todos[i].created_at.clone();
            let record = Todo {
                id: prev_id,
                title: updated_todo.title,
                description: updated_todo.description,
                completed: updated_todo.completed,
                priority: updated_todo.priority,
                created_at: prev_created,
                updated_at: Some(rfc3339_string(now_millis)),
            };
            store.todos.set(i, record);
            proof {
                assert forall|a: int|
                    0 <= a < store.todos@.len() implies (#[trigger] store.todos@[a].id) == old(store).todos@[a].id by {}
                assert forall|a: int, b: int| 0 <= a < b < store.todos@.len() implies (
                #[trigger] store.todos@[a].id) != (#[trigger] store.todos@[b].id) by {
                    assert(old(store).todos@[a].id != old(store).todos@[b].id);
                }
                assert(store.wf());
                assert(old(store)@[i as int].id == Some(oid_of_str(todo_id@)));
                assert(store@ == old(store)@.update(i as int, store@[i as int]));
                assert(todo_patched(
                    store@[i as int],
                    old(store)@[i as int],
                    updated_todo,
                    now_millis as int,
                ));
            }
            return Ok(());
        }
        i += 1;
    }
    Err(TodoServiceError::TodoNotFound)
}

/// Parses the id and removes the record that carries it; later records move
/// up one place. A malformed id or a missing record leaves the store
/// unchanged.
pub fn remove_todo(store: &mut TodoStore, todo_id: &str) -> (r: Result<(), TodoServiceError>)
    requires
        old(store).wf(),
    ensures
        final(store).wf(),
        match r {
            Ok(()) => valid_oid_str(todo_id@) && (exists|i: int|
                0 <= i < old(store)@.len() && (#[trigger] old(store)@[i].id) == Some(
                    oid_of_str(todo_id@),
                ) && final(store)@ == old(store)@.remove(i)),
            Err(TodoServiceError::InvalidObjectId(_)) => !valid_oid_str(todo_id@) && final(store)@ == old(store)@,
            Err(TodoServiceError::TodoNotFound) => valid_oid_str(todo_id@) && !todo_with_id_exists(
                old(store)@,
                oid_of_str(todo_id@),
            ) && final(store)@ == old(store)@,
            _ => false,
        },
{
    let object_id = match ObjectId::parse_str(todo_id) {
        Ok(oid) => oid,
        Err(e) => {
            return Err(TodoServiceError::InvalidObjectId(e));
        },
    };
    let n = store.todos.len();
    let mut i: usize = 0;
    while i < n
        invariant
            *store == *old(store),
            n == store.todos@.len(),
            i <= n,
            forall|j: int| 0 <= j < i ==> (#[trigger] store.todos@[j].id) != Some(object_id),
        decreases n - i,
    {
        let hit = match &store.todos[i].id {
            Some(o) => *o == object_id,
            None => false,
        };
        if hit {
            proof {
                old(store).todos@.remove_ensures(i as int);
            }
            store.todos.remove(i);
            proof {
                assert forall|a: int, b: int| 0 <= a < b < store.todos@.len() implies (
                #[trigger] store.todos@[a].id) != (#[trigger] store.todos@[b].id) by {
                    let a0: int = if a < i { a } else { a + 1 };
                    let b0: int = if b < i { b } else { b + 1 };
                    assert(store.todos@[a] == old(store).todos@[a0]);
                    assert(store.todos@[b] == old(store).todos@[b0]);
                    assert(old(store).todos@[a0].id != old(store).todos@[b0].id);
                }
                assert forall|a: int|
                    0 <= a < store.todos@.len() implies ((#[trigger] store.todos@[a].id) matches Some(
                    o,
                ) && o.value < store.next_id) by {
                    let a0: int = if a < i { a } else { a + 1 };
                    assert(store.todos@[a] == old(store).todos@[a0]);
                }
                assert(store.wf());
                assert(old(store)@[i as int].id == Some(oid_of_str(todo_id@)));
                assert(store@ == old(store)@.remove(i as int));
            }
            return Ok(());
        }
        i += 1;
    }
    Err(TodoServiceError::TodoNotFound)
}

/// Parses the id and flips the completion flag of the record that carries
/// it, refreshing the update stamp. A malformed id or a missing record
/// leaves the store unchanged.
pub fn set_todo_completion(store: &mut TodoStore, todo_id: &str, now_millis: i64) -> (r: Result<
    (),
    TodoServiceError,
>)
    requires
        old(store).wf(),
        0 <= now_millis <= MAX_TIMESTAMP_MILLIS,
    ensures
        final(store).wf(),
        match r {
            Ok(()) => valid_oid_str(todo_id@) && (exists|i: int|
                0 <= i < old(store)@.len() && (#[trigger] old(store)@[i].id) == Some(
                    oid_of_str(todo_id@),
                ) && final(store)@ == old(store)@.update(i, final(store)@[i]) && todo_completion_flipped(
                    final(store)@[i],
                    old(store)@[i],
                    now_millis as int,
                )),
            Err(TodoServiceError::InvalidObjectId(_)) => !valid_oid_str(todo_id@) && final(store)@ == old(store)@,
            Err(TodoServiceError::TodoNotFound) => valid_oid_str(todo_id@) && !todo_with_id_exists(
                old(store)@,
                oid_of_str(todo_id@),
            ) && final(store)@ == old(store)@,
            _ => false,
        },
{
    let object_id = match ObjectId::parse_str(todo_id) {
        Ok(oid) => oid,
        Err(e) => {
            return Err(TodoServiceError::InvalidObjectId(e));
        },
    };
    let n = store.todos.len();
    let mut i: usize = 0;
    while i < n
        invariant
            *store == *old(store),
            n == store.todos@.len(),
            i <= n,
            forall|j: int| 0 <= j < i ==> (#[trigger] store.todos@[j].id) != Some(object_id),
        decreases n - i,
    {
        let hit = match &store.todos[i].id {
            Some(o) => *o == object_id,
            None => false,
        };
        if hit {
            let prev = &store.todos[i];
            let record = Todo {
                id: prev.id,
                title: prev.title.clone(),
                description: prev.description.clone(),
                completed: !prev.completed,
                priority: prev.priority.clone(),
                created_at: prev.created_at.clone(),
                updated_at: Some(rfc3339_string(now_millis)),
            };
            store.todos.set(i, record);
            proof {
                assert forall|a: int|
                    0 <= a < store.todos@.len() implies (#[trigger] store.todos@[a].id) == old(store).todos@[a].id by {}
                assert forall|a: int, b: int| 0 <= a < b < store.todos@.len() implies (
                #[trigger] store.todos@[a].id) != (#[trigger] store.todos@[b].id) by {
                    assert(old(store).todos@[a].id != old(store).todos@[b].id);
                }
                assert(store.wf());
                assert(old(store)@[i as int].id == Some(oid_of_str(todo_id@)));
                assert(store@ == old(store)@.update(i as int, store@[i as int]));
                assert(todo_completion_flipped(
                    store@[i as int],
                    old(store)@[i as int],
                    now_millis as int,
                ));
            }
            return Ok(());
        }
        i += 1;
    }
    Err(TodoServiceError::TodoNotFound)
}

/// Creating from a valid payload then listing yields exactly the records
/// already stored followed by one new record whose payload fields equal the
/// payload's.
pub proof fn lemma_create_then_list_adds_one_todo(
    s: Seq<Todo>,
    t2: Todo,
    payload: Todo,
    id: u128,
    now: int,
)
    requires
        todo_valid(payload),
        todo_created(t2, payload, id, now),
    ensures
        s.push(t2).len() == s.len() + 1,
        s.push(t2).subrange(0, s.len() as int) == s,
        s.push(t2).last().title == payload.title,
        s.push(t2).last().description == payload.description,
        s.push(t2).last().completed == payload.completed,
        s.push(t2).last().priority == payload.priority,
{
    assert(s.push(t2).subrange(0, s.len() as int) =~= s);
}

/// After a record is deleted, no record carries its identifier: a second
/// delete of the same id reports the record missing instead of failing.
pub proof fn lemma_remove_todo_is_idempotent(s: Seq<Todo>, i: int, oid: ObjectId)
    requires
        todo_ids_unique(s),
        0 <= i < s.len(),
        s[i].id == Some(oid),
    ensures
        !todo_with_id_exists(s.remove(i), oid),
{
    s.remove_ensures(i);
    assert forall|j: int| 0 <= j < s.remove(i).len() implies (#[trigger] s.remove(i)[j].id)
        != Some(oid) by {
        if j < i {
            assert(s.remove(i)[j] == s[j]);
        } else {
            assert(s.remove(i)[j] == s[j + 1]);
        }
    }
}

/// Maps a service error to the HTTP status and body the handler sends:
/// 500 for store failures, 400 for malformed ids and validation failures,
/// 404 for a missing record.
pub fn error_response(error: TodoServiceError) -> (r: ErrorResponse)
    ensures
        match error {
            TodoServiceError::DatabaseError(m) => r.status == 500 && r.body@ == "Database error: "@
                + m@,
            TodoServiceError::InvalidObjectId(e) => r.status == 400 && r.body@
                == "Invalid ObjectId: "@ + oid_error_text(e),
            TodoServiceError::TodoNotFound => r.status == 404 && r.body@ == "Todo not found"@,
            TodoServiceError::ValidationError(ve) => r.status == 400 && r.body@ == rendered_errors(
                ve@,
            ),
        },
{
    match error {
        TodoServiceError::DatabaseError(m) => {
            let mut body = String::from_str("Database error: ");
            body.append(m.as_str());
            ErrorResponse { status: 500, body }
        },
        TodoServiceError::InvalidObjectId(e) => {
            let mut body = String::from_str("Invalid ObjectId: ");
            body.append(e.message());
            ErrorResponse { status: 400, body }
        },
        TodoServiceError::TodoNotFound => ErrorResponse {
            status: 404,
            body: String::from_str("Todo not found"),
        },
        TodoServiceError::ValidationError(ve) => ErrorResponse { status: 400, body: ve.message() },
    }
}

} // verus!
