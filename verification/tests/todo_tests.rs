use organise::oid::{ObjectId, OidError};
use organise::todo::{Todo, TodoSchema};
use organise::todo_service::{
    add_todo, error_response, get_all_todos, remove_todo, set_todo_completion, update_todo,
    TodoServiceError, TodoStore,
};

fn payload(title: &str, description: &str, priority: &str) -> Todo {
    Todo {
        id: None,
        title: title.to_string(),
        description: description.to_string(),
        completed: false,
        priority: priority.to_string(),
        created_at: String::new(),
        updated_at: None,
    }
}

#[test]
fn create_then_list_adds_exactly_one() {
    let mut store = TodoStore::new();
    assert_eq!(get_all_todos(&store).unwrap().len(), 0);
    let r = add_todo(&mut store, payload("Buy milk", "two bottles", "high"), 0);
    assert!(r.is_ok());
    let all = get_all_todos(&store).unwrap();
    assert_eq!(all.len(), 1);
    assert_eq!(all[0].title, "Buy milk");
    assert_eq!(all[0].description, "two bottles");
    assert_eq!(all[0].priority, "high");
    assert!(!all[0].completed);
    assert!(all[0].id.is_some());
}

#[test]
fn create_stamps_rfc3339_timestamps() {
    let mut store = TodoStore::new();
    add_todo(&mut store, payload("a", "b", "c"), 0).unwrap();
    let all = get_all_todos(&store).unwrap();
    assert_eq!(all[0].created_at, "1970-01-01T00:00:00+00:00");
    assert_eq!(all[0].updated_at.as_deref(), Some("1970-01-01T00:00:00+00:00"));
}

#[test]
fn create_with_empty_title_is_rejected_and_store_unchanged() {
    let mut store = TodoStore::new();
    let r = add_todo(&mut store, payload("", "desc", "low"), 0);
    match r {
        Err(TodoServiceError::ValidationError(ve)) => {
            assert_eq!(ve.errors.len(), 1);
            assert_eq!(ve.errors[0].field, "title");
            assert_eq!(ve.errors[0].message, "Title must be between 1 and 100 characters");
        },
        _ => panic!("expected a validation error"),
    }
    assert_eq!(get_all_todos(&store).unwrap().len(), 0);
}

#[test]
fn create_with_overlong_title_is_rejected() {
    let mut store = TodoStore::new();
    let long = "x".repeat(101);
    let r = add_todo(&mut store, payload(&long, "desc", "low"), 0);
    assert!(matches!(r, Err(TodoServiceError::ValidationError(_))));
    assert_eq!(get_all_todos(&store).unwrap().len(), 0);
    let exact = "x".repeat(100);
    assert!(add_todo(&mut store, payload(&exact, "desc", "low"), 0).is_ok());
}

#[test]
fn create_collects_every_broken_rule_in_field_order() {
    let mut store = TodoStore::new();
    let r = add_todo(&mut store, payload("", "", ""), 0);
    match r {
        Err(TodoServiceError::ValidationError(ve)) => {
            let fields: Vec<&str> = ve.errors.iter().map(|e| e.field.as_str()).collect();
            assert_eq!(fields, vec!["title", "description", "priority"]);
            assert_eq!(
                ve.message(),
                "title: Title must be between 1 and 100 characters; \
                 description: Description cannot be empty; \
                 priority: Priority cannot be empty"
            );
        },
        _ => panic!("expected a validation error"),
    }
}

#[test]
fn update_missing_id_returns_not_found_and_inserts_nothing() {
    let mut store = TodoStore::new();
    let r = update_todo(&mut store, "0123456789abcdef01234567", payload("a", "b", "c"), 0);
    assert!(matches!(r, Err(TodoServiceError::TodoNotFound)));
    assert_eq!(get_all_todos(&store).unwrap().len(), 0);
}

#[test]
fn update_malformed_id_is_a_bad_id_error() {
    let mut store = TodoStore::new();
    let r = update_todo(&mut store, "not-an-id", payload("a", "b", "c"), 0);
    assert!(matches!(r, Err(TodoServiceError::InvalidObjectId(_))));
}

#[test]
fn update_replaces_writable_fields_and_keeps_creation_stamp() {
    let mut store = TodoStore::new();
    add_todo(&mut store, payload("old title", "old desc", "low"), 0).unwrap();
    let first_id = "000000000000000000000000";
    let mut newer = payload("new title", "new desc", "high");
    newer.completed = true;
    let r = update_todo(&mut store, first_id, newer, 60_000);
    assert!(r.is_ok());
    let all = get_all_todos(&store).unwrap();
    assert_eq!(all.len(), 1);
    assert_eq!(all[0].title, "new title");
    assert_eq!(all[0].description, "new desc");
    assert_eq!(all[0].priority, "high");
    assert!(all[0].completed);
    assert_eq!(all[0].created_at, "1970-01-01T00:00:00+00:00");
    assert_eq!(all[0].updated_at.as_deref(), Some("1970-01-01T00:01:00+00:00"));
}

#[test]
fn update_validates_before_looking_at_the_id() {
    let mut store = TodoStore::new();
    let r = update_todo(&mut store, "not-an-id", payload("", "b", "c"), 0);
    assert!(matches!(r, Err(TodoServiceError::ValidationError(_))));
}

#[test]
fn delete_is_idempotent_in_effect() {
    let mut store = TodoStore::new();
    add_todo(&mut store, payload("a", "b", "c"), 0).unwrap();
    let id = "000000000000000000000000";
    assert!(remove_todo(&mut store, id).is_ok());
    assert_eq!(get_all_todos(&store).unwrap().len(), 0);
    let second = remove_todo(&mut store, id);
    assert!(matches!(second, Err(TodoServiceError::TodoNotFound)));
}

#[test]
fn delete_keeps_the_other_records_in_order() {
    let mut store = TodoStore::new();
    add_todo(&mut store, payload("first", "d", "p"), 0).unwrap();
    add_todo(&mut store, payload("second", "d", "p"), 0).unwrap();
    add_todo(&mut store, payload("third", "d", "p"), 0).unwrap();
    assert!(remove_todo(&mut store, "000000000000000000000001").is_ok());
    let all = get_all_todos(&store).unwrap();
    let titles: Vec<&str> = all.iter().map(|t| t.title.as_str()).collect();
    assert_eq!(titles, vec!["first", "third"]);
}

#[test]
fn toggle_flips_completion_both_ways() {
    let mut store = TodoStore::new();
    add_todo(&mut store, payload("a", "b", "c"), 0).unwrap();
    let id = "000000000000000000000000";
    set_todo_completion(&mut store, id, 1_000).unwrap();
    assert!(get_all_todos(&store).unwrap()[0].completed);
    set_todo_completion(&mut store, id, 2_000).unwrap();
    assert!(!get_all_todos(&store).unwrap()[0].completed);
}

#[test]
fn toggle_missing_id_returns_not_found() {
    let mut store = TodoStore::new();
    let r = set_todo_completion(&mut store, "0123456789abcdef01234567", 0);
    assert!(matches!(r, Err(TodoServiceError::TodoNotFound)));
}

#[test]
fn todo_from_schema_carries_fields_and_assigns_nothing() {
    let schema = TodoSchema {
        title: "t".to_string(),
        description: "d".to_string(),
        completed: true,
        priority: "p".to_string(),
        created_at: "then".to_string(),
    };
    let todo = Todo::from(schema);
    assert!(todo.id.is_none());
    assert_eq!(todo.title, "t");
    assert_eq!(todo.description, "d");
    assert!(todo.completed);
    assert_eq!(todo.priority, "p");
    assert_eq!(todo.created_at, "then");
    assert!(todo.updated_at.is_none());
}

#[test]
fn error_responses_map_to_the_documented_statuses() {
    let not_found = error_response(TodoServiceError::TodoNotFound);
    assert_eq!(not_found.status, 404);
    assert_eq!(not_found.body, "Todo not found");

    let db = error_response(TodoServiceError::DatabaseError("boom".to_string()));
    assert_eq!(db.status, 500);
    assert_eq!(db.body, "Database error: boom");

    let bad_id = error_response(TodoServiceError::InvalidObjectId(OidError::InvalidLength(3)));
    assert_eq!(bad_id.status, 400);
    assert_eq!(bad_id.body, "Invalid ObjectId: invalid hex string length");

    let mut store = TodoStore::new();
    match add_todo(&mut store, payload("", "d", "p"), 0) {
        Err(e) => {
            let ve = error_response(e);
            assert_eq!(ve.status, 400);
            assert_eq!(ve.body, "title: Title must be between 1 and 100 characters");
        },
        Ok(()) => panic!("expected a validation error"),
    }
}

#[test]
fn object_id_parsing_accepts_both_cases_and_reports_failures() {
    let oid = ObjectId::parse_str("00000000000000000000000a").unwrap();
    assert_eq!(oid.value, 10);
    let upper = ObjectId::parse_str("00000000000000000000000A").unwrap();
    assert_eq!(upper.value, 10);
    let full = ObjectId::parse_str("ffffffffffffffffffffffff").unwrap();
    assert_eq!(full.value, (1u128 << 96) - 1);
    assert_eq!(ObjectId::parse_str("abc"), Err(OidError::InvalidLength(3)));
    assert_eq!(
        ObjectId::parse_str("00000000000000000000000g"),
        Err(OidError::InvalidCharacter('g', 23))
    );
}
