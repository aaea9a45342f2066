use organise::note::Note;
use organise::notes_service::{
    add_note, error_response, get_all_notes, remove_note, toggle_archive, update_note,
    NotesServiceError, NoteStore,
};

fn note(title: &str, content: &str) -> Note {
    Note::new(title.to_string(), content.to_string())
}

#[test]
fn new_note_has_defaults() {
    let n = note("a title", "some text");
    assert!(n.id.is_none());
    assert_eq!(n.title, "a title");
    assert_eq!(n.content, "some text");
    assert!(n.created_at.is_none());
    assert!(n.updated_at.is_none());
    assert_eq!(n.tags.map(|v| v.len()), Some(0));
    assert_eq!(n.is_archived, Some(false));
    assert!(n.user_id.is_none());
}

#[test]
fn note_create_then_list_adds_exactly_one() {
    let mut store = NoteStore::new();
    add_note(&mut store, note("shopping", "milk and eggs"), 0).unwrap();
    let all = get_all_notes(&store).unwrap();
    assert_eq!(all.len(), 1);
    assert_eq!(all[0].title, "shopping");
    assert_eq!(all[0].content, "milk and eggs");
    assert!(all[0].id.is_some());
    assert_eq!(all[0].created_at.as_deref(), Some("1970-01-01T00:00:00+00:00"));
    assert_eq!(all[0].updated_at.as_deref(), Some("1970-01-01T00:00:00+00:00"));
}

#[test]
fn create_with_empty_content_is_rejected_and_store_unchanged() {
    let mut store = NoteStore::new();
    let r = add_note(&mut store, note("title", ""), 0);
    match r {
        Err(NotesServiceError::ValidationError(ve)) => {
            assert_eq!(ve.errors.len(), 1);
            assert_eq!(ve.errors[0].field, "content");
            assert_eq!(ve.errors[0].message, "Content cannot be empty");
        },
        _ => panic!("expected a validation error"),
    }
    assert_eq!(get_all_notes(&store).unwrap().len(), 0);
}

#[test]
fn note_create_with_overlong_title_is_rejected() {
    let mut store = NoteStore::new();
    let long = "y".repeat(101);
    let r = add_note(&mut store, note(&long, "text"), 0);
    assert!(matches!(r, Err(NotesServiceError::ValidationError(_))));
    assert_eq!(get_all_notes(&store).unwrap().len(), 0);
}

#[test]
fn note_update_missing_id_returns_not_found_and_inserts_nothing() {
    let mut store = NoteStore::new();
    let r = update_note(&mut store, "0123456789abcdef01234567", note("a", "b"), 0);
    assert!(matches!(r, Err(NotesServiceError::NoteNotFound)));
    assert_eq!(get_all_notes(&store).unwrap().len(), 0);
}

#[test]
fn note_update_replaces_writable_fields_and_keeps_creation_stamp() {
    let mut store = NoteStore::new();
    add_note(&mut store, note("old", "old text"), 0).unwrap();
    let r = update_note(&mut store, "000000000000000000000000", note("new", "new text"), 60_000);
    assert!(r.is_ok());
    let all = get_all_notes(&store).unwrap();
    assert_eq!(all.len(), 1);
    assert_eq!(all[0].title, "new");
    assert_eq!(all[0].content, "new text");
    assert_eq!(all[0].created_at.as_deref(), Some("1970-01-01T00:00:00+00:00"));
    assert_eq!(all[0].updated_at.as_deref(), Some("1970-01-01T00:01:00+00:00"));
    assert_eq!(all[0].is_archived, Some(false));
}

#[test]
fn note_update_with_empty_content_is_rejected_and_store_unchanged() {
    let mut store = NoteStore::new();
    add_note(&mut store, note("keep", "keep text"), 0).unwrap();
    let r = update_note(&mut store, "000000000000000000000000", note("keep", ""), 0);
    assert!(matches!(r, Err(NotesServiceError::ValidationError(_))));
    let all = get_all_notes(&store).unwrap();
    assert_eq!(all.len(), 1);
    assert_eq!(all[0].content, "keep text");
}

#[test]
fn note_delete_is_idempotent_in_effect() {
    let mut store = NoteStore::new();
    add_note(&mut store, note("a", "b"), 0).unwrap();
    let id = "000000000000000000000000";
    assert!(remove_note(&mut store, id).is_ok());
    let second = remove_note(&mut store, id);
    assert!(matches!(second, Err(NotesServiceError::NoteNotFound)));
}

#[test]
fn archive_is_one_way() {
    let mut store = NoteStore::new();
    add_note(&mut store, note("a", "b"), 0).unwrap();
    let id = "000000000000000000000000";
    toggle_archive(&mut store, id, 1_000).unwrap();
    assert_eq!(get_all_notes(&store).unwrap()[0].is_archived, Some(true));
    toggle_archive(&mut store, id, 2_000).unwrap();
    let after_second = &get_all_notes(&store).unwrap()[0];
    assert_eq!(after_second.is_archived, Some(true));
    assert_eq!(after_second.title, "a");
    assert_eq!(after_second.updated_at.as_deref(), Some("1970-01-01T00:00:02+00:00"));
}

#[test]
fn archive_malformed_id_is_a_bad_id_error() {
    let mut store = NoteStore::new();
    let r = toggle_archive(&mut store, "nope", 0);
    assert!(matches!(r, Err(NotesServiceError::InvalidObjectId(_))));
}

#[test]
fn note_error_responses_map_to_the_documented_statuses() {
    let nf = error_response(NotesServiceError::NoteNotFound);
    assert_eq!(nf.status, 404);
    assert_eq!(nf.body, "Note not found");
    let db = error_response(NotesServiceError::DatabaseError("down".to_string()));
    assert_eq!(db.status, 500);
    assert_eq!(db.body, "Database error: down");
}
