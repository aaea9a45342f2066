use organise::calendar::{CalendarEvent, CalendarEventSchema, GoogleCalendarCredentials,
    GoogleCalendarToken};
use organise::calendar_service::{
    add_event, error_response, get_all_events, get_events_by_date_range, google_sync_request,
    remove_event, sync_with_google_calendar, update_event, CalendarServiceError, CalendarStore,
    GoogleSyncOutcome,
};
use organise::document::ValueAccessError;

const HOUR: i64 = 3_600_000;

fn event(title: &str, start_time: i64, end_time: i64) -> CalendarEvent {
    CalendarEvent::new(
        title.to_string(),
        Some("details".to_string()),
        start_time,
        end_time,
        None,
        false,
        None,
        vec!["ann".to_string(), "ben".to_string()],
        None,
        0,
    )
}

#[test]
fn event_create_then_list_adds_exactly_one() {
    let mut store = CalendarStore::new();
    add_event(&mut store, event("standup", 10 * HOUR, 11 * HOUR), 5).unwrap();
    let all = get_all_events(&store).unwrap();
    assert_eq!(all.len(), 1);
    assert_eq!(all[0].title, "standup");
    assert_eq!(all[0].start_time, 10 * HOUR);
    assert_eq!(all[0].end_time, 11 * HOUR);
    assert_eq!(all[0].attendees, vec!["ann".to_string(), "ben".to_string()]);
    assert!(all[0].id.is_some());
    assert_eq!(all[0].created_at, 5);
    assert_eq!(all[0].updated_at, 5);
}

#[test]
fn create_with_start_at_or_after_end_is_rejected() {
    let mut store = CalendarStore::new();
    let r = add_event(&mut store, event("bad", 11 * HOUR, 10 * HOUR), 0);
    match r {
        Err(CalendarServiceError::ValidationError(ve)) => {
            assert_eq!(ve.errors.len(), 1);
            assert_eq!(ve.errors[0].field, "end_time");
            assert_eq!(ve.errors[0].message, "End time must be after start time");
        },
        _ => panic!("expected a validation error"),
    }
    let equal = add_event(&mut store, event("bad", 10 * HOUR, 10 * HOUR), 0);
    assert!(matches!(equal, Err(CalendarServiceError::ValidationError(_))));
    assert_eq!(get_all_events(&store).unwrap().len(), 0);
}

#[test]
fn create_with_overlong_description_is_rejected() {
    let mut store = CalendarStore::new();
    let mut e = event("ok", 10 * HOUR, 11 * HOUR);
    e.description = Some("z".repeat(501));
    let r = add_event(&mut store, e, 0);
    match r {
        Err(CalendarServiceError::ValidationError(ve)) => {
            assert_eq!(ve.errors.len(), 1);
            assert_eq!(ve.errors[0].field, "description");
            assert_eq!(ve.errors[0].message, "length");
        },
        _ => panic!("expected a validation error"),
    }
    assert_eq!(get_all_events(&store).unwrap().len(), 0);
}

#[test]
fn event_create_with_overlong_title_is_rejected() {
    let mut store = CalendarStore::new();
    let long = "t".repeat(101);
    let r = add_event(&mut store, event(&long, 10 * HOUR, 11 * HOUR), 0);
    match r {
        Err(CalendarServiceError::ValidationError(ve)) => {
            assert_eq!(ve.errors.len(), 1);
            assert_eq!(ve.errors[0].field, "title");
            assert_eq!(ve.errors[0].message, "length");
        },
        _ => panic!("expected a validation error"),
    }
    assert_eq!(get_all_events(&store).unwrap().len(), 0);
}

#[test]
fn event_create_collects_every_broken_rule_in_field_order() {
    let mut store = CalendarStore::new();
    let mut e = event("", 2 * HOUR, HOUR);
    e.description = Some("z".repeat(501));
    match add_event(&mut store, e, 0) {
        Err(CalendarServiceError::ValidationError(ve)) => {
            let fields: Vec<&str> = ve.errors.iter().map(|f| f.field.as_str()).collect();
            assert_eq!(fields, vec!["end_time", "title", "description"]);
        },
        _ => panic!("expected a validation error"),
    }
    assert_eq!(get_all_events(&store).unwrap().len(), 0);
}

#[test]
fn event_update_with_bad_times_is_rejected_and_store_unchanged() {
    let mut store = CalendarStore::new();
    add_event(&mut store, event("keep", 10 * HOUR, 11 * HOUR), 0).unwrap();
    let r = update_event(&mut store, "000000000000000000000000", event("new", 2 * HOUR, HOUR), 0);
    match r {
        Err(CalendarServiceError::ValidationError(ve)) => {
            assert_eq!(ve.errors.len(), 1);
            assert_eq!(ve.errors[0].field, "end_time");
        },
        _ => panic!("expected a validation error"),
    }
    let all = get_all_events(&store).unwrap();
    assert_eq!(all.len(), 1);
    assert_eq!(all[0].title, "keep");
}

#[test]
fn range_query_sees_every_kind_of_overlap() {
    // The event runs 10:00 to 11:00 on the first day of the epoch.
    let mut store = CalendarStore::new();
    add_event(&mut store, event("meeting", 10 * HOUR, 11 * HOUR), 0).unwrap();

    let fully_inside = get_events_by_date_range(&store, 9 * HOUR, 12 * HOUR).unwrap();
    assert_eq!(fully_inside.len(), 1);

    let overlap_at_start = get_events_by_date_range(&store, 10 * HOUR + HOUR / 2, 13 * HOUR)
        .unwrap();
    assert_eq!(overlap_at_start.len(), 1);

    let overlap_at_end = get_events_by_date_range(&store, 8 * HOUR, 10 * HOUR + HOUR / 2).unwrap();
    assert_eq!(overlap_at_end.len(), 1);

    let next_day = get_events_by_date_range(&store, 24 * HOUR, 25 * HOUR).unwrap();
    assert_eq!(next_day.len(), 0);
}

#[test]
fn range_query_includes_an_event_that_contains_the_range() {
    let mut store = CalendarStore::new();
    add_event(&mut store, event("all morning", 8 * HOUR, 12 * HOUR), 0).unwrap();
    let inside = get_events_by_date_range(&store, 9 * HOUR, 10 * HOUR).unwrap();
    assert_eq!(inside.len(), 1);
}

#[test]
fn event_update_missing_id_returns_not_found_and_inserts_nothing() {
    let mut store = CalendarStore::new();
    let r = update_event(&mut store, "0123456789abcdef01234567", event("a", 0, HOUR), 0);
    assert!(matches!(r, Err(CalendarServiceError::EventNotFound)));
    assert_eq!(get_all_events(&store).unwrap().len(), 0);
}

#[test]
fn event_update_replaces_writable_fields_and_keeps_creation_stamp() {
    let mut store = CalendarStore::new();
    add_event(&mut store, event("old", 10 * HOUR, 11 * HOUR), 5).unwrap();
    let r = update_event(&mut store, "000000000000000000000000", event("new", 12 * HOUR, 13 * HOUR), 9);
    assert!(r.is_ok());
    let all = get_all_events(&store).unwrap();
    assert_eq!(all[0].title, "new");
    assert_eq!(all[0].start_time, 12 * HOUR);
    assert_eq!(all[0].end_time, 13 * HOUR);
    assert_eq!(all[0].created_at, 5);
    assert_eq!(all[0].updated_at, 9);
}

#[test]
fn event_delete_is_idempotent_in_effect() {
    let mut store = CalendarStore::new();
    add_event(&mut store, event("a", 0, HOUR), 0).unwrap();
    let id = "000000000000000000000000";
    assert!(remove_event(&mut store, id).is_ok());
    let second = remove_event(&mut store, id);
    assert!(matches!(second, Err(CalendarServiceError::EventNotFound)));
}

#[test]
fn schema_becomes_an_event_with_defaults() {
    let schema = CalendarEventSchema {
        title: "party".to_string(),
        description: "cake".to_string(),
        start_time: HOUR,
        end_time: 2 * HOUR,
        location: Some("home".to_string()),
        color_id: Some("red".to_string()),
        is_all_day: false,
        recurrence: Some(vec!["weekly".to_string()]),
        attendees: None,
    };
    let e = CalendarEvent::from_schema(schema, 7);
    assert!(e.id.is_none());
    assert_eq!(e.title, "party");
    assert_eq!(e.description.as_deref(), Some("cake"));
    assert_eq!(e.location.as_deref(), Some("home"));
    assert_eq!(e.color.as_deref(), Some("red"));
    assert!(e.recurrence_rule.is_none());
    assert!(e.attendees.is_empty());
    assert_eq!(e.created_at, 7);
    assert_eq!(e.updated_at, 7);
}

#[test]
fn validate_reports_the_time_order_first() {
    let e = event("ok", 2 * HOUR, HOUR);
    assert_eq!(e.validate(), Err("End time must be after start time".to_string()));
    let mut bad_title = event("", HOUR, 2 * HOUR);
    bad_title.description = Some("z".repeat(501));
    assert_eq!(bad_title.validate(), Err("title: length; description: length".to_string()));
}

#[test]
fn document_round_trip_keeps_every_field() {
    let mut e = event("sync", 10 * HOUR, 11 * HOUR);
    e.location = Some("office".to_string());
    e.recurrence_rule = Some("daily".to_string());
    e.color = Some("blue".to_string());
    let copy = e.duplicate();
    let doc = e.to_document();
    let back = CalendarEvent::from_document(&doc).unwrap();
    assert_eq!(back.title, copy.title);
    assert_eq!(back.description, copy.description);
    assert_eq!(back.start_time, copy.start_time);
    assert_eq!(back.end_time, copy.end_time);
    assert_eq!(back.location, copy.location);
    assert_eq!(back.is_all_day, copy.is_all_day);
    assert_eq!(back.recurrence_rule, copy.recurrence_rule);
    assert_eq!(back.attendees, copy.attendees);
    assert_eq!(back.color, copy.color);
    assert_eq!(back.created_at, copy.created_at);
    assert_eq!(back.updated_at, copy.updated_at);
    assert!(back.id.is_none());
}

#[test]
fn document_without_a_required_field_does_not_decode() {
    let e = event("sync", 10 * HOUR, 11 * HOUR);
    let mut doc = e.to_document();
    // Shadow the title with a value of the wrong type.
    doc.insert("title", organise::document::BsonValue::Boolean(true));
    assert!(matches!(CalendarEvent::from_document(&doc), Err(ValueAccessError::UnexpectedType)));

    let empty = organise::document::Document::new();
    assert!(matches!(CalendarEvent::from_document(&empty), Err(ValueAccessError::NotPresent)));
}

#[test]
fn sync_reports_what_the_outbound_call_returned() {
    let ok = sync_with_google_calendar(GoogleSyncOutcome::Responded(true, "200 OK".to_string()));
    assert!(ok.is_ok());

    let denied = sync_with_google_calendar(GoogleSyncOutcome::Responded(
        false,
        "403 Forbidden".to_string(),
    ));
    match denied {
        Err(CalendarServiceError::GoogleApiError(m)) => {
            assert_eq!(m, "Google API returned error: 403 Forbidden");
        },
        _ => panic!("expected a Google API error"),
    }

    let failed = sync_with_google_calendar(GoogleSyncOutcome::SendFailed("no route".to_string()));
    match failed {
        Err(CalendarServiceError::GoogleApiError(m)) => assert_eq!(m, "no route"),
        _ => panic!("expected a Google API error"),
    }
}

#[test]
fn sync_request_names_the_primary_calendar_and_bears_the_token() {
    let credentials = GoogleCalendarCredentials {
        client_id: "id".to_string(),
        client_secret: "secret".to_string(),
        redirect_uri: "http://localhost/cb".to_string(),
    };
    let token = GoogleCalendarToken {
        access_token: "tok123".to_string(),
        refresh_token: "ref456".to_string(),
        expires_at: 0,
    };
    let (url, auth) = google_sync_request(&credentials, &token);
    assert_eq!(url, "https://www.googleapis.com/calendar/v3/calendars/primary/events");
    assert_eq!(auth, "Bearer tok123");
}

#[test]
fn event_error_responses_map_to_the_documented_statuses() {
    let nf = error_response(CalendarServiceError::EventNotFound);
    assert_eq!(nf.status, 404);
    assert_eq!(nf.body, "Event not found");
    let api = error_response(CalendarServiceError::GoogleApiError("quota".to_string()));
    assert_eq!(api.status, 500);
    assert_eq!(api.body, "Google Calendar API error: quota");
    let auth = error_response(CalendarServiceError::AuthError("expired".to_string()));
    assert_eq!(auth.status, 401);
    assert_eq!(auth.body, "Authentication error: expired");
}
