//! The calendar event record, its creation payload, its validation rules,
//! and the credential shapes for the Google sync call.

use vstd::prelude::*;
use vstd::string::StrSliceExecFns;
use crate::document::{
    doc_lookup, doc_push_opt, lemma_doc_lookup_push, lemma_doc_lookup_push_opt, BsonValue,
    Document, ValueAccessError,
};
use crate::oid::ObjectId;
use crate::validation::{rendered_errors, ValidationErrors};

verus! {

/// A stored calendar event. Times are milliseconds since the epoch;
/// `id` and the timestamps are assigned by the service.
#[derive(Debug)]
pub struct CalendarEvent {
    pub id: Option<ObjectId>,
    pub title: String,
    pub description: Option<String>,
    pub start_time: i64,
    pub end_time: i64,
    pub location: Option<String>,
    pub is_all_day: bool,
    pub recurrence_rule: Option<String>,
    pub attendees: Vec<String>,
    pub color: Option<String>,
    pub created_at: i64,
    pub updated_at: i64,
}

/// What a client supplies to create an event.
#[derive(Debug)]
pub struct CalendarEventSchema {
    pub title: String,
    pub description: String,
    pub start_time: i64,
    pub end_time: i64,
    pub location: Option<String>,
    pub color_id: Option<String>,
    pub is_all_day: bool,
    pub recurrence: Option<Vec<String>>,
    pub attendees: Option<Vec<String>>,
}

/// What a client supplies to start a Google Calendar sync.
#[derive(Debug)]
pub struct GoogleCalendarCredentials {
    pub client_id: String,
    pub client_secret: String,
    pub redirect_uri: String,
}

/// An OAuth token for the Google Calendar API; `expires_at` is milliseconds
/// since the epoch.
#[derive(Debug)]
pub struct GoogleCalendarToken {
    pub access_token: String,
    pub refresh_token: String,
    pub expires_at: i64,
}

/// The write rules for an event: the start strictly before the end, a title
/// of 1 to 100 characters, and a description — when present — of 1 to 500.
pub open spec fn event_valid(e: CalendarEvent) -> bool {
    &&& e.start_time < e.end_time
    &&& 1 <= e.title@.len() <= 100
    &&& (e.description matches Some(d) ==> 1 <= d@.len() <= 500)
}

/// The failures an event payload produces, field-indexed and in field
/// order: the time order under `end_time`, the length rules under the
/// field they concern.
pub open spec fn event_field_errors(e: CalendarEvent) -> Seq<(Seq<char>, Seq<char>)> {
    let s0 = Seq::<(Seq<char>, Seq<char>)>::empty();
    let s1 = if e.start_time >= e.end_time {
        s0.push(("end_time"@, "End time must be after start time"@))
    } else {
        s0
    };
    let s2 = if !(1 <= e.title@.len() <= 100) {
        s1.push(("title"@, "length"@))
    } else {
        s1
    };
    if e.description matches Some(d) && !(1 <= d@.len() <= 500) {
        s2.push(("description"@, "length"@))
    } else {
        s2
    }
}

/// Two events with the same contents; copies of a record satisfy this even
/// when their attendee lists are distinct allocations.
pub open spec fn event_like(a: CalendarEvent, b: CalendarEvent) -> bool {
    &&& a.id == b.id
    &&& a.title == b.title
    &&& a.description == b.description
    &&& a.start_time == b.start_time
    &&& a.end_time == b.end_time
    &&& a.location == b.location
    &&& a.is_all_day == b.is_all_day
    &&& a.recurrence_rule == b.recurrence_rule
    &&& a.attendees@ == b.attendees@
    &&& a.color == b.color
    &&& a.created_at == b.created_at
    &&& a.updated_at == b.updated_at
}

impl CalendarEvent {
    /// A fresh event from its parts, with no identifier yet and both
    /// timestamps set to the clock value.
    pub fn new(
        title: String,
        description: Option<String>,
        start_time: i64,
        end_time: i64,
        location: Option<String>,
        is_all_day: bool,
        recurrence_rule: Option<String>,
        attendees: Vec<String>,
        color: Option<String>,
        now_millis: i64,
    ) -> (e: CalendarEvent)
        ensures
            e.id is None,
            e.title == title,
            e.description == description,
            e.start_time == start_time,
            e.end_time == end_time,
            e.location == location,
            e.is_all_day == is_all_day,
            e.recurrence_rule == recurrence_rule,
            e.attendees == attendees,
            e.color == color,
            e.created_at == now_millis,
            e.updated_at == now_millis,
    {
        CalendarEvent {
            id: None,
            title,
            description,
            start_time,
            end_time,
            location,
            is_all_day,
            recurrence_rule,
            attendees,
            color,
            created_at: now_millis,
            updated_at: now_millis,
        }
    }

    /// A payload becomes an event: its description always present, no
    /// recurrence rule yet, an empty attendee list when none was given, and
    /// both timestamps set to the clock value.
    pub fn from_schema(schema: CalendarEventSchema, now_millis: i64) -> (e: CalendarEvent)
        ensures
            e.id is None,
            e.title == schema.title,
            e.description == Some(schema.description),
            e.start_time == schema.start_time,
            e.end_time == schema.end_time,
            e.location == schema.location,
            e.is_all_day == schema.is_all_day,
            e.recurrence_rule is None,
            (match schema.attendees {
                Some(v) => e.attendees == v,
                None => e.attendees@ == Seq::<String>::empty(),
            }),
            e.color == schema.color_id,
            e.created_at == now_millis,
            e.updated_at == now_millis,
    {
        CalendarEvent {
            id: None,
            title: schema.title,
            description: Some(schema.description),
            start_time: schema.start_time,
            end_time: schema.end_time,
            location: schema.location,
            is_all_day: schema.is_all_day,
            recurrence_rule: None,
            attendees: match schema.attendees {
                Some(v) => v,
                None => Vec::new(),
            },
            color: schema.color_id,
            created_at: now_millis,
            updated_at: now_millis,
        }
    }

    /// Checks the write rules and reports every broken one, indexed by the
    /// field it concerns.
    pub fn validation_errors(&self) -> (ve: ValidationErrors)
        ensures
            ve@ == event_field_errors(*self),
            ve@.len() == 0 <==> event_valid(*self),
    {
        let mut ve = ValidationErrors::new();
        if self.start_time >= self.end_time {
            ve.push("end_time", "End time must be after start time");
        }
        let title_len = self.title.as_str().unicode_len();
        if title_len < 1 || title_len > 100 {
            ve.push("title", "length");
        }
        let desc_bad = match &self.description {
            Some(d) => {
                let l = d.as_str().unicode_len();
                l < 1 || l > 500
            },
            None => false,
        };
        if desc_bad {
            ve.push("description", "length");
        }
        ve
    }

    /// Checks the write rules. A start at or after the end is reported
    /// alone; otherwise the field failures are rendered as one line.
    pub fn validate(&self) -> (r: Result<(), String>)
        ensures
            match r {
                Ok(()) => event_valid(*self),
                Err(m) => !event_valid(*self) && (if self.start_time >= self.end_time {
                    m@ == "End time must be after start time"@
                } else {
                    m@ == rendered_errors(event_field_errors(*self))
                }),
            },
    {
        if self.start_time >= self.end_time {
            return Err("End time must be after start time".to_owned());
        }
        let mut ve = ValidationErrors::new();
        let title_len = self.title.as_str().unicode_len();
        if title_len < 1 || title_len > 100 {
            ve.push("title", "length");
        }
        let desc_bad = match &self.description {
            Some(d) => {
                let l = d.as_str().unicode_len();
                l < 1 || l > 500
            },
            None => false,
        };
        if desc_bad {
            ve.push("description", "length");
        }
        if ve.is_empty() {
            Ok(())
        } else {
            Err(ve.message())
        }
    }

    /// A copy of the record with the same contents.
    pub fn duplicate(&self) -> (e: CalendarEvent)
        ensures
            event_like(e, *self),
    {
        let attendees = self.attendees.clone();
        proof {
            assert forall|i: int| 0 <= i < attendees@.len() implies attendees@[i]
                == self.attendees@[i] by {
                assert(cloned::<String>(self.attendees@[i], attendees@[i]));
            }
            assert(attendees@ =~= self.attendees@);
        }
        CalendarEvent {
            id: self.id,
            title: self.title.clone(),
            description: match &self.description {
                Some(s) => Some(s.clone()),
                None => None,
            },
            start_time: self.start_time,
            end_time: self.end_time,
            location: match &self.location {
                Some(s) => Some(s.clone()),
                None => None,
            },
            is_all_day: self.is_all_day,
            recurrence_rule: match &self.recurrence_rule {
                Some(s) => Some(s.clone()),
                None => None,
            },
            attendees,
            color: match &self.color {
                Some(s) => Some(s.clone()),
                None => None,
            },
            created_at: self.created_at,
            updated_at: self.updated_at,
        }
    }
}

/// An optional text as an optional field value.
pub open spec fn opt_str_value(s: Option<String>) -> Option<BsonValue> {
    match s {
        Some(t) => Some(BsonValue::String(t)),
        None => None,
    }
}

/// An optional identifier as an optional field value.
pub open spec fn opt_oid_value(o: Option<ObjectId>) -> Option<BsonValue> {
    match o {
        Some(oid) => Some(BsonValue::ObjectId(oid)),
        None => None,
    }
}

/// The document an event is written as: optional fields appear only when
/// present, times are stored as timestamps, and the attendee list as a text
/// list.
pub open spec fn event_doc(e: CalendarEvent) -> Seq<(Seq<char>, BsonValue)> {
    let s0 = Seq::<(Seq<char>, BsonValue)>::empty();
    let s1 = doc_push_opt(s0, "_id"@, opt_oid_value(e.id));
    let s2 = s1.push(("title"@, BsonValue::String(e.title)));
    let s3 = doc_push_opt(s2, "description"@, opt_str_value(e.description));
    let s4 = s3.push(("start_time"@, BsonValue::DateTime(e.start_time)));
    let s5 = s4.push(("end_time"@, BsonValue::DateTime(e.end_time)));
    let s6 = doc_push_opt(s5, "location"@, opt_str_value(e.location));
    let s7 = s6.push(("is_all_day"@, BsonValue::Boolean(e.is_all_day)));
    let s8 = doc_push_opt(s7, "recurrence_rule"@, opt_str_value(e.recurrence_rule));
    let s9 = s8.push(("attendees"@, BsonValue::StringArray(e.attendees)));
    let s10 = doc_push_opt(s9, "color"@, opt_str_value(e.color));
    let s11 = s10.push(("created_at"@, BsonValue::DateTime(e.created_at)));
    s11.push(("updated_at"@, BsonValue::DateTime(e.updated_at)))
}

/// A required timestamp field: absent or of another type, it is the error a
/// read reports.
pub open spec fn doc_req_datetime(d: Seq<(Seq<char>, BsonValue)>, key: Seq<char>) -> Result<
    i64,
    ValueAccessError,
> {
    match doc_lookup(d, key) {
        Some(BsonValue::DateTime(t)) => Ok(t),
        Some(_) => Err(ValueAccessError::UnexpectedType),
        None => Err(ValueAccessError::NotPresent),
    }
}

/// A required text field.
pub open spec fn doc_req_str(d: Seq<(Seq<char>, BsonValue)>, key: Seq<char>) -> Result<
    String,
    ValueAccessError,
> {
    match doc_lookup(d, key) {
        Some(BsonValue::String(s)) => Ok(s),
        Some(_) => Err(ValueAccessError::UnexpectedType),
        None => Err(ValueAccessError::NotPresent),
    }
}

/// A required flag field.
pub open spec fn doc_req_bool(d: Seq<(Seq<char>, BsonValue)>, key: Seq<char>) -> Result<
    bool,
    ValueAccessError,
> {
    match doc_lookup(d, key) {
        Some(BsonValue::Boolean(b)) => Ok(b),
        Some(_) => Err(ValueAccessError::UnexpectedType),
        None => Err(ValueAccessError::NotPresent),
    }
}

/// A required text-list field.
pub open spec fn doc_req_str_array(d: Seq<(Seq<char>, BsonValue)>, key: Seq<char>) -> Result<
    Seq<String>,
    ValueAccessError,
> {
    match doc_lookup(d, key) {
        Some(BsonValue::StringArray(v)) => Ok(v@),
        Some(_) => Err(ValueAccessError::UnexpectedType),
        None => Err(ValueAccessError::NotPresent),
    }
}

/// An optional text field: absent or of another type, it reads as absent.
pub open spec fn doc_opt_str(d: Seq<(Seq<char>, BsonValue)>, key: Seq<char>) -> Option<String> {
    match doc_lookup(d, key) {
        Some(BsonValue::String(s)) => Some(s),
        _ => None,
    }
}

/// An optional identifier field: absent or of another type, it reads as
/// absent.
pub open spec fn doc_opt_oid(d: Seq<(Seq<char>, BsonValue)>, key: Seq<char>) -> Option<ObjectId> {
    match doc_lookup(d, key) {
        Some(BsonValue::ObjectId(oid)) => Some(oid),
        _ => None,
    }
}

/// Whether a document decodes to an event: the four timestamps, the title,
/// the all-day flag and the attendee list must be present with their types;
/// everything else is optional.
pub open spec fn doc_decodes_to_event(d: Seq<(Seq<char>, BsonValue)>) -> bool {
    &&& doc_req_datetime(d, "start_time"@) is Ok
    &&& doc_req_datetime(d, "end_time"@) is Ok
    &&& doc_req_datetime(d, "created_at"@) is Ok
    &&& doc_req_datetime(d, "updated_at"@) is Ok
    &&& doc_req_str(d, "title"@) is Ok
    &&& doc_req_bool(d, "is_all_day"@) is Ok
    &&& doc_req_str_array(d, "attendees"@) is Ok
}

/// The first error a decode reports, in the order the fields are read.
pub open spec fn doc_decode_error(d: Seq<(Seq<char>, BsonValue)>) -> ValueAccessError {
    if doc_req_datetime(d, "start_time"@) is Err {
        doc_req_datetime(d, "start_time"@)->Err_0
    } else if doc_req_datetime(d, "end_time"@) is Err {
        doc_req_datetime(d, "end_time"@)->Err_0
    } else if doc_req_datetime(d, "created_at"@) is Err {
        doc_req_datetime(d, "created_at"@)->Err_0
    } else if doc_req_datetime(d, "updated_at"@) is Err {
        doc_req_datetime(d, "updated_at"@)->Err_0
    } else if doc_req_str(d, "title"@) is Err {
        doc_req_str(d, "title"@)->Err_0
    } else if doc_req_bool(d, "is_all_day"@) is Err {
        doc_req_bool(d, "is_all_day"@)->Err_0
    } else {
        doc_req_str_array(d, "attendees"@)->Err_0
    }
}

impl CalendarEvent {
    /// Writes the event as a document.
    pub fn to_document(self) -> (d: Document)
        ensures
            d@ == event_doc(self),
    {
        let mut d = Document::new();
        if let Some(oid) = self.id {
            d.insert("_id", BsonValue::ObjectId(oid));
        }
        d.insert("title", BsonValue::String(self.title));
        if let Some(desc) = self.description {
            d.insert("description", BsonValue::String(desc));
        }
        d.insert("start_time", BsonValue::DateTime(self.start_time));
        d.insert("end_time", BsonValue::DateTime(self.end_time));
        if let Some(l) = self.location {
            d.insert("location", BsonValue::String(l));
        }
        d.insert("is_all_day", BsonValue::Boolean(self.is_all_day));
        if let Some(rr) = self.recurrence_rule {
            d.insert("recurrence_rule", BsonValue::String(rr));
        }
        d.insert("attendees", BsonValue::StringArray(self.attendees));
        if let Some(c) = self.color {
            d.insert("color", BsonValue::String(c));
        }
        d.insert("created_at", BsonValue::DateTime(self.created_at));
        d.insert("updated_at", BsonValue::DateTime(self.updated_at));
        d
    }

    /// Reads an event back from a document. The required fields must be
    /// present with their types; the attendee list is copied.
    pub fn from_document(doc: &Document) -> (r: Result<CalendarEvent, ValueAccessError>)
        ensures
            match r {
                Ok(e) => doc_decodes_to_event(doc@) && e.id == doc_opt_oid(doc@, "_id"@) && e.title
                    == doc_req_str(doc@, "title"@)->Ok_0 && e.description == doc_opt_str(
                    doc@,
                    "description"@,
                ) && e.start_time == doc_req_datetime(doc@, "start_time"@)->Ok_0 && e.end_time
                    == doc_req_datetime(doc@, "end_time"@)->Ok_0 && e.location == doc_opt_str(
                    doc@,
                    "location"@,
                ) && e.is_all_day == doc_req_bool(doc@, "is_all_day"@)->Ok_0 && e.recurrence_rule
                    == doc_opt_str(doc@, "recurrence_rule"@) && e.attendees@ == doc_req_str_array(
                    doc@,
                    "attendees"@,
                )->Ok_0 && e.color == doc_opt_str(doc@, "color"@) && e.created_at
                    == doc_req_datetime(doc@, "created_at"@)->Ok_0 && e.updated_at
                    == doc_req_datetime(doc@, "updated_at"@)->Ok_0,
                Err(err) => !doc_decodes_to_event(doc@) && err == doc_decode_error(doc@),
            },
    {
        let start_time = match doc.get_datetime("start_time") {
            Ok(t) => t,
            Err(e) => {
                return Err(e);
            },
        };
        let end_time = match doc.get_datetime("end_time") {
            Ok(t) => t,
            Err(e) => {
                return Err(e);
            },
        };
        let created_at = match doc.get_datetime("created_at") {
            Ok(t) => t,
            Err(e) => {
                return Err(e);
            },
        };
        let updated_at = match doc.get_datetime("updated_at") {
            Ok(t) => t,
            Err(e) => {
                return Err(e);
            },
        };
        let title = match doc.get_str("title") {
            Ok(s) => s.clone(),
            Err(e) => {
                return Err(e);
            },
        };
        let is_all_day = match doc.get_bool("is_all_day") {
            Ok(b) => b,
            Err(e) => {
                return Err(e);
            },
        };
        let attendees = match doc.get_array("attendees") {
            Ok(v) => v,
            Err(e) => {
                return Err(e);
            },
        };
        let id = match doc.get_object_id("_id") {
            Ok(oid) => Some(oid),
            Err(_) => None,
        };
        let description = match doc.get_str("description") {
            Ok(s) => Some(s.clone()),
            Err(_) => None,
        };
        let location = match doc.get_str("location") {
            Ok(s) => Some(s.clone()),
            Err(_) => None,
        };
        let recurrence_rule = match doc.get_str("recurrence_rule") {
            Ok(s) => Some(s.clone()),
            Err(_) => None,
        };
        let color = match doc.get_str("color") {
            Ok(s) => Some(s.clone()),
            Err(_) => None,
        };
        Ok(
            CalendarEvent {
                id,
                title,
                description,
                start_time,
                end_time,
                location,
                is_all_day,
                recurrence_rule,
                attendees,
                color,
                created_at,
                updated_at,
            },
        )
    }
}

/// Writing an event as a document and reading it back yields the event:
/// the document round trip loses nothing.
pub proof fn lemma_event_document_roundtrip(e: CalendarEvent)
    ensures
        doc_decodes_to_event(event_doc(e)),
        doc_opt_oid(event_doc(e), "_id"@) == e.id,
        doc_req_str(event_doc(e), "title"@) == Ok::<String, ValueAccessError>(e.title),
        doc_opt_str(event_doc(e), "description"@) == e.description,
        doc_req_datetime(event_doc(e), "start_time"@) == Ok::<i64, ValueAccessError>(e.start_time),
        doc_req_datetime(event_doc(e), "end_time"@) == Ok::<i64, ValueAccessError>(e.end_time),
        doc_opt_str(event_doc(e), "location"@) == e.location,
        doc_req_bool(event_doc(e), "is_all_day"@) == Ok::<bool, ValueAccessError>(e.is_all_day),
        doc_opt_str(event_doc(e), "recurrence_rule"@) == e.recurrence_rule,
        doc_req_str_array(event_doc(e), "attendees"@) == Ok::<Seq<String>, ValueAccessError>(
            e.attendees@,
        ),
        doc_opt_str(event_doc(e), "color"@) == e.color,
        doc_req_datetime(event_doc(e), "created_at"@) == Ok::<i64, ValueAccessError>(e.created_at),
        doc_req_datetime(event_doc(e), "updated_at"@) == Ok::<i64, ValueAccessError>(e.updated_at),
{
    reveal_strlit("_id");
    reveal_strlit("title");
    reveal_strlit("description");
    reveal_strlit("start_time");
    reveal_strlit("end_time");
    reveal_strlit("location");
    reveal_strlit("is_all_day");
    reveal_strlit("recurrence_rule");
    reveal_strlit("attendees");
    reveal_strlit("color");
    reveal_strlit("created_at");
    reveal_strlit("updated_at");
    assert forall|d: Seq<(Seq<char>, BsonValue)>, entry: (Seq<char>, BsonValue), key: Seq<char>|
        #[trigger] doc_lookup(d.push(entry), key) == (if entry.0 == key {
            Some(entry.1)
        } else {
            doc_lookup(d, key)
        }) by {
        lemma_doc_lookup_push(d, entry, key);
    }
    assert forall|d: Seq<(Seq<char>, BsonValue)>, key: Seq<char>, v: Option<BsonValue>, key2: Seq<char>|
        #[trigger] doc_lookup(doc_push_opt(d, key, v), key2) == (if key == key2 && v is Some {
            Some(v->0)
        } else {
            doc_lookup(d, key2)
        }) by {
        lemma_doc_lookup_push_opt(d, key, v, key2);
    }
    let d = event_doc(e);
    assert("_id"@.len() == 3);
    assert("title"@.len() == 5 && "title"@[0] == 't');
    assert("color"@.len() == 5 && "color"@[0] == 'c');
    assert("end_time"@.len() == 8 && "end_time"@[0] == 'e');
    assert("location"@.len() == 8 && "location"@[0] == 'l');
    assert("attendees"@.len() == 9);
    assert("start_time"@.len() == 10 && "start_time"@[0] == 's');
    assert("is_all_day"@.len() == 10 && "is_all_day"@[0] == 'i');
    assert("created_at"@.len() == 10 && "created_at"@[0] == 'c');
    assert("updated_at"@.len() == 10 && "updated_at"@[0] == 'u');
    assert("description"@.len() == 11);
    assert("recurrence_rule"@.len() == 15);
    assert(doc_lookup(d, "updated_at"@) == Some(BsonValue::DateTime(e.updated_at)));
    assert(doc_lookup(d, "created_at"@) == Some(BsonValue::DateTime(e.created_at)));
    assert(doc_lookup(d, "color"@) == opt_str_value(e.color));
    assert(doc_lookup(d, "attendees"@) == Some(BsonValue::StringArray(e.attendees)));
    assert(doc_lookup(d, "recurrence_rule"@) == opt_str_value(e.recurrence_rule));
    assert(doc_lookup(d, "is_all_day"@) == Some(BsonValue::Boolean(e.is_all_day)));
    assert(doc_lookup(d, "location"@) == opt_str_value(e.location));
    assert(doc_lookup(d, "end_time"@) == Some(BsonValue::DateTime(e.end_time)));
    assert(doc_lookup(d, "start_time"@) == Some(BsonValue::DateTime(e.start_time)));
    assert(doc_lookup(d, "description"@) == opt_str_value(e.description));
    assert(doc_lookup(d, "title"@) == Some(BsonValue::String(e.title)));
    assert(doc_lookup(d, "_id"@) == opt_oid_value(e.id));
}

} // verus!
