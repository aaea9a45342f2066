//! The note record and its validation rules.

use vstd::prelude::*;
use vstd::string::StrSliceExecFns;
use crate::oid::ObjectId;
use crate::validation::ValidationErrors;

verus! {

/// A stored note. `id` and the timestamps are assigned by the service.
#[derive(Debug)]
pub struct Note {
    pub id: Option<ObjectId>,
    pub title: String,
    pub content: String,
    pub created_at: Option<String>,
    pub updated_at: Option<String>,
    pub tags: Option<Vec<String>>,
    pub is_archived: Option<bool>,
    pub user_id: Option<String>,
}

/// The write rules for a note: a title of 1 to 100 characters and a
/// non-empty content.
pub open spec fn note_valid(n: Note) -> bool {
    &&& 1 <= n.title@.len() <= 100
    &&& n.content@.len() >= 1
}

/// The failures a note payload produces, in field order.
pub open spec fn note_field_errors(n: Note) -> Seq<(Seq<char>, Seq<char>)> {
    let s0 = Seq::<(Seq<char>, Seq<char>)>::empty();
    let s1 = if !(1 <= n.title@.len() <= 100) {
        s0.push(("title"@, "Title must be between 1 and 100 characters"@))
    } else {
        s0
    };
    if n.content@.len() < 1 {
        s1.push(("content"@, "Content cannot be empty"@))
    } else {
        s1
    }
}

/// The contents of an optional tag list, for comparing copies of a note.
pub open spec fn tags_view(t: Option<Vec<String>>) -> Option<Seq<String>> {
    match t {
        Some(v) => Some(v@),
        None => None,
    }
}

/// Two notes with the same contents; copies of a record satisfy this even
/// when their tag lists are distinct allocations.
pub open spec fn note_like(a: Note, b: Note) -> bool {
    &&& a.id == b.id
    &&& a.title == b.title
    &&& a.content == b.content
    &&& a.created_at == b.created_at
    &&& a.updated_at == b.updated_at
    &&& tags_view(a.tags) == tags_view(b.tags)
    &&& a.is_archived == b.is_archived
    &&& a.user_id == b.user_id
}

impl Note {
    /// A fresh note from a title and a content: no identifier or timestamps
    /// yet, no tags, not archived.
    pub fn new(title: String, content: String) -> (n: Note)
        ensures
            n.id is None,
            n.title == title,
            n.content == content,
            n.created_at is None,
            n.updated_at is None,
            n.tags matches Some(v) && v@ == Seq::<String>::empty(),
            n.is_archived == Some(false),
            n.user_id is None,
    {
        Note {
            id: None,
            title,
            content,
            created_at: None,
            updated_at: None,
            tags: Some(Vec::new()),
            is_archived: Some(false),
            user_id: None,
        }
    }

    /// Checks the write rules; on failure reports every broken rule,
    /// indexed by field.
    pub fn validate(&self) -> (r: Result<(), ValidationErrors>)
        ensures
            match r {
                Ok(()) => note_valid(*self),
                Err(ve) => !note_valid(*self) && ve@ == note_field_errors(*self),
            },
    {
        let mut ve = ValidationErrors::new();
        let title_len = self.title.as_str().unicode_len();
        if title_len < 1 || title_len > 100 {
            ve.push("title", "Title must be between 1 and 100 characters");
        }
        if self.content.as_str().unicode_len() < 1 {
            ve.push("content", "Content cannot be empty");
        }
        if ve.is_empty() {
            Ok(())
        } else {
            Err(ve)
        }
    }

    /// A copy of the record with the same contents.
    pub fn duplicate(&self) -> (n: Note)
        ensures
            note_like(n, *self),
    {
        let tags: Option<Vec<String>> = match &self.tags {
            Some(v) => {
                let w = v.clone();
                proof {
                    assert forall|i: int| 0 <= i < w@.len() implies w@[i] == v@[i] by {
                        assert(cloned::<String>(v@[i], w@[i]));
                    }
                    assert(w@ =~= v@);
                }
                Some(w)
            },
            None => None,
        };
        Note {
            id: self.id,
            title: self.title.clone(),
            content: self.content.clone(),
            created_at: match &self.created_at {
                Some(s) => Some(s.clone()),
                None => None,
            },
            updated_at: match &self.updated_at {
                Some(s) => Some(s.clone()),
                None => None,
            },
            tags,
            is_archived: self.is_archived,
            user_id: match &self.user_id {
                Some(s) => Some(s.clone()),
                None => None,
            },
        }
    }
}

} // verus!
