//! The todo record, its creation payload, and its validation rules.

use vstd::prelude::*;
use vstd::string::StrSliceExecFns;
use crate::oid::ObjectId;
use crate::validation::ValidationErrors;

verus! {

/// A stored todo. `id` and the timestamps are assigned by the service;
/// a payload's values for them are ignored on write.
#[derive(Debug)]
pub struct Todo {
    pub id: Option<ObjectId>,
    pub title: String,
    pub description: String,
    pub completed: bool,
    pub priority: String,
    pub created_at: String,
    pub updated_at: Option<String>,
}

/// What a client supplies to create or replace a todo.
#[derive(Debug)]
pub struct TodoSchema {
    pub title: String,
    pub description: String,
    pub completed: bool,
    pub priority: String,
    pub created_at: String,
}

/// The write rules for a todo: a title of 1 to 100 characters, and a
/// non-empty description and priority.
pub open spec fn todo_valid(t: Todo) -> bool {
    &&& 1 <= t.title@.len() <= 100
    &&& t.description@.len() >= 1
    &&& t.priority@.len() >= 1
}

/// The failures a todo payload produces, in field order.
pub open spec fn todo_field_errors(t: Todo) -> Seq<(Seq<char>, Seq<char>)> {
    let s0 = Seq::<(Seq<char>, Seq<char>)>::empty();
    let s1 = if !(1 <= t.title@.len() <= 100) {
        s0.push(("title"@, "Title must be between 1 and 100 characters"@))
    } else {
        s0
    };
    let s2 = if t.description@.len() < 1 {
        s1.push(("description"@, "Description cannot be empty"@))
    } else {
        s1
    };
    if t.priority@.len() < 1 {
        s2.push(("priority"@, "Priority cannot be empty"@))
    } else {
        s2
    }
}

impl Todo {
    /// Checks the write rules; on failure reports every broken rule,
    /// indexed by field.
    pub fn validate(&self) -> (r: Result<(), ValidationErrors>)
        ensures
            match r {
                Ok(()) => todo_valid(*self),
                Err(ve) => !todo_valid(*self) && ve@ == todo_field_errors(*self),
            },
    {
        let mut ve = ValidationErrors::new();
        let title_len = self.title.as_str().unicode_len();
        if title_len < 1 || title_len > 100 {
            ve.push("title", "Title must be between 1 and 100 characters");
        }
        if self.description.as_str().unicode_len() < 1 {
            ve.push("description", "Description cannot be empty");
        }
        if self.priority.as_str().unicode_len() < 1 {
            ve.push("priority", "Priority cannot be empty");
        }
        if ve.is_empty() {
            Ok(())
        } else {
            Err(ve)
        }
    }

    /// An equal copy of the record.
    pub fn duplicate(&self) -> (t: Todo)
        ensures
            t == *self,
    {
        Todo {
            id: self.id,
            title: self.title.clone(),
            description: self.description.clone(),
            completed: self.completed,
            priority: self.priority.clone(),
            created_at: self.created_at.clone(),
            updated_at: match &self.updated_at {
                Some(u) => Some(u.clone()),
                None => None,
            },
        }
    }
}

impl From<TodoSchema> for Todo {
    /// A payload becomes a record with no identifier and no update stamp yet.
    fn from(schema: TodoSchema) -> (t: Todo) {
        Todo {
            id: None,
            title: schema.title,
            description: schema.description,
            completed: schema.completed,
            priority: schema.priority,
            created_at: schema.created_at,
            updated_at: None,
        }
    }
}

impl vstd::std_specs::convert::FromSpecImpl<TodoSchema> for Todo {
    open spec fn obeys_from_spec() -> bool {
        true
    }

    open spec fn from_spec(schema: TodoSchema) -> Todo {
        Todo {
            id: None,
            title: schema.title,
            description: schema.description,
            completed: schema.completed,
            priority: schema.priority,
            created_at: schema.created_at,
            updated_at: None,
        }
    }
}

} // verus!
