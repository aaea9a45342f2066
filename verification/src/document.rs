//! The document shape of a stored record: named fields of plain values in
//! insertion order, as the document database holds them. A later insert of
//! a name shadows an earlier one, so a read sees the latest value.

use vstd::prelude::*;
use vstd::string::StrSliceExecFns;
use crate::oid::ObjectId;

verus! {

/// One field value of a document.
#[derive(Debug)]
pub enum BsonValue {
    String(String),
    Boolean(bool),
    DateTime(i64),
    StringArray(Vec<String>),
    ObjectId(ObjectId),
}

/// Reading a field failed: no field has the name, or the value under the
/// name has another type than the read asked for.
#[derive(Clone, Copy, PartialEq, Eq, Structural, Debug)]
pub enum ValueAccessError {
    NotPresent,
    UnexpectedType,
}

/// A document: fields in insertion order.
#[derive(Debug)]
pub struct Document {
    entries: Vec<(String, BsonValue)>,
}

impl View for Document {
    type V = Seq<(Seq<char>, BsonValue)>;

    closed spec fn view(&self) -> Seq<(Seq<char>, BsonValue)> {
        Seq::new(self.entries@.len(), |i: int| (self.entries@[i].0@, self.entries@[i].1))
    }
}

/// The value under a name: the latest entry with that name, if any.
pub open spec fn doc_lookup(d: Seq<(Seq<char>, BsonValue)>, key: Seq<char>) -> Option<BsonValue>
    decreases d.len(),
{
    if d.len() == 0 {
        None
    } else if d.last().0 == key {
        Some(d.last().1)
    } else {
        doc_lookup(d.drop_last(), key)
    }
}

/// Appending an entry makes its value the one its name looks up to, and
/// leaves every other name's lookup unchanged.
pub proof fn lemma_doc_lookup_push(
    d: Seq<(Seq<char>, BsonValue)>,
    entry: (Seq<char>, BsonValue),
    key: Seq<char>,
)
    ensures
        doc_lookup(d.push(entry), key) == (if entry.0 == key {
            Some(entry.1)
        } else {
            doc_lookup(d, key)
        }),
{
    assert(d.push(entry).drop_last() =~= d);
    assert(d.push(entry).drop_last() == d);
}

/// Appends a field only when a value is present.
pub open spec fn doc_push_opt(
    d: Seq<(Seq<char>, BsonValue)>,
    key: Seq<char>,
    v: Option<BsonValue>,
) -> Seq<(Seq<char>, BsonValue)> {
    match v {
        Some(b) => d.push((key, b)),
        None => d,
    }
}

/// What a conditional append does to lookups: a present value is found under
/// its name, and every other lookup is unchanged.
pub proof fn lemma_doc_lookup_push_opt(
    d: Seq<(Seq<char>, BsonValue)>,
    key: Seq<char>,
    v: Option<BsonValue>,
    key2: Seq<char>,
)
    ensures
        doc_lookup(doc_push_opt(d, key, v), key2) == (if key == key2 && v is Some {
            Some(v->0)
        } else {
            doc_lookup(d, key2)
        }),
{
    match v {
        Some(b) => {
            lemma_doc_lookup_push(d, (key, b), key2);
        },
        None => {},
    }
}

/// Character-wise string equality.
fn str_eq(a: &str, b: &str) -> (r: bool)
    ensures
        r == (a@ == b@),
{
    let na = a.unicode_len();
    let nb = b.unicode_len();
    if na != nb {
        return false;
    }
    let mut i: usize = 0;
    while i < na
        invariant
            i <= na,
            na == a@.len(),
            nb == b@.len(),
            na == nb,
            forall|j: int| 0 <= j < i ==> a@[j] == b@[j],
        decreases na - i,
    {
        if a.get_char(i) != b.get_char(i) {
            return false;
        }
        i += 1;
    }
    proof {
        assert(a@ =~= b@);
    }
    true
}

impl Document {
    /// A document with no fields.
    pub fn new() -> (d: Document)
        ensures
            d@ == Seq::<(Seq<char>, BsonValue)>::empty(),
    {
        let d = Document { entries: Vec::new() };
        proof {
            assert(d@ =~= Seq::<(Seq<char>, BsonValue)>::empty());
        }
        d
    }

    /// Appends a field; its value shadows any earlier entry with the name.
    pub fn insert(&mut self, key: &str, value: BsonValue)
        ensures
            final(self)@ == old(self)@.push((key@, value)),
    {
        self.entries.push((key.to_owned(), value));
        proof {
            assert(self@ =~= old(self)@.push((key@, value)));
        }
    }

    /// The number of fields, shadowed entries included.
    pub fn len(&self) -> (n: usize)
        ensures
            n == self@.len(),
    {
        self.entries.len()
    }

    /// The fields in insertion order, for writing the document out.
    pub fn fields(&self) -> (r: &Vec<(String, BsonValue)>)
        ensures
            r@.len() == self@.len(),
            forall|i: int| 0 <= i < r@.len() ==> ((#[trigger] r@[i]).0@, r@[i].1) == self@[i],
    {
        &self.entries
    }

    /// The position of the latest entry with the name, if any: the one its
    /// lookup sees.
    fn find(&self, key: &str) -> (r: Option<usize>)
        ensures
            match r {
                Some(i) => i < self@.len() && self@[i as int].0 == key@ && doc_lookup(self@, key@)
                    == Some(self@[i as int].1),
                None => doc_lookup(self@, key@) is None,
            },
    {
        let mut i = self.entries.len();
        proof {
            assert(self@.take(self@.len() as int) =~= self@);
        }
        while i > 0
            invariant
                i <= self@.len(),
                doc_lookup(self@, key@) == doc_lookup(self@.take(i as int), key@),
            decreases i,
        {
            i = i - 1;
            proof {
                assert(self@.take(i + 1).drop_last() =~= self@.take(i as int));
                assert(self@.take(i + 1).drop_last() == self@.take(i as int));
                assert(self@.take(i + 1).last() == self@[i as int]);
            }
            if str_eq(self.entries[i].0.as_str(), key) {
                return Some(i);
            }
        }
        proof {
            assert(self@.take(0) =~= Seq::<(Seq<char>, BsonValue)>::empty());
        }
        None
    }

    /// The text under the name.
    pub fn get_str(&self, key: &str) -> (r: Result<&String, ValueAccessError>)
        ensures
            match r {
                Ok(s) => doc_lookup(self@, key@) == Some(BsonValue::String(*s)),
                Err(ValueAccessError::NotPresent) => doc_lookup(self@, key@) is None,
                Err(ValueAccessError::UnexpectedType) => doc_lookup(self@, key@) matches Some(v)
                    && !(v is String),
            },
    {
        match self.find(key) {
            None => Err(ValueAccessError::NotPresent),
            Some(i) => match &self.entries[i].1 {
                BsonValue::String(s) => Ok(s),
                _ => Err(ValueAccessError::UnexpectedType),
            },
        }
    }

    /// The flag under the name.
    pub fn get_bool(&self, key: &str) -> (r: Result<bool, ValueAccessError>)
        ensures
            match r {
                Ok(b) => doc_lookup(self@, key@) == Some(BsonValue::Boolean(b)),
                Err(ValueAccessError::NotPresent) => doc_lookup(self@, key@) is None,
                Err(ValueAccessError::UnexpectedType) => doc_lookup(self@, key@) matches Some(v)
                    && !(v is Boolean),
            },
    {
        match self.find(key) {
            None => Err(ValueAccessError::NotPresent),
            Some(i) => match &self.entries[i].1 {
                BsonValue::Boolean(b) => Ok(*b),
                _ => Err(ValueAccessError::UnexpectedType),
            },
        }
    }

    /// The timestamp under the name, in milliseconds since the epoch.
    pub fn get_datetime(&self, key: &str) -> (r: Result<i64, ValueAccessError>)
        ensures
            match r {
                Ok(t) => doc_lookup(self@, key@) == Some(BsonValue::DateTime(t)),
                Err(ValueAccessError::NotPresent) => doc_lookup(self@, key@) is None,
                Err(ValueAccessError::UnexpectedType) => doc_lookup(self@, key@) matches Some(v)
                    && !(v is DateTime),
            },
    {
        match self.find(key) {
            None => Err(ValueAccessError::NotPresent),
            Some(i) => match &self.entries[i].1 {
                BsonValue::DateTime(t) => Ok(*t),
                _ => Err(ValueAccessError::UnexpectedType),
            },
        }
    }

    /// The identifier under the name.
    pub fn get_object_id(&self, key: &str) -> (r: Result<ObjectId, ValueAccessError>)
        ensures
            match r {
                Ok(oid) => doc_lookup(self@, key@) == Some(BsonValue::ObjectId(oid)),
                Err(ValueAccessError::NotPresent) => doc_lookup(self@, key@) is None,
                Err(ValueAccessError::UnexpectedType) => doc_lookup(self@, key@) matches Some(v)
                    && !(v is ObjectId),
            },
    {
        match self.find(key) {
            None => Err(ValueAccessError::NotPresent),
            Some(i) => match &self.entries[i].1 {
                BsonValue::ObjectId(oid) => Ok(*oid),
                _ => Err(ValueAccessError::UnexpectedType),
            },
        }
    }

    /// A copy of the text list under the name.
    pub fn get_array(&self, key: &str) -> (r: Result<Vec<String>, ValueAccessError>)
        ensures
            match r {
                Ok(v) => doc_lookup(self@, key@) matches Some(BsonValue::StringArray(w)) && v@
                    == w@,
                Err(ValueAccessError::NotPresent) => doc_lookup(self@, key@) is None,
                Err(ValueAccessError::UnexpectedType) => doc_lookup(self@, key@) matches Some(v)
                    && !(v is StringArray),
            },
    {
        match self.find(key) {
            None => Err(ValueAccessError::NotPresent),
            Some(i) => match &self.entries[i].1 {
                BsonValue::StringArray(w) => {
                    let v = w.clone();
                    proof {
                        assert forall|k: int| 0 <= k < v@.len() implies v@[k] == w@[k] by {
                            assert(cloned::<String>(w@[k], v@[k]));
                        }
                        assert(v@ =~= w@);
                    }
                    Ok(v)
                },
                _ => Err(ValueAccessError::UnexpectedType),
            },
        }
    }
}

} // verus!
