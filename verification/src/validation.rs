//! Field-indexed validation failures, reported before any store write.

use vstd::prelude::*;
use vstd::string::StringExecFns;
use vstd::string::StrSliceExecFns;

verus! {

/// One failed rule: the field it concerns and a message for the client.
#[derive(Debug)]
pub struct FieldError {
    pub field: String,
    pub message: String,
}

/// Every rule a payload broke, in field order.
#[derive(Debug)]
pub struct ValidationErrors {
    pub errors: Vec<FieldError>,
}

impl View for ValidationErrors {
    type V = Seq<(Seq<char>, Seq<char>)>;

    open spec fn view(&self) -> Seq<(Seq<char>, Seq<char>)> {
        Seq::new(self.errors@.len(), |i: int| (self.errors@[i].field@, self.errors@[i].message@))
    }
}

/// The one-line rendering of a list of failures:
/// `field: message` entries joined by `; `.
pub open spec fn rendered_errors(v: Seq<(Seq<char>, Seq<char>)>) -> Seq<char>
    decreases v.len(),
{
    if v.len() == 0 {
        Seq::empty()
    } else {
        let entry = v.last().0 + ": "@ + v.last().1;
        if v.len() == 1 {
            entry
        } else {
            rendered_errors(v.drop_last()) + "; "@ + entry
        }
    }
}

impl ValidationErrors {
    /// A value with no failures recorded.
    pub fn new() -> (r: ValidationErrors)
        ensures
            r@ == Seq::<(Seq<char>, Seq<char>)>::empty(),
    {
        let r = ValidationErrors { errors: Vec::new() };
        proof {
            assert(r@ =~= Seq::<(Seq<char>, Seq<char>)>::empty());
        }
        r
    }

    pub fn is_empty(&self) -> (r: bool)
        ensures
            r == (self@.len() == 0),
    {
        self.errors.len() == 0
    }

    /// Appends one failure.
    pub fn push(&mut self, field: &str, message: &str)
        ensures
            final(self)@ == old(self)@.push((field@, message@)),
    {
        let e = FieldError { field: field.to_owned(), message: message.to_owned() };
        self.errors.push(e);
        proof {
            assert(self@ =~= old(self)@.push((field@, message@)));
        }
    }

    /// Renders the failures as one line of text for an HTTP body.
    pub fn message(&self) -> (r: String)
        ensures
            r@ == rendered_errors(self@),
    {
        let mut out = String::new();
        let mut i: usize = 0;
        while i < self.errors.len()
            invariant
                i <= self.errors@.len(),
                out@ == rendered_errors(self@.take(i as int)),
            decreases self.errors@.len() - i,
        {
            if i > 0 {
                out.append("; ");
            }
            out.append(self.errors[i].field.as_str());
            out.append(": ");
            out.append(self.errors[i].message.as_str());
            proof {
                assert(self@.take(i + 1).drop_last() =~= self@.take(i as int));
                assert(self@.take(i + 1).last() == self@[i as int]);
            }
            i += 1;
        }
        proof {
            assert(self@.take(self@.len() as int) =~= self@);
        }
        out
    }
}

} // verus!
