//! Validation failures for stage configuration.  An error carries the
//! offending message and accumulates a trail of human-readable labels
//! naming the configuration layers it passed through; it propagates as a
//! result, never as abrupt termination.

use vstd::prelude::*;

verus! {

/// An argument or validation failure: a message plus a label trail, the
/// innermost label last.
#[derive(Debug)]
pub struct ValidationError {
    pub msg: String,
    pub labels: Vec<String>,
}

impl View for ValidationError {
    type V = (Seq<char>, Seq<Seq<char>>);

    open spec fn view(&self) -> (Seq<char>, Seq<Seq<char>>) {
        (self.msg@, self.labels@.map_values(|s: String| s@))
    }
}

impl ValidationError {
    /// A fresh failure with no label trail yet.
    pub fn message(msg: String) -> (r: ValidationError)
        ensures
            r@ == (msg@, Seq::<Seq<char>>::empty()),
    {
        let r = ValidationError { msg, labels: Vec::new() };
        proof {
            assert(r@.1 =~= Seq::<Seq<char>>::empty());
        }
        r
    }

    /// Wraps the error in one more layer of parsing context.
    pub fn label(self, l: String) -> (r: ValidationError)
        ensures
            r@.0 == self@.0,
            r@.1 == self@.1.push(l@),
    {
        let mut labels = self.labels;
        labels.push(l);
        let r = ValidationError { msg: self.msg, labels };
        proof {
            assert(r@.1 =~= self@.1.push(l@));
        }
        r
    }
}

} // verus!
