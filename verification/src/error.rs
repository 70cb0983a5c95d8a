//! The library's error: a chain of messages, outermost context first, root cause last.
use vstd::prelude::*;

use crate::text::{contains, contains_spec, join_spec};

verus! {

#[derive(Debug)]
pub struct Error {
    pub messages: Vec<String>,
}

impl View for Error {
    type V = Seq<Seq<char>>;

    open spec fn view(&self) -> Seq<Seq<char>> {
        Seq::new(self.messages@.len(), |i: int| self.messages@[i]@)
    }
}

/// The result type of fallible library operations.
pub type Fallible<T> = Result<T, Error>;

impl Error {
    /// An error with a single message.
    pub fn msg(message: String) -> (e: Error)
        ensures
            e@ == seq![message@],
    {
        let mut messages = Vec::new();
        messages.push(message);
        let e = Error { messages };
        assert(e@ =~= seq![message@]);
        e
    }

    /// Wraps this error in an outer context message.
    pub fn context(self, message: String) -> (e: Error)
        ensures
            e@ == seq![message@] + self@,
    {
        let mut messages = Vec::new();
        messages.push(message);
        let mut rest = self.messages;
        let ghost old_rest = rest@;
        messages.append(&mut rest);
        let e = Error { messages };
        assert(e@ =~= seq![message@] + self@);
        e
    }

    /// The outermost message (what `Display` of the error shows).
    pub fn message(&self) -> (r: String)
        ensures
            self@.len() > 0 ==> r@ == self@[0],
            self@.len() == 0 ==> r@ == Seq::<char>::empty(),
    {
        if self.messages.len() > 0 {
            self.messages[0].clone()
        } else {
            String::new()
        }
    }

    /// Every message of the chain, joined with `sep` (outermost first).
    pub fn joined(&self, sep: &str) -> (r: String)
        ensures
            r@ == join_spec(self@, sep@),
    {
        let mut r = String::new();
        let mut i: usize = 0;
        while i < self.messages.len()
            invariant
                i <= self.messages@.len(),
                r@ == join_spec(self@.subrange(0, i as int), sep@),
            decreases self.messages.len() - i,
        {
            if i > 0 {
                r.append(sep);
            }
            r.append(self.messages[i].as_str());
            proof {
                assert(self@.subrange(0, i + 1).drop_last() =~= self@.subrange(0, i as int));
            }
            i += 1;
        }
        assert(self@.subrange(0, self@.len() as int) =~= self@);
        r
    }

    /// Whether some message of the chain contains `needle`.
    pub fn chain_contains(&self, needle: &str) -> (r: bool)
        ensures
            r == exists|i: int| 0 <= i < self@.len() && contains_spec(#[trigger] self@[i], needle@),
    {
        let mut i: usize = 0;
        while i < self.messages.len()
            invariant
                i <= self.messages@.len(),
                forall|j: int| 0 <= j < i ==> !contains_spec(#[trigger] self@[j], needle@),
            decreases self.messages.len() - i,
        {
            if contains(self.messages[i].as_str(), needle) {
                assert(contains_spec(self@[i as int], needle@));
                return true;
            }
            i += 1;
        }
        false
    }
}

} // verus!
