//! A memento in the shape of a pickle: an opaque snapshot of a value that can
//! be taken with `dumps` and given back with `loads`, and a quote whose state
//! can be saved and restored through such snapshots.

use vstd::prelude::*;
use vstd::pervasive::cloned;

verus! {

/// An opaque snapshot of one value.
pub struct Pickle<T: Clone> {
    obj: T,
}

impl<T: Clone> Pickle<T> {
    /// The value held by the snapshot.
    pub closed spec fn spec_obj(&self) -> T {
        self.obj
    }

    fn clone(&self) -> (r: T)
        ensures
            cloned(self.spec_obj(), r),
    {
        self.obj.clone()
    }
}

/// Takes a snapshot of `obj`.
pub fn dumps<T: Clone>(obj: T) -> (r: Pickle<T>)
    ensures
        r.spec_obj() == obj,
{
    Pickle { obj }
}

/// Gives back a clone of the value a snapshot holds.
pub fn loads<T>(obj: Pickle<T>) -> (r: T) where T: Clone
    ensures
        cloned(obj.spec_obj(), r),
{
    obj.clone()
}

/// A quote and who said it.
pub struct Quote {
    pub text: String,
    pub author: String,
}

impl Clone for Quote {
    /// An equal copy of the quote.
    fn clone(&self) -> (r: Self)
        ensures
            r == *self,
    {
        Quote { text: self.text.clone(), author: self.author.clone() }
    }
}

impl Quote {
    pub fn new(text: String, author: String) -> (q: Quote)
        ensures
            q.text@ == text@,
            q.author@ == author@,
    {
        Quote { text, author }
    }

    /// A snapshot of the quote's current state.
    pub fn save_state(&self) -> (r: Pickle<Quote>)
        ensures
            r.spec_obj() == *self,
    {
        let current_state = dumps(self.clone());
        current_state
    }

    /// Puts the quote back into the state a snapshot holds.
    pub fn restore_state(&mut self, memento: Pickle<Quote>)
        ensures
            *final(self) == memento.spec_obj(),
    {
        let previous_state = loads(memento);
        self.text = previous_state.text;
        self.author = previous_state.author;
    }

    /// The quote, attributed: the text, then " - By ", then the author.
    pub fn get_info(&self) -> (r: String)
        ensures
            r@ == self.text@ + " - By "@ + self.author@,
    {
        self.text.clone().concat(" - By ").concat(self.author.as_str())
    }
}

} // verus!
