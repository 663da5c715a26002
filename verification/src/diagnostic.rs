//! A rendered diagnostic message.

use vstd::prelude::*;

verus! {

/// A diagnostic carrying only its message text.
pub struct Diagnostic {
    pub message: Vec<char>,
}

impl View for Diagnostic {
    type V = Seq<char>;

    open spec fn view(&self) -> Seq<char> {
        self.message@
    }
}

impl Diagnostic {
    pub fn new(message: Vec<char>) -> (r: Self)
        ensures
            r@ == message@,
    {
        Diagnostic { message }
    }
}

} // verus!
