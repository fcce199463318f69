//! A text that is put together piece by piece, for one argument of a
//! command.

use vstd::prelude::*;
use vstd::string::*;

verus! {

/// An argument in the making.
#[derive(Debug)]
pub struct CmdString(pub String);

impl View for CmdString {
    type V = Seq<char>;

    open spec fn view(&self) -> Seq<char> {
        self.0@
    }
}

impl Default for CmdString {
    /// The empty text.
    fn default() -> (r: CmdString)
        ensures
            r@ == Seq::<char>::empty(),
    {
        CmdString(String::new())
    }
}

impl CmdString {
    /// The text `s`.
    pub fn from(s: &str) -> (r: CmdString)
        ensures
            r@ == s@,
    {
        CmdString(String::from_str(s))
    }

    /// This text with `value` at its end.
    pub fn append(self, value: &str) -> (r: CmdString)
        ensures
            r@ == self@ + value@,
    {
        let mut text = self.0;
        text.append(value);
        CmdString(text)
    }

    /// The text as a string slice.
    pub fn as_str(&self) -> (r: &str)
        ensures
            r@ == self@,
    {
        self.0.as_str()
    }

    /// The text as a string.
    pub fn into_string(self) -> (r: String)
        ensures
            r@ == self@,
    {
        self.0
    }
}

} // verus!
