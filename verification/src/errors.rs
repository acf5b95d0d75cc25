//! The error of a malformed command-line value.

use vstd::prelude::*;
use vstd::string::*;

verus! {

/// A value that could not be read; it carries the message shown to the user.
#[derive(Debug)]
pub struct ParseError {
    details: String,
}

impl View for ParseError {
    type V = Seq<char>;

    /// The message.
    closed spec fn view(&self) -> Seq<char> {
        self.details@
    }
}

impl ParseError {
    pub fn new(msg: &str) -> (e: ParseError)
        ensures
            e@ == msg@,
    {
        ParseError { details: msg.to_owned() }
    }

    /// The message, borrowed.
    pub fn description(&self) -> (d: &str)
        ensures
            d@ == self@,
    {
        self.details.as_str()
    }

    /// The message, as the user reads it.
    pub fn to_string(&self) -> (s: String)
        ensures
            s@ == self@,
    {
        self.details.clone()
    }
}

} // verus!
