//! The error of setting a server up.

use vstd::prelude::*;
use vstd::string::StringExecFns;

verus! {

/// An error with a message.
#[derive(Debug)]
pub struct ServerError {
    msg: String,
}

impl View for ServerError {
    type V = Seq<char>;

    closed spec fn view(&self) -> Seq<char> {
        self.msg@
    }
}

impl ServerError {
    /// An error with the message `msg`.
    pub fn new(msg: &str) -> (e: ServerError)
        ensures
            e@ == msg@,
    {
        ServerError { msg: String::from_str(msg) }
    }

    /// The message of the error.
    pub fn to_string(&self) -> (s: String)
        ensures
            s@ == self@,
    {
        self.msg.clone()
    }
}

} // verus!
