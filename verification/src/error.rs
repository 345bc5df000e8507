//! The library's error: a human-readable message.

use vstd::prelude::*;
use vstd::string::*;

verus! {

/// An error carrying a message that describes what went wrong.
#[derive(Debug)]
pub struct Error {
    msg: String,
}

impl View for Error {
    type V = Seq<char>;

    closed spec fn view(&self) -> Seq<char> {
        self.msg@
    }
}

impl Error {
    /// Creates an error with the given message.
    pub fn with(msg: &str) -> (e: Error)
        ensures
            e@ == msg@,
    {
        Error { msg: String::from_str(msg) }
    }

    /// Creates an error from an owned message.
    pub fn from_message(msg: String) -> (e: Error)
        ensures
            e@ == msg@,
    {
        Error { msg }
    }

    /// The error that every operation reports off Android.
    pub fn not_android() -> (e: Error)
        ensures
            e@ == "This plugin is only for Android"@,
    {
        Error::with("This plugin is only for Android")
    }

    /// The error for a value that should have been present.
    pub fn missing_value(value_name: &str) -> (e: Error)
        ensures
            e@ == "missing value: "@ + value_name@,
    {
        let s = String::from_str("missing value: ").concat(value_name);
        Error { msg: s }
    }

    /// The message of this error.
    pub fn message(&self) -> (m: &str)
        ensures
            m@ == self@,
    {
        self.msg.as_str()
    }
}

} // verus!
