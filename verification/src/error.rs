//! The error that every fallible operation of the runtime returns.

use vstd::prelude::*;
use vstd::string::*;

verus! {

/// An error with a stable code and a message for people.
#[derive(Clone, Debug)]
pub struct WASMError {
    pub code: String,
    pub message: String,
}

impl WASMError {
    /// An error with the given code and message.
    pub fn new(code: &str, message: &str) -> (e: Self)
        ensures
            e.code@ == code@,
            e.message@ == message@,
    {
        WASMError { code: String::from_str(code), message: String::from_str(message) }
    }

    /// The code and the message in one line.
    pub fn describe(&self) -> (r: String)
        ensures
            r@ == self.code@ + ": "@ + self.message@,
    {
        let mut text = self.code.clone();
        text.append(": ");
        text.append(self.message.as_str());
        text
    }
}

/// Whether `result` failed with the error code `code`.
pub open spec fn fails_with<T>(result: Result<T, WASMError>, code: Seq<char>) -> bool {
    result is Err && result->Err_0.code@ == code
}

} // verus!
