//! The error of setting up the log.
use vstd::prelude::*;

verus! {

/// Why the log could not be set up.
#[derive(Debug, PartialEq, Eq, Clone)]
pub struct ShellLoggerError {
    error_message: String,
}

impl View for ShellLoggerError {
    type V = Seq<char>;

    /// The message.
    closed spec fn view(&self) -> Seq<char> {
        self.error_message@
    }
}

impl ShellLoggerError {
    pub fn new(error_message: String) -> (r: ShellLoggerError)
        ensures
            r@ == error_message@,
    {
        ShellLoggerError { error_message }
    }

    /// The message, as the error is shown.
    pub fn to_string(&self) -> (r: String)
        ensures
            r@ == self@,
    {
        self.error_message.clone()
    }

    /// A short description of the kind of error.
    pub fn description(&self) -> (r: &'static str)
        ensures
            r@ == "ShellLoggerError"@,
    {
        "ShellLoggerError"
    }
}

} // verus!
