use vstd::prelude::*;

verus! {

/// Errors reported by this crate.
#[derive(Debug)]
pub enum Error {
    /// The coder's method id names no method that this crate can handle;
    /// the string is the method's name, or its id where it has no name.
    UnsupportedCompressionMethod(String),
    /// An encryption method was requested without a password.
    PasswordRequired,
    /// Any other failure, with a message.
    Other(String),
}

impl Error {
    /// An `Error::Other` carrying `msg`.
    pub fn other(msg: &str) -> (e: Error)
        ensures
            e matches Error::Other(m) && m@ == msg@,
    {
        Error::Other(String::from_str(msg))
    }
}

} // verus!
