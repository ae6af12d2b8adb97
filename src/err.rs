//! Error kinds of a rate-limit check.
use vstd::prelude::*;

verus! {

/// What went wrong, as a kind that the caller maps to an exit status.
#[derive(Debug, Clone, Copy, PartialEq, Eq, Structural)]
pub enum ExitCode {
    /// The network call failed, or the server answered with an unexpected status.
    Connection,
    /// A token body or a rate-limit header could not be read.
    Parsing,
    /// The probe itself was refused because the quota is used up.
    OverLimit,
    /// The registry's auth service rejected the credentials.
    Auth,
}

/// An error with its kind and a message for a human.
#[derive(Debug, Clone)]
pub struct DrlErr {
    pub msg: String,
    pub code: ExitCode,
}

pub type DrlResult<T> = Result<T, DrlErr>;

impl DrlErr {
    pub fn new(msg: String, code: ExitCode) -> (r: DrlErr)
        ensures
            r.msg@ == msg@,
            r.code == code,
    {
        DrlErr { msg, code }
    }
}

/// The kind of a result's error, if it is one.
pub open spec fn error_code<T>(r: DrlResult<T>) -> Option<ExitCode> {
    match r {
        Ok(_) => None,
        Err(e) => Some(e.code),
    }
}

} // verus!
