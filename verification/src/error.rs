//! Errors as the portal reports them.
use crate::text::join;
use vstd::prelude::*;

verus! {

/// An error of an outside call, with what was being done.
pub struct FdoError<'a, T>(pub &'a str, pub T);

impl<'a, T> FdoError<'a, T> {
    /// A function that adds `msg` to an error.
    pub fn with_msg(msg: &'a str) -> (f: impl FnOnce(T) -> FdoError<'a, T>)
        ensures
            forall|e: T| call_requires(f, (e,)),
            forall|e: T, r: FdoError<'a, T>| call_ensures(f, (e,), r) ==> r == FdoError(msg, e),
    {
        move |e: T| -> (r: FdoError<'a, T>)
            ensures
                r == FdoError(msg, e),
            { FdoError(msg, e) }
    }
}

/// Why the portal refuses a call.
#[derive(Debug, PartialEq, Eq)]
pub enum PortalError {
    InvalidArgs(String),
    Failed(String),
}

impl<'a> FdoError<'a, String> {
    /// The error as the portal reports it, where the outside error is given by its
    /// rendering: what was being done, then the error.
    pub fn into_error(self) -> (e: PortalError)
        ensures
            e matches PortalError::Failed(s) && s@ == self.0@ + ": "@ + self.1@,
    {
        let s = join(join(self.0, ": ").as_str(), self.1.as_str());
        PortalError::Failed(s)
    }
}

/// Reports that something failed, with the rendering of the outside error.
pub fn report(msg: &'static str, error: String) -> (e: PortalError)
    ensures
        e matches PortalError::Failed(s) && s@ == msg@ + ": "@ + error@,
{
    let add_msg = FdoError::with_msg(msg);
    add_msg(error).into_error()
}

} // verus!
