//! Error taxonomy: adapter-level failures and flash-protocol failures.

use vstd::prelude::*;

verus! {

/// An error reported by the adapter library.  The adapter always reports
/// its errors as static string literals, so the message can be held by
/// reference.
#[derive(Debug)]
pub struct LibFtdiError {
    err_str: &'static str,
}

impl LibFtdiError {
    /// The message this error carries.
    pub closed spec fn spec_message(&self) -> Seq<char> {
        self.err_str@
    }

    /// Wraps an adapter error message.
    pub fn new(err_str: &'static str) -> (e: LibFtdiError)
        ensures
            e.spec_message() == err_str@,
    {
        LibFtdiError { err_str }
    }

    /// The adapter's error message.
    pub fn message(&self) -> (m: &'static str)
        ensures
            m@ == self.spec_message(),
    {
        self.err_str
    }
}

/// A transport failure: either the adapter library reported an error, or
/// allocating its context failed.
#[derive(Debug)]
pub enum Error {
    LibFtdi(LibFtdiError),
    MallocFailure,
}

/// A failure of a flash command sequence.  Transport failures are always
/// fatal to the command in progress; `Timeout` means the bus itself is
/// healthy but the device never signalled completion within the iteration
/// budget; `Oversize` means the input stream does not fit the device's
/// page grid.
#[derive(Debug)]
pub enum FlashError {
    Transport(Error),
    Timeout,
    Oversize,
}

} // verus!
