//! Error types, and how the application must exit on each.

use vstd::prelude::*;

verus! {

/// A top-level error caused within the application.
#[derive(Clone, Copy, Debug, PartialEq, Eq, Structural)]
pub enum Error {
    /// Configuration errors.
    Config(crate::cfg::Error),
    /// Service error.
    Service(crate::sv::Error),
    /// Address resolution failure, fatal to its cycle.
    Resolve(crate::resolver::ResolveError),
    /// Catchall error variant.
    Other,
}

/// The process exit code an exit condition calls for: success; the
/// configuration-error code; the protocol-error code; or plain failure.
pub open spec fn exit_code_of(e: Exit) -> int {
    match e {
        Exit::Success => 0,
        Exit::Failure(err) => match err {
            Error::Config(_) => 78,
            Error::Service(_) => 76,
            _ => 1,
        },
    }
}

/// Application exit conditions.
#[derive(Clone, Copy, Debug, PartialEq, Eq, Structural)]
pub enum Exit {
    /// Exit success.
    Success,
    /// Exit failure, with the error to advise the user about.
    Failure(Error),
}

impl Exit {
    /// The process exit code for this condition.
    pub fn code(&self) -> (c: u8)
        ensures
            c == exit_code_of(*self),
    {
        match self {
            Exit::Success => 0,
            Exit::Failure(err) => match err {
                Error::Config(_) => 78,
                Error::Service(_) => 76,
                _ => 1,
            },
        }
    }
}

impl From<Error> for Exit {
    fn from(err: Error) -> (r: Self)
        ensures
            r == Exit::Failure(err),
    {
        Exit::Failure(err)
    }
}

impl vstd::std_specs::convert::FromSpecImpl<Error> for Exit {
    open spec fn obeys_from_spec() -> bool {
        true
    }

    open spec fn from_spec(err: Error) -> Exit {
        Exit::Failure(err)
    }
}

} // verus!
