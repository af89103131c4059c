//! The ways in which work on a session fails.

use vstd::prelude::*;

verus! {

/// A failure of one of the three things that are done to a session.
#[derive(Clone, Copy, Debug, PartialEq, Eq, Structural)]
pub enum SessionError {
    /// The automation endpoint could not be reached or refused the handshake.
    SessionCreateFailed,
    /// An operation on an acquired session failed.
    SessionUseFailed,
    /// The best-effort teardown of a session failed.
    SessionDestroyFailed,
}

impl SessionError {
    /// Whether the failure reaches the caller of the unit of work. A failed
    /// teardown does not: it is only reported.
    pub fn propagates(&self) -> (visible: bool)
        ensures
            visible == !(*self is SessionDestroyFailed),
    {
        match self {
            SessionError::SessionCreateFailed => true,
            SessionError::SessionUseFailed => true,
            SessionError::SessionDestroyFailed => false,
        }
    }

    /// What the use of a session comes to for the caller: the value it
    /// produced, or `SessionUseFailed` in place of whatever went wrong.
    pub fn of_use<T, E>(outcome: Result<T, E>) -> (result: Result<T, SessionError>)
        ensures
            result == match outcome {
                Ok(value) => Ok::<T, SessionError>(value),
                Err(_) => Err(SessionError::SessionUseFailed),
            },
    {
        match outcome {
            Ok(value) => Ok(value),
            Err(_) => Err(SessionError::SessionUseFailed),
        }
    }

    /// What the teardown of a session leaves to report: nothing where it went
    /// well, `SessionDestroyFailed` where it did not.
    pub fn of_teardown<E>(outcome: Result<(), E>) -> (warning: Option<SessionError>)
        ensures
            warning == match outcome {
                Ok(_) => None::<SessionError>,
                Err(_) => Some(SessionError::SessionDestroyFailed),
            },
    {
        match outcome {
            Ok(_) => None,
            Err(_) => Some(SessionError::SessionDestroyFailed),
        }
    }
}

} // verus!
