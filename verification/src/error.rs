//! Failures of a listener pool.

use crate::address::SocketAddress;
use crate::binder::SocketStep;
use vstd::prelude::*;

verus! {

/// What is kept of a failure reported by the operating system: its error
/// number, where the system gave one.
#[derive(Clone, Copy, Debug, PartialEq, Eq)]
pub struct OsError {
    pub errno: Option<i32>,
}

impl OsError {
    /// A failure for which the system gave no error number.
    pub fn unknown() -> (e: OsError)
        ensures
            e == (OsError { errno: None }),
    {
        OsError { errno: None }
    }

    /// The failure with error number `errno`.
    pub fn code(errno: i32) -> (e: OsError)
        ensures
            e == (OsError { errno: Some(errno) }),
    {
        OsError { errno: Some(errno) }
    }
}

/// Why a pool, or one of its workers, stopped.
#[derive(Clone, Copy, Debug, PartialEq, Eq)]
pub enum ListenError {
    /// The address specification gave no address.
    Resolution { cause: OsError },
    /// A worker could not create its scheduler.
    SchedulerInit { cause: OsError },
    /// A step in preparing the socket for `addr` failed.
    Bind { addr: SocketAddress, step: SocketStep, cause: OsError },
    /// The listening socket for `addr` could not be registered with the
    /// worker's scheduler.
    Register { addr: SocketAddress, cause: OsError },
    /// Accepting a connection on the socket for `addr` failed.
    Accept { addr: SocketAddress, cause: OsError },
}

} // verus!
