//! What an overlapped call's return value and the OS's last-error value mean:
//! completed now (`Ok(true)`), pending (`Ok(false)`), or failed.
use vstd::prelude::*;

verus! {

/// The error code of an operation that was queued and will complete later
/// (the same value serves the handle and the socket calls).
pub const ERROR_IO_PENDING: i32 = 997;

/// What a socket call returns on failure.
pub const SOCKET_ERROR: i32 = -1;

/// A failure reported by the OS, with its code unchanged.
#[derive(Clone, Copy, Debug, PartialEq, Eq, Structural)]
pub struct OsError {
    pub code: i32,
}

/// A failed call whose last-error value is `code`: pending where that is the
/// pending code, an error carrying `code` otherwise.
pub open spec fn failure_status(code: i32) -> Result<bool, OsError> {
    if code == ERROR_IO_PENDING {
        Ok(false)
    } else {
        Err(OsError { code })
    }
}

/// Classifies a call that failed, from the last-error value read right after it.
pub fn last_err(code: i32) -> (r: Result<bool, OsError>)
    ensures
        r == failure_status(code),
{
    if code == ERROR_IO_PENDING {
        Ok(false)
    } else {
        Err(OsError { code })
    }
}

/// Classifies an overlapped socket call from its return value and the last
/// socket error read right after it.
pub fn cvt(ret: i32, last_error: i32) -> (r: Result<bool, OsError>)
    ensures
        r == if ret == SOCKET_ERROR {
            failure_status(last_error)
        } else {
            Ok(true)
        },
{
    if ret == SOCKET_ERROR {
        last_err(last_error)
    } else {
        Ok(true)
    }
}

/// Classifies an overlapped call that returns a boolean (handle reads and
/// writes, the connect and accept entry points) from that value and the last
/// error read right after it.
pub fn bool_status(ret: i32, last_error: i32) -> (r: Result<bool, OsError>)
    ensures
        r == if ret == 0 {
            failure_status(last_error)
        } else {
            Ok(true)
        },
{
    if ret == 0 {
        last_err(last_error)
    } else {
        Ok(true)
    }
}

/// The result of a synchronous read or write: the bytes transferred where the
/// call succeeded, the last error otherwise (a pending code included, since a
/// synchronous call never leaves work behind).
pub fn transferred(ret: i32, bytes: u32, last_error: i32) -> (r: Result<usize, OsError>)
    ensures
        r == if ret == 0 {
            Err(OsError { code: last_error })
        } else {
            Ok(bytes as usize)
        },
{
    if ret == 0 {
        Err(OsError { code: last_error })
    } else {
        Ok(bytes as usize)
    }
}

} // verus!
