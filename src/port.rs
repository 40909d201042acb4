//! What a wait on a completion port yields.
use crate::status::OsError;
use vstd::prelude::*;

verus! {

/// The error code of a wait that ran out of time with nothing dequeued.
pub const WAIT_TIMEOUT: i32 = 258;

/// The timeout that never expires.
pub const INFINITE: u32 = 0xFFFF_FFFF;

/// One dequeued completion: the token that its handle was registered with,
/// the bytes that the operation transferred, and the address of the
/// operation record that completed.
#[derive(Clone, Copy, Debug, PartialEq, Eq, Structural)]
pub struct CompletionStatus {
    pub token: usize,
    pub bytes_transferred: u32,
    pub overlapped: usize,
}

/// Why a wait gave no completion.
#[derive(Clone, Copy, Debug, PartialEq, Eq, Structural)]
pub enum WaitError {
    /// Nothing completed within the timeout.
    Timeout,
    /// The OS reported a failure.
    Os(OsError),
}

/// The outcome of a wait, from what the dequeue call returned and wrote.
pub open spec fn wait_spec(
    ret: i32,
    bytes: u32,
    token: usize,
    overlapped: usize,
    last_error: i32,
) -> Result<CompletionStatus, WaitError> {
    if ret != 0 {
        Ok(CompletionStatus { token, bytes_transferred: bytes, overlapped })
    } else if last_error == WAIT_TIMEOUT {
        Err(WaitError::Timeout)
    } else {
        Err(WaitError::Os(OsError { code: last_error }))
    }
}

/// Judges a dequeue call: a completion where it succeeded, `Timeout` where it
/// ran out of time, the OS error otherwise.
pub fn wait_outcome(
    ret: i32,
    bytes: u32,
    token: usize,
    overlapped: usize,
    last_error: i32,
) -> (r: Result<CompletionStatus, WaitError>)
    ensures
        r == wait_spec(ret, bytes, token, overlapped, last_error),
{
    if ret != 0 {
        Ok(CompletionStatus { token, bytes_transferred: bytes, overlapped })
    } else if last_error == WAIT_TIMEOUT {
        Err(WaitError::Timeout)
    } else {
        Err(WaitError::Os(OsError { code: last_error }))
    }
}

/// Milliseconds in `secs` seconds and `subsec_nanos` nanoseconds, a started
/// millisecond counted whole.
pub open spec fn millis_spec(secs: u64, subsec_nanos: u32) -> int {
    secs * 1000 + subsec_nanos / 1_000_000 + if subsec_nanos % 1_000_000 > 0 {
        1int
    } else {
        0int
    }
}

/// The timeout in milliseconds that a wait hands to the OS for a duration of
/// `secs` seconds and `subsec_nanos` nanoseconds: rounded up, and `INFINITE`
/// where it does not fit below that value.
pub fn dur2ms(secs: u64, subsec_nanos: u32) -> (r: u32)
    ensures
        r == if millis_spec(secs, subsec_nanos) >= INFINITE {
            INFINITE as int
        } else {
            millis_spec(secs, subsec_nanos)
        },
{
    if secs > 4_294_967 {
        return INFINITE;
    }
    let round: u64 = if subsec_nanos % 1_000_000 > 0 {
        1
    } else {
        0
    };
    let ms: u64 = secs * 1000 + (subsec_nanos / 1_000_000) as u64 + round;
    if ms >= INFINITE as u64 {
        INFINITE
    } else {
        ms as u32
    }
}

} // verus!
