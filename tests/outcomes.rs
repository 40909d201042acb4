use miow::extension::{reuse_cached, settle, ResolveError};
use miow::port::{dur2ms, wait_outcome, CompletionStatus, WaitError, INFINITE};
use miow::status::{bool_status, cvt, last_err, transferred, OsError};

#[test]
fn pending_code_is_not_an_error() {
    assert_eq!(last_err(997), Ok(false));
    assert_eq!(last_err(10054), Err(OsError { code: 10054 }));
}

#[test]
fn socket_call_status() {
    assert_eq!(cvt(0, 0), Ok(true));
    assert_eq!(cvt(-1, 997), Ok(false));
    assert_eq!(cvt(-1, 10061), Err(OsError { code: 10061 }));
    assert_eq!(cvt(5, 10061), Ok(true));
}

#[test]
fn bool_call_status() {
    assert_eq!(bool_status(1, 0), Ok(true));
    assert_eq!(bool_status(0, 997), Ok(false));
    assert_eq!(bool_status(0, 6), Err(OsError { code: 6 }));
}

#[test]
fn synchronous_transfer() {
    assert_eq!(transferred(1, 3, 0), Ok(3));
    assert_eq!(transferred(0, 0, 5), Err(OsError { code: 5 }));
    assert_eq!(transferred(0, 0, 997), Err(OsError { code: 997 }));
}

#[test]
fn cached_pointer_reuse() {
    assert_eq!(reuse_cached(0, false), None);
    assert_eq!(reuse_cached(0x1000, false), Some(0x1000));
    assert_eq!(reuse_cached(0x1000, true), None);
}

#[test]
fn settle_answers() {
    assert_eq!(settle(0, Ok(0x1000)), Ok(0x1000));
    assert_eq!(settle(0x1000, Ok(0x1000)), Ok(0x1000));
    assert_eq!(settle(0, Ok(0)), Err(ResolveError::Null));
    assert_eq!(
        settle(0x1000, Ok(0x2000)),
        Err(ResolveError::Unstable { cached: 0x1000, fresh: 0x2000 })
    );
    assert_eq!(
        settle(0, Err(OsError { code: 10045 })),
        Err(ResolveError::Os(OsError { code: 10045 }))
    );
}

#[test]
fn two_resolutions_agree() {
    let first = settle(0, Ok(0x7ff0_1234)).unwrap();
    assert_eq!(reuse_cached(first, false), Some(first));
    assert_eq!(settle(first, Ok(0x7ff0_1234)), Ok(first));
}

#[test]
fn completion_carries_token_and_bytes() {
    assert_eq!(
        wait_outcome(1, 3, 1, 0x5000, 0),
        Ok(CompletionStatus { token: 1, bytes_transferred: 3, overlapped: 0x5000 })
    );
}

#[test]
fn wait_timeout_is_distinct() {
    assert_eq!(wait_outcome(0, 0, 0, 0, 258), Err(WaitError::Timeout));
    assert_eq!(
        wait_outcome(0, 0, 0, 0, 6),
        Err(WaitError::Os(OsError { code: 6 }))
    );
}

#[test]
fn timeout_millis() {
    assert_eq!(dur2ms(0, 0), 0);
    assert_eq!(dur2ms(0, 1), 1);
    assert_eq!(dur2ms(1, 500_000), 1001);
    assert_eq!(dur2ms(2, 3_000_000), 2003);
    assert_eq!(dur2ms(4_294_967, 294_000_000), 4_294_967_294);
    assert_eq!(dur2ms(4_294_967, 295_000_000), INFINITE);
    assert_eq!(dur2ms(u64::MAX, 999_999_999), INFINITE);
}
