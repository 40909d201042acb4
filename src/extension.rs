//! The decisions of the extension entry-point cache.
//!
//! Entry points such as the overlapped connect and accept are not exported by
//! the OS: each is asked for through a socket, by a 128-bit identifier. The
//! answer is cached per identifier in a slot that holds `0` until the first
//! answer. The slot itself, and the query, belong to the caller; here it is
//! decided whether to query, and what an answer means for the slot.
use crate::status::OsError;
use vstd::prelude::*;

verus! {

/// Why a resolution gave no usable entry point.
#[derive(Clone, Copy, Debug, PartialEq, Eq, Structural)]
pub enum ResolveError {
    /// The query itself failed.
    Os(OsError),
    /// The provider answered with a null pointer.
    Null,
    /// The provider answered otherwise than the slot already holds.
    Unstable { cached: usize, fresh: usize },
}

/// The cached value, where it may be used without asking again.
pub open spec fn reuse_spec(cached: usize, verify_stability: bool) -> Option<usize> {
    if cached != 0 && !verify_stability {
        Some(cached)
    } else {
        None
    }
}

/// What an answer `queried` means for a slot that held `cached` before the
/// query: on `Ok(p)`, `p` is the entry point and what the slot holds next.
pub open spec fn settle_spec(cached: usize, queried: Result<usize, OsError>) -> Result<
    usize,
    ResolveError,
> {
    match queried {
        Err(e) => Err(ResolveError::Os(e)),
        Ok(p) => if p == 0 {
            Err(ResolveError::Null)
        } else if cached != 0 && cached != p {
            Err(ResolveError::Unstable { cached, fresh: p })
        } else {
            Ok(p)
        },
    }
}

/// The value of a slot holding `cached` that may be used without a query:
/// any non-null value, unless every resolution is to be checked against a
/// fresh query.
pub fn reuse_cached(cached: usize, verify_stability: bool) -> (r: Option<usize>)
    ensures
        r == reuse_spec(cached, verify_stability),
{
    if cached != 0 && !verify_stability {
        Some(cached)
    } else {
        None
    }
}

/// Judges the answer to a query made while the slot held `cached`.
pub fn settle(cached: usize, queried: Result<usize, OsError>) -> (r: Result<usize, ResolveError>)
    ensures
        r == settle_spec(cached, queried),
{
    match queried {
        Err(e) => Err(ResolveError::Os(e)),
        Ok(p) => {
            if p == 0 {
                Err(ResolveError::Null)
            } else if cached != 0 && cached != p {
                Err(ResolveError::Unstable { cached, fresh: p })
            } else {
                Ok(p)
            }
        },
    }
}

/// Once a resolution has filled the slot, every later resolution that
/// succeeds, by reuse or by a fresh query, gives the same entry point.
pub proof fn lemma_resolutions_agree(
    cached: usize,
    first: Result<usize, OsError>,
    second: Result<usize, OsError>,
    verify_stability: bool,
)
    requires
        settle_spec(cached, first) is Ok,
    ensures
        ({
            let p = settle_spec(cached, first)->Ok_0;
            &&& p != 0
            &&& (reuse_spec(p, verify_stability) is Some ==> reuse_spec(p, verify_stability)
                == Some(p))
            &&& (settle_spec(p, second) is Ok ==> settle_spec(p, second) == Ok::<
                usize,
                ResolveError,
            >(p))
        }),
{
}

} // verus!
