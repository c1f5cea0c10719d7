//! The persistence port: the capability to store a purchase order,
//! independent of any concrete storage technology.
//!
//! Adapters (a relational store, a document store, the in-memory fake
//! below) implement [`OrderRepo`]; the aggregate and any business logic
//! depend only on this trait.  The generic contract promises that a
//! successful `create` hands back a well-formed order with the same exact
//! total as the input; each adapter states its further guarantees through
//! [`OrderRepo::create_post`].

use vstd::prelude::*;

verus! {

use crate::order::{sum_subtotals, Order};

/// Why a storage adapter failed to persist an order.
///
/// The port deliberately distinguishes failure kinds so that callers can
/// tell a malformed aggregate or an identity clash from storage trouble,
/// and a retryable outage from a permanent one.
#[derive(Clone, Copy, Debug, PartialEq, Eq, Structural)]
pub enum OrderRepoError {
    /// The adapter rejected the aggregate as malformed.
    Validation,
    /// An order with the same identity already exists.
    Conflict,
    /// The storage backend failed transiently; the call may be retried.
    TransientStorage,
    /// The storage backend failed permanently; retrying cannot help.
    PermanentStorage,
}

/// The repository port: persist a fully formed [`Order`].
pub trait OrderRepo {
    /// The adapter's own guarantee about what `create` returns, on top of
    /// the generic echo contract.
    spec fn create_post(&self, order: Order, r: Result<Order, OrderRepoError>) -> bool;

    /// Persist `order`, one call, one attempted write.
    ///
    /// The caller hands the aggregate over and must treat the returned
    /// value, not the input, as authoritative.  On success the returned
    /// order is well-formed and totals exactly what the input totalled; on
    /// failure the error is surfaced unchanged, never a partial result.
    fn create(&self, order: Order) -> (r: Result<Order, OrderRepoError>)
        requires
            order.wf(),
        ensures
            r matches Ok(persisted) ==> persisted.wf() && sum_subtotals(persisted.items@)
                == sum_subtotals(order.items@),
            self.create_post(order, r),
    ;
}

/// An in-memory fake adapter for wiring and tests: echoes the order back
/// unchanged, or reports the configured failure.
pub struct FakeOrderRepo {
    /// When `Some`, every `create` call fails with this error; when
    /// `None`, every call succeeds.
    pub fail_with: Option<OrderRepoError>,
}

impl OrderRepo for FakeOrderRepo {
    /// Success echoes the input exactly; failure surfaces the configured
    /// error, never a partial or defaulted result.
    open spec fn create_post(&self, order: Order, r: Result<Order, OrderRepoError>) -> bool {
        match self.fail_with {
            None => r == Ok::<Order, OrderRepoError>(order),
            Some(e) => r == Err::<Order, OrderRepoError>(e),
        }
    }

    fn create(&self, order: Order) -> (r: Result<Order, OrderRepoError>) {
        match self.fail_with {
            None => Ok(order),
            Some(e) => Err(e),
        }
    }
}

} // verus!
