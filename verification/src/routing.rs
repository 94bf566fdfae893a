//! The routing decision: which upstream a new connection goes to, and over
//! which transport.

use crate::backend::{transport_of, Transport};
use crate::pool::{Pool, PoolView};
use crate::rotation::{chosen_position, next_cursor};
use crate::selector::{Selection, Selector};
use vstd::prelude::*;

verus! {

/// Where a connection goes.
#[derive(Debug, PartialEq, Eq)]
pub struct UpstreamTarget {
    /// The address of the chosen backend, as it was configured.
    pub target_address: String,
    /// Whether the connection to the backend is made over TLS.
    pub use_tls_upstream: bool,
}

/// Why a connection could not be routed.
#[derive(Clone, Copy, Debug, PartialEq, Eq)]
pub enum RouteError {
    /// No backend is healthy now.
    NoHealthyBackend,
}

/// Whether `target` is the target that the backend configured as `address`
/// gives: that address, over TLS exactly when its port is the secure port.
pub open spec fn target_matches(target: UpstreamTarget, address: Seq<char>) -> bool {
    &&& target.target_address@ == address
    &&& target.use_tls_upstream == (transport_of(address) == Transport::Tls)
}

/// Whether `outcome` is the routing decision for the backends at `addresses`
/// with health flags `health`, at `cursor`: the backend that the selection
/// yields, over TLS exactly when its port is the secure port, or
/// `NoHealthyBackend` where the selection is exhausted.
pub open spec fn is_decision(
    addresses: Seq<Seq<char>>,
    health: Seq<bool>,
    cursor: nat,
    outcome: Result<UpstreamTarget, RouteError>,
) -> bool {
    match chosen_position(health, cursor) {
        Some(p) => outcome matches Ok(target) && target_matches(target, addresses[p]),
        None => outcome matches Err(RouteError::NoHealthyBackend),
    }
}

/// Turns what the selector yielded into the outcome for one connection: the
/// chosen backend with its transport, or `NoHealthyBackend` when the selector
/// was exhausted.
pub fn decide(selection: Selection) -> (outcome: Result<UpstreamTarget, RouteError>)
    ensures
        match selection {
            Selection::Backend(b) => outcome matches Ok(target) && target_matches(target, b@),
            Selection::Exhausted => outcome matches Err(RouteError::NoHealthyBackend),
        },
{
    match selection {
        Selection::Backend(backend) => {
            let use_tls_upstream = match backend.transport_hint() {
                Transport::Tls => true,
                Transport::Plain => false,
            };
            Ok(UpstreamTarget { target_address: backend.address().to_owned(), use_tls_upstream })
        },
        Selection::Exhausted => Err(RouteError::NoHealthyBackend),
    }
}

/// What a load balancer is, to its contracts: its pool and its rotation
/// cursor.
pub struct LBView {
    pub pool: PoolView,
    pub cursor: usize,
}

/// The load balancer: a pool and the selector that rotates over it. It
/// answers one question for each new connection: which upstream.
pub struct LB {
    pool: Pool,
    selector: Selector,
}

impl View for LB {
    type V = LBView;

    closed spec fn view(&self) -> LBView {
        LBView { pool: self.pool@, cursor: self.selector@ }
    }
}

impl LB {
    /// A load balancer over `pool`, with the cursor at zero.
    pub fn new(pool: Pool) -> (lb: LB)
        ensures
            lb@.pool == pool@,
            lb@.pool.well_formed(),
            lb@.cursor == 0,
    {
        proof {
            use_type_invariant(&pool);
        }
        LB { pool, selector: Selector::new() }
    }

    /// The pool.
    pub fn pool(&self) -> (pool: &Pool)
        ensures
            pool@ == self@.pool,
            pool@.well_formed(),
    {
        proof {
            use_type_invariant(&self.pool);
        }
        &self.pool
    }

    /// The rotation cursor.
    pub fn cursor(&self) -> (cursor: usize)
        ensures
            cursor == self@.cursor,
    {
        self.selector.cursor()
    }

    /// Takes the load balancer apart into its pool and its cursor.
    pub(crate) fn into_parts(self) -> (parts: (Pool, usize))
        ensures
            parts.0@ == self@.pool,
            parts.1 == self@.cursor,
    {
        let cursor = self.selector.cursor();
        (self.pool, cursor)
    }

    /// Marks the backend at `position` healthy or unhealthy, as
    /// `Pool::set_health` does. The cursor stays.
    pub fn set_health(&mut self, position: usize, healthy: bool)
        ensures
            final(self)@.pool == old(self)@.pool.with_health(position as int, healthy),
            final(self)@.pool.well_formed(),
            final(self)@.cursor == old(self)@.cursor,
    {
        self.pool.set_health(position, healthy);
    }

    /// Decides where the next connection goes.
    ///
    /// The pool is left as it is. Where a backend is healthy, the result is
    /// the one that the selector yields, with TLS exactly when its port is
    /// the secure port, and the cursor moves on by one. Where none is, the
    /// result is `NoHealthyBackend` and the cursor stays.
    pub fn route(&mut self) -> (outcome: Result<UpstreamTarget, RouteError>)
        ensures
            final(self)@.pool == old(self)@.pool,
            final(self)@.pool.well_formed(),
            is_decision(
                old(self)@.pool.addresses,
                old(self)@.pool.health,
                old(self)@.cursor as nat,
                outcome,
            ),
            final(self)@.cursor == if outcome is Ok {
                next_cursor(old(self)@.cursor)
            } else {
                old(self)@.cursor
            },
    {
        let selection = self.selector.select(&self.pool);
        decide(selection)
    }
}

} // verus!
