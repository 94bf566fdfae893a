//! The backend registry: the configured backends in rotation order, and one
//! health flag beside each.

use crate::address::is_address;
use crate::backend::{addresses_of, Backend};
use crate::prober::{ProbeSchedule, Prober, ProberView};
use crate::rotation::healthy_positions;
use vstd::prelude::*;

verus! {

/// Why a pool could not be made.
#[derive(Clone, Copy, Debug, PartialEq, Eq)]
pub enum PoolError {
    /// No address was given.
    EmptyPool,
    /// An address is not of the form `host:port`.
    InvalidAddress,
}

/// What a pool is, to its contracts: the addresses of its backends in
/// rotation order, and the health flag of each.
pub struct PoolView {
    pub addresses: Seq<Seq<char>>,
    pub health: Seq<bool>,
}

impl PoolView {
    /// A pool holds at least one backend, a flag for each, and only addresses
    /// of the form `host:port`.
    pub open spec fn well_formed(self) -> bool {
        &&& self.addresses.len() > 0
        &&& self.health.len() == self.addresses.len()
        &&& forall|i: int|
            0 <= i < self.addresses.len() ==> is_address(#[trigger] self.addresses[i])
    }

    /// The number of backends.
    pub open spec fn len(self) -> nat {
        self.addresses.len()
    }

    /// The pool made from `addresses`: the same addresses in the same order,
    /// each marked healthy.
    pub open spec fn registered(addresses: Seq<Seq<char>>) -> PoolView {
        PoolView { addresses, health: Seq::new(addresses.len(), |i: int| true) }
    }

    /// This pool with the flag at `position` set to `healthy`; this pool
    /// itself where it has no such position.
    pub open spec fn with_health(self, position: int, healthy: bool) -> PoolView {
        if 0 <= position < self.health.len() {
            PoolView { addresses: self.addresses, health: self.health.update(position, healthy) }
        } else {
            self
        }
    }

    /// The addresses of the healthy backends, in rotation order.
    pub open spec fn healthy_subset(self) -> Seq<Seq<char>> {
        addresses_at(self.addresses, healthy_positions(self.health))
    }
}

/// The addresses that stand at `positions`, in the order of `positions`.
pub open spec fn addresses_at(addresses: Seq<Seq<char>>, positions: Seq<int>) -> Seq<Seq<char>> {
    Seq::new(positions.len(), |k: int| addresses[positions[k]])
}

/// The texts of `strings`, in order.
pub open spec fn texts_of(strings: Seq<String>) -> Seq<Seq<char>> {
    Seq::new(strings.len(), |i: int| strings[i]@)
}

/// The backend registry.
///
/// The backends and their order are fixed when the pool is made. Only the
/// health flags change afterwards, one at a time, through `set_health`.
pub struct Pool {
    backends: Vec<Backend>,
    health: Vec<bool>,
}

impl View for Pool {
    type V = PoolView;

    closed spec fn view(&self) -> PoolView {
        PoolView { addresses: addresses_of(self.backends@), health: self.health@ }
    }
}

impl Pool {
    /// Every pool is well formed.
    #[verifier::type_invariant]
    pub open spec fn well_formed(self) -> bool {
        self@.well_formed()
    }

    /// Makes a pool of the backends at `addresses`, in that order, each
    /// marked healthy. Nothing is removed or merged: an address given twice
    /// is two backends.
    ///
    /// Fails with `EmptyPool` when `addresses` is empty, and with
    /// `InvalidAddress` when one of them is not of the form `host:port`.
    pub fn register(addresses: &[String]) -> (pool: Result<Pool, PoolError>)
        ensures
            pool is Ok <==> addresses@.len() > 0 && forall|i: int|
                0 <= i < addresses@.len() ==> is_address(#[trigger] addresses@[i]@),
            pool matches Ok(p) ==> p@ == PoolView::registered(texts_of(addresses@))
                && p@.well_formed(),
            pool matches Err(e) ==> e == if addresses@.len() == 0 {
                PoolError::EmptyPool
            } else {
                PoolError::InvalidAddress
            },
    {
        if addresses.len() == 0 {
            return Err(PoolError::EmptyPool);
        }
        let mut backends: Vec<Backend> = Vec::new();
        let mut health: Vec<bool> = Vec::new();
        let mut i: usize = 0;
        while i < addresses.len()
            invariant
                i <= addresses.len(),
                backends.len() == i,
                health.len() == i,
                forall|k: int| 0 <= k < i ==> #[trigger] backends[k]@ == addresses@[k]@,
                forall|k: int| 0 <= k < i ==> is_address(#[trigger] addresses@[k]@),
                forall|k: int| 0 <= k < i ==> #[trigger] health[k],
            decreases addresses.len() - i,
        {
            match Backend::new(addresses[i].as_str()) {
                Some(backend) => {
                    backends.push(backend);
                    health.push(true);
                },
                None => {
                    return Err(PoolError::InvalidAddress);
                },
            }
            i = i + 1;
        }
        proof {
            assert(addresses_of(backends@) == texts_of(addresses@));
            assert(health@ == Seq::new(addresses@.len(), |i: int| true));
        }
        Ok(Pool { backends, health })
    }

    /// The number of backends.
    pub fn len(&self) -> (len: usize)
        ensures
            len == self@.len(),
            self@.well_formed(),
    {
        proof {
            use_type_invariant(self);
        }
        self.backends.len()
    }

    /// The backend at `position` in rotation order, if there is one.
    pub fn backend(&self, position: usize) -> (backend: Option<&Backend>)
        ensures
            match backend {
                Some(b) => position < self@.len() && b@ == self@.addresses[position as int],
                None => position >= self@.len(),
            },
    {
        if position < self.backends.len() {
            Some(&self.backends[position])
        } else {
            None
        }
    }

    /// Whether the backend at `position` is marked healthy; `None` where the
    /// pool has no such position.
    pub fn is_healthy(&self, position: usize) -> (healthy: Option<bool>)
        ensures
            match healthy {
                Some(h) => position < self@.len() && h == self@.health[position as int],
                None => position >= self@.len(),
            },
    {
        proof {
            use_type_invariant(self);
        }
        if position < self.health.len() {
            Some(self.health[position])
        } else {
            None
        }
    }

    /// The health flags, in rotation order.
    pub fn health(&self) -> (flags: &[bool])
        ensures
            flags@ == self@.health,
            self@.well_formed(),
    {
        proof {
            use_type_invariant(self);
        }
        self.health.as_slice()
    }

    /// Marks the backend at `position` healthy or unhealthy. Every other
    /// flag, and every address, stays as it is. A position that the pool
    /// does not have changes nothing.
    pub fn set_health(&mut self, position: usize, healthy: bool)
        ensures
            final(self)@ == old(self)@.with_health(position as int, healthy),
            final(self)@.well_formed(),
    {
        proof {
            use_type_invariant(&*self);
        }
        if position < self.health.len() {
            self.health[position] = healthy;
        }
    }

    /// Takes the pool apart into its backends and their health flags.
    pub(crate) fn into_parts(self) -> (parts: (Vec<Backend>, Vec<bool>))
        ensures
            addresses_of(parts.0@) == self@.addresses,
            parts.1@ == self@.health,
            self@.well_formed(),
    {
        proof {
            use_type_invariant(&self);
        }
        (self.backends, self.health)
    }

    /// The healthy backends, in rotation order. The result may be empty.
    pub fn snapshot_healthy(&self) -> (snapshot: Vec<Backend>)
        ensures
            addresses_of(snapshot@) == self@.healthy_subset(),
            self@.well_formed(),
    {
        proof {
            use_type_invariant(self);
        }
        collect_healthy(self.backends.as_slice(), self.health.as_slice())
    }

    /// Starts health checks on this pool: the prober that comes back is
    /// running, probes every backend of the pool, and has its first round
    /// due at once. `None` unless the timeout is strictly shorter than the
    /// interval, both in milliseconds.
    pub fn start_health_checks(&self, interval_ms: u64, timeout_ms: u64) -> (prober: Option<
        Prober,
    >)
        ensures
            prober is Some <==> timeout_ms < interval_ms,
            prober matches Some(p) ==> p@ == (ProberView {
                interval_ms,
                timeout_ms,
                backends: self@.len() as usize,
                next_round_ms: 0,
                running: true,
            }),
    {
        match ProbeSchedule::new(interval_ms, timeout_ms) {
            Some(schedule) => Some(Prober::new(schedule, self.len())),
            None => None,
        }
    }
}

/// The backends whose flag is set, in order. `flags` holds one flag for each
/// of `backends`.
pub(crate) fn collect_healthy(backends: &[Backend], flags: &[bool]) -> (healthy: Vec<Backend>)
    requires
        backends@.len() == flags@.len(),
    ensures
        addresses_of(healthy@) == addresses_at(addresses_of(backends@), healthy_positions(flags@)),
{
    let mut healthy: Vec<Backend> = Vec::new();
    let mut i: usize = 0;
    while i < flags.len()
        invariant
            i <= flags.len(),
            backends@.len() == flags@.len(),
            addresses_of(healthy@) == addresses_at(
                addresses_of(backends@),
                healthy_positions(flags@.take(i as int)),
            ),
        decreases flags.len() - i,
    {
        proof {
            assert(flags@.take(i + 1).drop_last() == flags@.take(i as int));
        }
        if flags[i] {
            let backend = backends[i].clone();
            healthy.push(backend);
            proof {
                assert(addresses_at(
                    addresses_of(backends@),
                    healthy_positions(flags@.take(i as int)).push(i as int),
                ) == addresses_at(
                    addresses_of(backends@),
                    healthy_positions(flags@.take(i as int)),
                ).push(backend@));
            }
        }
        i = i + 1;
    }
    proof {
        assert(flags@.take(i as int) == flags@);
    }
    healthy
}

} // verus!
