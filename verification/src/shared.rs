//! A load balancer that many threads use at once.
//!
//! `SharedLB` holds what `LB` holds, with each health flag and the cursor in
//! an atomic of its own: routing reads the flags without waiting for the
//! prober, the prober sets one flag without waiting for routing, and the
//! cursor moves by one atomic step. Its methods take `&self`.
//!
//! Between two reads another thread may have written, so the contracts here
//! do not say which flags a call saw. They say that the result is the one
//! that `Selector::select` and `LB::route` give for some flags and some
//! cursor, and so that it is never out of range.

use crate::backend::{addresses_of, Backend};
use crate::pool::{addresses_at, collect_healthy};
use crate::prober::{ProbeSchedule, Prober, ProberView};
use crate::rotation::{count_healthy, healthy_positions, nth_healthy};
use crate::routing::{decide, is_decision, RouteError, UpstreamTarget, LB};
use crate::selector::{is_choice, Selection};
use std::sync::atomic::{AtomicBool, AtomicUsize, Ordering};
use vstd::prelude::*;

verus! {

/// Reads one health flag.
fn read_flag(flag: &AtomicBool) -> bool {
    flag.load(Ordering::Acquire)
}

/// Writes one health flag.
fn write_flag(flag: &AtomicBool, healthy: bool) {
    flag.store(healthy, Ordering::Release)
}

/// Moves the cursor on by one, starting over from zero after the largest
/// value, and returns the value it had.
fn take_turn(cursor: &AtomicUsize) -> usize {
    cursor.fetch_add(1, Ordering::Relaxed)
}

/// A load balancer behind shared references.
pub struct SharedLB {
    backends: Vec<Backend>,
    health: Vec<AtomicBool>,
    cursor: AtomicUsize,
}

impl SharedLB {
    #[verifier::type_invariant]
    spec fn well_formed(self) -> bool {
        self.backends.len() == self.health.len() && self.backends.len() > 0
    }

    /// The addresses of the backends, in rotation order.
    pub closed spec fn addresses(self) -> Seq<Seq<char>> {
        addresses_of(self.backends@)
    }

    /// Shares `lb`: the same backends in the same order, starting from the
    /// health flags and the cursor that `lb` had.
    pub fn new(lb: LB) -> (shared: SharedLB)
        ensures
            shared.addresses() == lb@.pool.addresses,
            lb@.pool.well_formed(),
    {
        let (pool, start) = lb.into_parts();
        let (backends, flags) = pool.into_parts();
        let mut health: Vec<AtomicBool> = Vec::new();
        let mut i: usize = 0;
        while i < flags.len()
            invariant
                i <= flags.len(),
                health.len() == i,
            decreases flags.len() - i,
        {
            health.push(AtomicBool::new(flags[i]));
            i = i + 1;
        }
        SharedLB { backends, health, cursor: AtomicUsize::new(start) }
    }

    /// The number of backends.
    pub fn len(&self) -> (len: usize)
        ensures
            len == self.addresses().len(),
            len > 0,
    {
        proof {
            use_type_invariant(self);
        }
        self.backends.len()
    }

    /// The backend at `position` in rotation order, if there is one.
    pub fn backend(&self, position: usize) -> (backend: Option<&Backend>)
        ensures
            match backend {
                Some(b) => position < self.addresses().len() && b@ == self.addresses()[position
                    as int],
                None => position >= self.addresses().len(),
            },
    {
        if position < self.backends.len() {
            Some(&self.backends[position])
        } else {
            None
        }
    }

    /// Marks the backend at `position` healthy or unhealthy. No other flag
    /// is written, and a position that the pool does not have writes none.
    pub fn set_health(&self, position: usize, healthy: bool) {
        proof {
            use_type_invariant(self);
        }
        if position < self.health.len() {
            write_flag(&self.health[position], healthy);
        }
    }

    /// Reads the health flags, one after the other, in rotation order.
    pub fn health(&self) -> (flags: Vec<bool>)
        ensures
            flags@.len() == self.addresses().len(),
    {
        proof {
            use_type_invariant(self);
        }
        let mut flags: Vec<bool> = Vec::new();
        let mut i: usize = 0;
        while i < self.health.len()
            invariant
                i <= self.health.len(),
                flags.len() == i,
            decreases self.health.len() - i,
        {
            flags.push(read_flag(&self.health[i]));
            i = i + 1;
        }
        flags
    }

    /// The backends that were found healthy, in rotation order: the healthy
    /// subset for the flags as they were read.
    pub fn snapshot_healthy(&self) -> (snapshot: Vec<Backend>)
        ensures
            exists|health: Seq<bool>|
                health.len() == self.addresses().len() && addresses_of(snapshot@) == addresses_at(
                    self.addresses(),
                    #[trigger] healthy_positions(health),
                ),
    {
        let flags = self.health();
        proof {
            use_type_invariant(self);
        }
        collect_healthy(self.backends.as_slice(), flags.as_slice())
    }

    /// Selects the backend for the next connection: what `Selector::select`
    /// yields for the flags as they were read and the cursor as it was
    /// taken. The cursor moves on by one unless the result is `Exhausted`.
    pub fn select(&self) -> (selection: Selection)
        ensures
            exists|health: Seq<bool>, cursor: nat|
                health.len() == self.addresses().len() && #[trigger] is_choice(
                    self.addresses(),
                    health,
                    cursor,
                    selection,
                ),
    {
        let flags = self.health();
        proof {
            use_type_invariant(self);
        }
        let count = count_healthy(flags.as_slice());
        if count == 0 {
            let selection = Selection::Exhausted;
            proof {
                assert(is_choice(self.addresses(), flags@, 0, selection));
            }
            selection
        } else {
            let turn = take_turn(&self.cursor);
            let selection = match nth_healthy(flags.as_slice(), turn % count) {
                Some(position) => Selection::Backend(self.backends[position].clone()),
                None => Selection::Exhausted,
            };
            proof {
                assert(is_choice(self.addresses(), flags@, turn as nat, selection));
            }
            selection
        }
    }

    /// Decides where the next connection goes: what `LB::route` gives for
    /// the flags as they were read and the cursor as it was taken.
    pub fn route(&self) -> (outcome: Result<UpstreamTarget, RouteError>)
        ensures
            exists|health: Seq<bool>, cursor: nat|
                health.len() == self.addresses().len() && #[trigger] is_decision(
                    self.addresses(),
                    health,
                    cursor,
                    outcome,
                ),
    {
        let selection = self.select();
        let outcome = decide(selection);
        proof {
            let (health, cursor) = choose|health: Seq<bool>, cursor: nat|
                health.len() == self.addresses().len() && #[trigger] is_choice(
                    self.addresses(),
                    health,
                    cursor,
                    selection,
                );
            assert(is_decision(self.addresses(), health, cursor, outcome));
        }
        outcome
    }

    /// Starts health checks, as `Pool::start_health_checks` does.
    pub fn start_health_checks(&self, interval_ms: u64, timeout_ms: u64) -> (prober: Option<
        Prober,
    >)
        ensures
            prober is Some <==> timeout_ms < interval_ms,
            prober matches Some(p) ==> p@ == (ProberView {
                interval_ms,
                timeout_ms,
                backends: self.addresses().len() as usize,
                next_round_ms: 0,
                running: true,
            }),
    {
        match ProbeSchedule::new(interval_ms, timeout_ms) {
            Some(schedule) => Some(Prober::new(schedule, self.len())),
            None => None,
        }
    }
}

} // verus!
