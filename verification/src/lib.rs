//! Round-robin load balancing over a pool of upstream backends whose health
//! is probed in the background.
//!
//! * `address`: the `host:port` form of a backend address.
//! * `backend`: one backend, and the transport that its port calls for.
//! * `pool`: the registry of backends, with one health flag beside each.
//! * `rotation`: the arithmetic of rotation over health flags.
//! * `selector`: round-robin selection over the healthy backends of a pool.
//! * `routing`: the decision where a new connection goes, and over which
//!   transport.
//! * `prober`: the decisions of the health prober, as steps from an event to
//!   an action.
//! * `shared`: a load balancer that many threads use at once.
//! * `laws`: what holds of the rotation over any run of selections and
//!   health changes.

pub mod address;
pub mod backend;
pub mod laws;
pub mod pool;
pub mod prober;
pub mod rotation;
pub mod routing;
pub mod selector;
pub mod shared;
