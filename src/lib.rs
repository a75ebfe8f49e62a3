//! Backend selection for an HTTP load balancer: a fixed pool of backends with
//! round-robin and least-connections policies, and the per-request decisions
//! of the forwarder that sits in front of it.
pub mod forward;
pub mod laws;
pub mod pool;
