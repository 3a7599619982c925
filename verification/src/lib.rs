//! A firewall that limits how many requests each client may make.
//!
//! Every client is counted by its identifier. A client whose request count
//! goes over the configured threshold is denied until its record is expired,
//! which the caller arranges for once the ban duration has elapsed.
//!
//! The crate holds only the decision logic: it performs no I/O, reads no
//! clock and starts no task. The caller passes the time of each request, and
//! each decision tells it which expiry to arm.
//!
//! - [`admission`]: the firewall, its table of records, and what a request
//!   and an expiry do to the table;
//! - [`record`]: the record of one client;
//! - [`verdict`]: the outcome of a request;
//! - [`trace`]: what holds of the firewall over whole histories of requests
//!   and expiries.

pub mod admission;
pub mod record;
pub mod trace;
pub mod verdict;
