//! Compare hash-table collision-resolution strategies under identical
//! workloads.
//!
//! The library offers a uniform, strongly-typed adapter over several
//! u64-keyed table backends (four native collision-resolution strategies
//! plus an in-process reference container), and a benchmark harness that
//! runs a fixed scenario catalogue against any backend and reports elapsed
//! time together with the correctness counters each scenario observed.

mod clock;
pub mod harness;
pub mod hashing;
pub mod hashmap;
pub mod script;
pub mod table;
