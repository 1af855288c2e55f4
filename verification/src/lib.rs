//! A verified core for a random-access storage benchmark.
//!
//! The library models the benchmark's data and decisions: configuration
//! derivation, backing-file paths, the fill plan for provisioning, the
//! shared random workload, and the chunk operations that the workers
//! replay against a memory-mapped backing file.

use vstd::prelude::*;

pub mod aggregate;
pub mod chunk;
pub mod config;
pub mod mapped;
pub mod paths;
pub mod provision;
pub mod words;
pub mod worker;
pub mod workload;

verus! {

/// Size in bytes of one chunk, the unit of every random-access operation.
pub const CHUNKSIZE: u64 = 4096;

} // verus!
