//! Benchmarks effective network throughput to one upstream resource across a
//! set of candidate source bindings (local addresses or isolated container
//! networks), by launching a real transfer tool once per binding per pass and
//! ranking the bindings by observed bandwidth.
//!
//! This crate holds the verified core: transfer-program argument construction,
//! binding-address validation, the bounded-wait and termination state
//! machines, the pass/binding orchestration, and the trimmed-mean
//! aggregation. The thin process layer around it (spawning, signalling,
//! filesystem and terminal work) lives outside the library and drives these
//! state machines.

pub mod addr;
pub mod aggregate;
pub mod bench;
pub mod config;
pub mod program;
pub mod runner;
pub mod supervise;
pub mod text;
