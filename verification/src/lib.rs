//! Measures the memory impact of a process and all of its descendants.
//!
//! The crate holds the decision logic of the sampler: parsing the per-process
//! status and memory-accounting text, resolving the descendants of a target
//! process, aggregating their resident memory, and rendering samples through
//! a compiled output template. Reading the process table, sleeping between
//! ticks and writing the output are left to the caller.

pub mod decimal;
pub mod proc_stat;
pub mod sampler;
pub mod size;
pub mod statm;
pub mod template;
pub mod text;
pub mod tree;

