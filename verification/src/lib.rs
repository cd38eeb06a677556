//! Forensically sound duplication primitives: a dual-digest engine that binds
//! content to a filename and trusted timestamp, the copy pipeline's buffer and
//! ordering discipline, trusted-timestamp packet handling, and the small
//! string computations the command line needs.

pub mod cli;
pub mod hash;
pub mod ntp;
pub mod pipeline;
pub mod report;
