//! Orchestration core of a command-line front-end for an external
//! download-accelerator process: deriving a safe output filename for each
//! URL, building the external invocation with its fixed reliability
//! policy, deciding the supervision of the spawned process (progress
//! parsing, cancellation, exit-status interpretation), and coordinating a
//! batch of downloads under a bounded concurrency factor.
//!
//! Network requests, process handling and filesystem setup live in the
//! surrounding binary; every decision taken about their results is
//! verified here.

pub mod batch;
pub mod clock;
pub mod disposition;
pub mod invocation;
pub mod progress;
pub mod sanitize;
pub mod supervisor;
pub mod text;
pub mod urlinfo;
