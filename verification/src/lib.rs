//! Hardware-telemetry text engine: classifies the GPU vendor, parses the
//! loosely structured output of diagnostic tools (a unified hardware monitor,
//! a GPU vendor query tool, a PCI enumerator, a memory statistics tool, and
//! the kernel's cpuinfo/stat pseudo-files) into a single snapshot record, and
//! computes the derived metrics (CPU load, RAM percentage).
//!
//! The callers that invoke the tools and display the snapshot live outside
//! this crate; every function here is a total function from provider text to
//! snapshot fields.

pub mod model;
pub mod scan;
pub mod snapshot;
pub mod stat;
pub mod text;
