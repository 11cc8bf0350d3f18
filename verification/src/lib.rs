//! Two lookup containers that let many distinct keys share one stored value.
//!
//! - [`idx`] holds an indexed multimap: keys resolve to a small integer
//!   handle, and handles resolve to the stored values, so a value inserted
//!   once can be reached from arbitrarily many keys through its handle.
//! - [`rc`] holds a shared-value multimap: keys map straight to a
//!   reference-counted handle, so every key jointly owns the value it
//!   points at.
//! - [`harness`] holds the measured body of the workload that compares the
//!   two designs: mint one value, then bind a single key to it many times.

pub mod harness;
pub mod idx;
pub mod rc;
