//! Adapters between the process lifecycle and its outside: the Linux host and the lease
//! authority.

pub mod linux_process_lifecycle;
pub mod process_lifecycle_lease;
