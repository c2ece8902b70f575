//! Supervision core for a single backend ("sidecar") process.
//!
//! The library holds the verified logic of the supervisor: detecting the
//! readiness marker in the child's stdout lines and extracting the bound
//! port (`detect`), the shared cell for the child's process identifier and
//! the shutdown-time lifecycle guard (`pid_state`), and the step function of
//! the supervising task (`supervise`). Spawning, stream I/O and the actual
//! kill request live outside the library and act only on the decisions made
//! here.

pub mod detect;
pub mod pid_state;
pub mod supervise;
