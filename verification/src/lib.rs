//! Task orchestration for a sandboxed build service.
//!
//! The crate covers the core of the service: the task model and the
//! dependency-tracking work queue, the manager that turns runnable tasks
//! into sandbox invocations, the sandbox build-and-run protocol with its
//! guaranteed cleanup, the persisted build-status state machine, and the
//! session-token grammar. Everything here is verified; process plumbing
//! (HTTP handlers, database access, the container runtime itself) lives
//! outside and talks to this crate through plain values.

pub mod manager;
pub mod models;
pub mod queue;
pub mod sandbox;
pub mod task;
pub mod token;
