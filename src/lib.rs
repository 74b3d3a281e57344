//! Connection lifecycle tracking for a proxy: a registry of active flows keyed
//! by their authorization context, each with a cancellation channel and a
//! reference count, and the decisions of the tasks that use it.
pub mod addr;
pub mod connection_manager;
pub mod drain_handles;
pub mod inbound;
pub mod policy;
pub mod rbac;
