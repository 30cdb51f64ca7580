//! A dual-heap embedding bridge: a host interpreter executes scripts in an
//! independently garbage-collected guest runtime, and scripts call back
//! synchronously into the host. The library holds the verified core: the
//! value model and textual marshalling of primitives, the proxy registry
//! that keeps host values alive exactly as long as the guest can reach them,
//! the call dispatch and error bridge, the exclusive-borrow execution
//! context, and the capability configuration. The guest engine itself and
//! the host interpreter stay outside, behind plain-value interfaces.

pub mod bridge;
pub mod codec;
pub mod config;
pub mod context;
pub mod dispatch;
pub mod registry;
pub mod value;
