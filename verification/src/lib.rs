//! Client-side state synchronizer for compositor protocol extensions
//! (workspace management, toplevel enumeration, screen and window capture).
//!
//! Compositor-owned objects (workspace groups, workspaces, toplevels, capture
//! sessions, capture frames) publish their state as batches of asynchronous
//! notification events. This crate reconciles those partial mutations into
//! consistent, atomically published snapshots: field events accumulate in a
//! pending snapshot, and a commit sentinel publishes it as the current one.
//! The transport that carries the events is left to the embedding program,
//! which feeds each event into the engines defined here as plain values.

pub mod binder;
pub mod codec;
pub mod egl;
pub mod export_dmabuf;
pub mod identity;
pub mod screencopy;
pub mod table;
pub mod toplevel_info;
pub mod toplevel_management;
pub mod workspace;

pub use codec::Tagged;
pub use identity::RemoteIdentity;
