//! Core of a polyglot service host: the handle registry that tracks loaded
//! services and their per-client usages, together with the decisions that
//! the host takes around it.
//!
//! - `handle`: the 64-bit handle and its decimal string.
//! - `service`: what a service declares, and what is kept of a loaded one.
//! - `registry`: the three indexes of loaded services and their invariant.
//! - `history`: what holds over any sequence of registrations and releases.
//! - `json`: JSON documents, read and written through `serde_json`.
//! - `dispatch`: from a call descriptor to a planned call and its response.
//! - `manifest`: the document that declares a service to be installed.
//! - `install`: what is decided when a service is installed or removed.
//! - `ipc`: the opening handshake of a client connection.
//! - `error`: the error kinds reported at the boundary.
//!
//! The library decides and keeps state; it touches neither the disk nor a
//! socket, and it calls no loaded code. Its caller does that and hands back
//! what came of it.

pub mod dispatch;
pub mod error;
pub mod handle;
pub mod history;
pub mod install;
pub mod ipc;
pub mod json;
pub mod manifest;
pub mod registry;
pub mod service;
