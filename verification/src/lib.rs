//! An in-memory registry of named services, shared between concurrent
//! request handlers behind a readers-writer lock.
//!
//! - [`record`]: the service record.
//! - [`model`]: the registry as mathematics: the two registration policies
//!   and what a snapshot shows.
//! - [`lemmas`]: what holds of registrations and snapshots.
//! - [`registry`]: the registry itself, with its two operations.
//! - [`snapshot`]: the copy of its records that a registry hands out.
//! - [`store`]: a registry behind a lock, for many threads at once.
//! - [`handlers`]: the two request handlers built on the store.

pub mod handlers;
pub mod lemmas;
mod lock;
pub mod model;
pub mod record;
pub mod registry;
pub mod snapshot;
pub mod store;
