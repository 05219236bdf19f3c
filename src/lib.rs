//! A deterministic rollback buffer: frame-indexed snapshots in a ring, changes
//! deferred to past frames, and a rewind / replay state machine that brings the
//! live state back to the newest frame.

pub mod access;
pub mod buffer;
pub mod changes;
pub mod error;
pub mod laws;
pub mod model;
pub mod resources;
pub mod registry;
pub mod ring;
pub mod state;
pub mod tick;

pub use access::{AccessError, AccessKey, FetchLQuery, FetchLRes, FetchLResMut, SystemAccess};
pub use buffer::{ReplayAction, RollbackBuffer, Snapshot};
pub use changes::DeferredChangeQueue;
pub use error::RollbackError;
pub use registry::ResourceTrackRegistry;
pub use resources::{ResourceId, ResourceSet};
pub use ring::SnapshotRing;
pub use state::RollbackState;
pub use tick::TickSignal;
