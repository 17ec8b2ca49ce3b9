//! Core of a local storage-pool manager.
//!
//! Raw block devices are aggregated into named, UUID-identified pools. Each
//! pool carries a small metadata volume (MDV) on which filesystem metadata is
//! persisted durably and crash-safely. The engine orchestrates discovery,
//! creation, renaming, destruction and teardown of pools over a registry that
//! keeps both UUIDs and names unique.
//!
//! Device, mount and wire-level I/O happen outside this crate; the types here
//! work on plain values handed in by that outer layer.

pub mod types;
pub mod errors;
pub mod dbus_api;
pub mod table;
pub mod mdv;
pub mod blockdev;
pub mod pool;
pub mod engine;
