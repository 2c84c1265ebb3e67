//! Core logic of a Bluetooth battery tray monitor: device records, snapshots
//! of the currently paired devices, reconciliation of successive snapshots
//! into typed notification events with low-battery hysteresis, supervision of
//! a single live-watch task, and the retry policy for device enumeration.
//!
//! Everything here is pure logic over plain values; querying the platform
//! Bluetooth stack, rendering the tray and delivering toasts live outside
//! this crate.

pub mod builder;
pub mod config;
pub mod device;
pub mod listen;
pub mod notified;
pub mod pnp;
pub mod reconcile;
pub mod retry;
pub mod snapshot;
pub mod tray_info;
pub mod util;
pub mod watch;
