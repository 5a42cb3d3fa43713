//! Process telemetry collector: enumeration helpers, status-text parsing,
//! terminal-device decoding, user-name caching, CPU utilization derivation,
//! and snapshot assembly for a process monitor.
//!
//! The collector works on plain values handed in by the caller (the raw
//! per-process texts and identifiers); reading those values from the system
//! is the caller's concern.

pub mod device;
pub mod digits;
pub mod history;
pub mod identity;
pub mod meminfo;
pub mod model;
pub mod snapshot;
pub mod stat;
pub mod state;
pub mod textfmt;
pub mod tokens;
