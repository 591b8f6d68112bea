//! Watcher for a remotely published price: a polling state machine that
//! detects changes against the last persisted observation, decides when a
//! notification is owed, and manages a background daemon's pid record.
//!
//! The library holds the decision logic, fully verified; process detachment,
//! file access and network transport are left to the surrounding binary.

pub mod daemon;
pub mod notify;
pub mod price;
pub mod store;
pub mod watch;
