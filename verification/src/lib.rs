//! Host telemetry snapshots and process-control planning.
//!
//! The library keeps a snapshot of the host, derives facts from it, and says
//! what is to be done to control a process or a service. It reads nothing and
//! acts on nothing by itself: the caller reads the host and hands over what it
//! read, and carries out what the library decided.
//!
//! - [`snapshot`]: the snapshot and how a reading changes it.
//! - [`classifier`]: process listing, system statistics, security audit and
//!   hardware description.
//! - [`inspector`]: watched services and autostart entries.
//! - [`actuator`]: signals and priorities for processes.
//! - [`journal`]: the tail of the system log.
//! - [`command`]: runs of external tools and what their end means.
//! - [`ranking`]: ranking by a key, as the process listing uses it.
//! - [`text`]: text handling on characters.

pub mod actuator;
pub mod classifier;
pub mod command;
pub mod inspector;
pub mod journal;
pub mod ranking;
pub mod snapshot;
pub mod text;
