//! Discovers which processes are listening on network ports and terminates
//! them with correct privilege semantics.
//!
//! The library is a pure core: kernel socket tables and the process table are
//! handed in as snapshot values, parsed and merged here, and the few calls
//! that must touch the running system (signal delivery, user database
//! lookups) sit behind small trusted wrappers.

pub mod commands;
pub mod presets;
pub mod process_manager;
pub mod resolver;
pub mod scanner;
pub mod strutil;
pub mod types;

pub use commands::{get_ports, get_presets, get_tray_stats, kill_process, scan_port_range};
