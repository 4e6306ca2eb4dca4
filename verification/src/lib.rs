//! Decision logic of the bug-hunting daemon.

pub mod backend;
pub mod backends;
pub mod cli;
pub mod config;
pub mod daemon;
pub mod dep_scan;
pub mod domain;
pub mod forge;
pub mod ingest;
pub mod json;
pub mod playbooks;
pub mod scheduler;
pub mod server;
pub mod store;
pub mod text;
pub mod time;
pub mod types;
pub mod util;
pub mod workspace;
