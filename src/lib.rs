//! Host registry and remote command dispatch for a small fleet of machines
//! reached over SSH.
//!
//! - `host`: host records, the field lists they are stored under, and the
//!   `host` command line.
//! - `registry`: the ordered records keyed by alias, with add and remove.
//! - `fields`: splitting and joining `|`-separated field lists.
//! - `store`: the text of the store file.
//! - `ssh_con`: the retry and privilege decisions of the remote executor.
//! - `all`: commands over every host, and the aggregated report.
//! - `error`: the error kinds.

pub mod all;
pub mod error;
pub mod fields;
pub mod host;
pub mod registry;
pub mod ssh_con;
pub mod store;
