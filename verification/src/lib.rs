//! Self-updating desktop applications from GitHub Releases.
//!
//! This library holds the decisions: which release is an update, what to fetch and how much of
//! it, when an executable may be stored, and how it replaces the running one. The calls to the
//! network, the file system and the processes of Windows are made around it.
pub mod checksum;
pub mod config;
pub mod download;
pub mod http;
pub mod install;
pub mod manager;
pub mod names;
pub mod number;
pub mod release;
pub mod text;
pub mod url;
pub mod version;

pub use crate::config::UpdateConfig;
pub use crate::download::download_update;
pub use crate::install::apply_update;
pub use crate::manager::{UpdateManager, UpdateStatus};
pub use crate::release::{check_latest_release, UpdateInfo};
