//! Verified core logic of the Plexi command-line host.

pub mod text;
pub mod release;
pub mod host;
pub mod channel;
pub mod notify;
pub mod open;
pub mod install;
pub mod cloud_protocol;
pub mod cloud_runtime;
pub mod config;
pub mod commands;
pub mod crawl;
pub mod watch;
pub mod updater;
pub mod setup;
pub mod validate;
pub mod patch_laws;
pub mod pane;
pub mod palette;
pub mod workspace;
pub mod routine;
pub mod list;
pub mod notes;
pub mod marketplace;
pub mod skill;
pub mod lock;
pub mod requests;
