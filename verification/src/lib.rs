//! Verified core logic of the Spool game launcher.

pub mod text;
pub mod save_template;
pub mod redirects;
pub mod time;
pub mod rclone;
pub mod steam;
pub mod steam_cdn;
pub mod steam_process;
pub mod steam_collections;
pub mod error;
pub mod system_open;
pub mod registry;
pub mod steamgriddb;
pub mod streaming_host;
pub mod proton;
pub mod session;
pub mod runner;
pub mod process;
pub mod sync;
pub mod lan;
pub mod art;
pub mod definitions;
pub mod json_object;
pub mod relay;
