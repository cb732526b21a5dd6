//! Model artifact registry, installer rules and execution-provider selection
//! for on-device background removal.

pub mod backend;
pub mod bench;
pub mod cache;
pub mod call;
pub mod cli;
pub mod digest;
pub mod download;
pub mod ffi;
pub mod inference;
pub mod installation;
pub mod installer;
pub mod ios;
pub mod names;
pub mod paths;
pub mod provider;
pub mod registry;
pub mod selection;
pub mod sizing;
pub mod tauri_plugin;
pub mod telemetry;
pub mod text;
pub mod v1;
pub mod verify;
pub mod weights;
