//! Verified core of the anime-notif release watcher.

pub mod text;
pub mod keyed;
pub mod json;
pub mod jqpath;
pub mod digest;
pub mod model;
pub mod paths;
pub mod regexes;
pub mod config;
pub mod resolution;
pub mod source;
pub mod extract;
pub mod download;
pub mod notify;
pub mod store;
pub mod workflow;
pub mod cli;
pub mod table;
pub mod logs;
pub mod control;
pub mod cover;
pub mod fetch;
