//! The decisions behind the HTTP API.
pub mod auth;
pub mod backup;
pub mod cluster;
pub mod exec;
pub mod images;
pub mod nodes;
pub mod reply;
pub mod resources;
pub mod server;
pub mod vpc;
pub mod watch;
