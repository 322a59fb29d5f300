//! Verified core of the k3rs container orchestrator.
pub mod api;
pub mod collections;
pub mod constants;
pub mod container;
pub mod controllers;
pub mod gzip;
pub mod ids;
pub mod json;
pub mod keys;
pub mod metrics;
pub mod model;
pub mod net;
pub mod numbers;
pub mod split;
pub mod text;
pub mod time;
