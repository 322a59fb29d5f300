//! The Firecracker micro-VM backend for Linux.
pub mod api;
pub mod backend;
pub mod installer;
pub mod jailer;
pub mod network;
pub mod rootfs;
