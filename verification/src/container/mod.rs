//! Container runtimes and micro-VMs: what they are told and what is read from them.
pub mod backend;
pub mod firecracker;
pub mod image;
pub mod installer;
pub mod kernel;
pub mod rootfs;
pub mod runtime;
pub mod size;
pub mod state;
pub mod virt;
pub mod vm;
