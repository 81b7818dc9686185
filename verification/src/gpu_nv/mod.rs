//! The device with a control queue and direct mappings of GPU memory.

pub mod allowlist;
pub mod config;
pub mod config_space;
pub mod device;
pub mod files;
pub mod host_files;
pub mod host_info;
pub mod laws;
pub mod libs;
pub mod meaning;
pub mod mmio;
pub mod model;
pub mod step;
pub mod wire;
pub mod worker;
