//! The logic of a virtio device that forwards NVIDIA driver calls from a guest to its host.

pub mod abi;
pub mod bytes;
pub mod config_read;
pub mod errno;
pub mod error;
pub mod gpu_nv;
pub mod handle_table;
pub mod harness;
pub mod nv_gpu_device;
pub mod nvidia;
pub mod paths;
pub mod protocol;
pub mod queue;
pub mod shm;
pub mod sort;
pub mod text;
pub mod version;
pub mod virtio;
