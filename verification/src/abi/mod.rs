//! The binary interface of the NVIDIA kernel driver.

pub mod ioctl;
pub mod versions;
