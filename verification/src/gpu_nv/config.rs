//! What a device is made of: GPUs, capabilities, and host files that the guest gets to see.

use vstd::prelude::*;

verus! {

/// A host sysfs file that the guest gets a copy of.
#[derive(Clone, Debug)]
pub struct SysFile {
    /// Path below /sys, such as "devices/system/node/node0/cpumap".
    pub path: String,
    /// Raw content.
    pub content: Vec<u8>,
}

/// A DRI device node of one of the device's GPUs.
#[derive(Clone, Debug)]
pub struct DriDevice {
    /// Name of the node, such as "renderD128" or "card1".
    pub name: String,
    pub major: u32,
    pub minor: u32,
    /// The driver's number of the GPU, or zero where it is not known.
    pub gpu_id: u32,
}

/// A host procfs file that the guest gets a copy of.
#[derive(Clone, Debug)]
pub struct HostProcFile {
    /// Path below /proc, such as "driver/nvidia/gpus/0000:08:00.0/information".
    pub guest_path: String,
    /// Content on the host.
    pub content: String,
}

/// One GPU.
#[derive(Clone, Debug)]
pub struct GpuInfo {
    /// PCI address.
    pub pci_addr: String,
    /// Minor number of its device file: /dev/nvidia followed by this number.
    pub minor: u32,
    /// The file "information" that the host's driver has of it.
    pub information: HostProcFile,
}

/// Configuration of a device, fixed before the guest starts.
#[derive(Clone, Debug)]
pub struct GpuNvConfig {
    /// Number of GPUs, 1 to 8.
    pub num_gpus: u32,
    /// Capabilities: a sum of NVGPU_CAP_ constants.
    pub caps: u32,
    /// Version of the host's driver, such as "595.58.03".
    pub driver_version: String,
    /// The GPUs, in the order in which the guest sees them.
    pub gpus: Vec<GpuInfo>,
    /// Host proc files for the guest.
    pub extra_proc: Vec<HostProcFile>,
    /// Host sysfs files for the guest.
    pub sys_files: Vec<SysFile>,
    /// DRI device nodes of the GPUs.
    pub dri_devices: Vec<DriDevice>,
}

} // verus!
