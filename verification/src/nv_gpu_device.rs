//! The device with one request queue and a shared-memory window, served by
//! [`crate::nvidia::NvidiaBackend`].

use vstd::prelude::*;

use crate::bytes::{
    group_field_lengths, le32, le64, push_u32, push_u64, push_zeros, u32_at, u32_field, u64_at,
    u64_field, zeros,
};
use crate::config_read::{config_read, read_config_at};
use crate::handle_table::lists_all;
use crate::nvidia::NvidiaBackend;
use crate::shm::{Zone, ZoneConfig};

verus! {

broadcast use group_field_lengths;

/// Number of the device type.
pub const VIRTIO_ID_GPU_NV: u32 = 0x8042;

/// Queues of the device.
pub const NUM_QUEUES: usize = 1;

/// Entries that the queue can have.
pub const QUEUE_SIZE: u16 = 256;

/// Feature: version 1 of virtio.
pub const VIRTIO_F_VERSION_1: u64 = 0x1_0000_0000;

/// Size of the configuration space.
pub const CONFIG_SIZE: usize = 24;

/// Why the device cannot start to work.
#[derive(Clone, Copy, Debug, PartialEq, Eq, Structural)]
pub enum ActivateError {
    /// The number of queues is wrong.
    BadActivate,
}

/// Where the virtual machine put the window.
#[derive(Clone, Copy, Debug, PartialEq, Eq, Structural)]
pub struct VirtioShmRegion {
    pub host_addr: u64,
    pub guest_addr: u64,
    pub size: usize,
}

/// Configuration space.
///
/// Layout: number of GPUs (4), padding (4), guest address of the window (8), its size (8).
#[derive(Clone, Copy, Debug, PartialEq, Eq, Structural)]
pub struct NvGpuConfig {
    pub num_gpus: u32,
    /// Zero until the window is placed.
    pub shm_bar_gpa: u64,
    pub shm_bar_size: u64,
}

impl NvGpuConfig {
    /// The bytes of the configuration space.
    pub open spec fn image(self) -> Seq<u8> {
        le32(self.num_gpus) + zeros(4) + le64(self.shm_bar_gpa) + le64(self.shm_bar_size)
    }

    /// The bytes of the configuration space.
    pub fn to_bytes(&self) -> (r: Vec<u8>)
        ensures
            r@ == self.image(),
            r@.len() == CONFIG_SIZE,
    {
        let mut out: Vec<u8> = Vec::new();
        push_u32(&mut out, self.num_gpus);
        push_zeros(&mut out, 4);
        push_u64(&mut out, self.shm_bar_gpa);
        push_u64(&mut out, self.shm_bar_size);
        assert(out@ =~= self.image());
        out
    }

    /// The guest finds each field at its place.
    pub proof fn image_reads_back(self)
        ensures
            self.image().len() == CONFIG_SIZE,
            u32_at(self.image(), 0) == self.num_gpus,
            u32_at(self.image(), 4) == 0,
            u64_at(self.image(), 8) == self.shm_bar_gpa,
            u64_at(self.image(), 16) == self.shm_bar_size,
    {
        let s = self.image();
        assert(s.subrange(0, 4) =~= le32(self.num_gpus));
        assert(s.subrange(8, 16) =~= le64(self.shm_bar_gpa));
        assert(s.subrange(16, 24) =~= le64(self.shm_bar_size));
        u32_field(s, 0, self.num_gpus);
        crate::bytes::zero_fields();
        assert(s.subrange(4, 8) =~= le32(0));
        u32_field(s, 4, 0);
        u64_field(s, 8, self.shm_bar_gpa);
        u64_field(s, 16, self.shm_bar_size);
    }
}

/// The device.
pub struct NvGpuDevice {
    pub avail_features: u64,
    pub acked_features: u64,
    pub active: bool,
    pub shm_region: Option<VirtioShmRegion>,
    pub config: NvGpuConfig,
    pub backend: NvidiaBackend,
}

impl NvGpuDevice {
    /// The backend is well-formed.
    pub open spec fn wf(&self) -> bool {
        self.backend.wf()
    }

    /// A device whose window has these zones, is `memfd`, and is mapped at `memfd_ptr`.
    pub fn new(cfg: ZoneConfig, memfd: Option<i32>, memfd_ptr: u64) -> (r: Self)
        requires
            cfg.valid(),
            memfd_ptr + cfg.sum() <= u64::MAX,
        ensures
            r.wf(),
            r.avail_features == VIRTIO_F_VERSION_1,
            r.acked_features == 0,
            !r.active,
            r.shm_region is None,
            r.config == (NvGpuConfig {
                num_gpus: 1,
                shm_bar_gpa: 0,
                shm_bar_size: cfg.sum() as u64,
            }),
            r.backend.handles.next_handle() == 1,
            r.backend.handles.fds() == Map::<u64, i32>::empty(),
            r.backend.shm.uc == (Zone { base: 0, size: cfg.uc_size, cursor: 0 }),
            r.backend.shm.wc == (Zone { base: cfg.uc_size, size: cfg.wc_size, cursor: 0 }),
            r.backend.shm.wb == (Zone {
                base: (cfg.uc_size + cfg.wc_size) as u64,
                size: cfg.wb_size,
                cursor: 0,
            }),
            r.backend.shm.base_ptr == memfd_ptr,
            r.backend.shm.memfd == memfd,
    {
        let backend = NvidiaBackend::new(cfg, memfd, memfd_ptr);
        let shm_size = backend.shm_total_size();
        NvGpuDevice {
            avail_features: VIRTIO_F_VERSION_1,
            acked_features: 0,
            active: false,
            shm_region: None,
            config: NvGpuConfig { num_gpus: 1, shm_bar_gpa: 0, shm_bar_size: shm_size },
            backend,
        }
    }

    /// A device with the zones of [`ZoneConfig::default_256mib`].
    pub fn with_default_zones(memfd: Option<i32>, memfd_ptr: u64) -> (r: Self)
        requires
            memfd_ptr + 256 * 1024 * 1024 <= u64::MAX,
        ensures
            r.wf(),
            r.avail_features == VIRTIO_F_VERSION_1,
            r.acked_features == 0,
            !r.active,
            r.shm_region is None,
            r.config == (NvGpuConfig {
                num_gpus: 1,
                shm_bar_gpa: 0,
                shm_bar_size: 0x1000_0000,
            }),
            r.backend.handles.next_handle() == 1,
            r.backend.handles.fds() == Map::<u64, i32>::empty(),
            r.backend.shm.uc == (Zone { base: 0, size: 0x40_0000, cursor: 0 }),
            r.backend.shm.wc == (Zone { base: 0x40_0000, size: 0x800_0000, cursor: 0 }),
            r.backend.shm.wb == (Zone { base: 0x840_0000, size: 0x7c0_0000, cursor: 0 }),
            r.backend.shm.base_ptr == memfd_ptr,
            r.backend.shm.memfd == memfd,
    {
        NvGpuDevice::new(ZoneConfig::default_256mib(), memfd, memfd_ptr)
    }

    /// Takes the place that the virtual machine gave the window.
    pub fn set_shm_region(&mut self, region: VirtioShmRegion)
        ensures
            final(self).shm_region == Some(region),
            final(self).config == (NvGpuConfig {
                num_gpus: old(self).config.num_gpus,
                shm_bar_gpa: region.guest_addr,
                shm_bar_size: region.size as u64,
            }),
            final(self).avail_features == old(self).avail_features,
            final(self).acked_features == old(self).acked_features,
            final(self).active == old(self).active,
            final(self).backend == old(self).backend,
    {
        self.config.shm_bar_gpa = region.guest_addr;
        self.config.shm_bar_size = region.size as u64;
        self.shm_region = Some(region);
    }

    /// The descriptor of the memory behind the window, or -1.
    pub fn shm_memfd_raw(&self) -> (r: i32)
        ensures
            r == match self.backend.shm.memfd {
                Some(fd) => fd,
                None => -1i32,
            },
    {
        self.backend.shm_memfd_raw()
    }

    /// Gives up every handle and returns the host descriptors, which are to be closed.
    pub fn teardown(&mut self) -> (closed: Vec<i32>)
        requires
            old(self).wf(),
        ensures
            final(self).wf(),
            final(self).backend.handles.fds() == Map::<u64, i32>::empty(),
            final(self).backend.handles.next_handle() == old(self).backend.handles.next_handle(),
            lists_all(old(self).backend.handles.fds(), closed@),
            *final(self) == (NvGpuDevice { backend: final(self).backend, ..*old(self) }),
            final(self).backend.shm == old(self).backend.shm,
    {
        self.backend.teardown()
    }

    /// Features that the device offers.
    pub fn avail_features(&self) -> (r: u64)
        ensures
            r == self.avail_features,
    {
        self.avail_features
    }

    /// Features that the guest accepted.
    pub fn acked_features(&self) -> (r: u64)
        ensures
            r == self.acked_features,
    {
        self.acked_features
    }

    /// Takes the features that the guest accepts.
    pub fn set_acked_features(&mut self, acked_features: u64)
        ensures
            *final(self) == (NvGpuDevice { acked_features, ..*old(self) }),
    {
        self.acked_features = acked_features;
    }

    /// Number of the device type.
    pub fn device_type(&self) -> (r: u32)
        ensures
            r == VIRTIO_ID_GPU_NV,
    {
        VIRTIO_ID_GPU_NV
    }

    /// Name of the device.
    pub fn device_name(&self) -> (r: &'static str)
        ensures
            r@ == "gpu-nv"@,
    {
        "gpu-nv"
    }

    /// Sizes of the queues.
    pub fn queue_config(&self) -> (r: Vec<u16>)
        ensures
            r@ == seq![QUEUE_SIZE],
    {
        let sizes = vec![QUEUE_SIZE];
        assert(sizes@ =~= seq![QUEUE_SIZE]);
        sizes
    }

    /// Reads the configuration space.
    pub fn read_config(&self, offset: u64, data: &mut [u8])
        ensures
            final(data)@ == config_read(self.config.image(), offset, old(data)@),
    {
        let bytes = self.config.to_bytes();
        read_config_at(bytes.as_slice(), offset, data);
    }

    /// The guest cannot write the configuration space.
    pub fn write_config(&mut self, _offset: u64, _data: &[u8])
        ensures
            *final(self) == *old(self),
    {
    }

    /// Starts to work.
    pub fn activate(&mut self, num_queues: usize) -> (r: Result<(), ActivateError>)
        ensures
            r == if num_queues == NUM_QUEUES {
                Ok::<(), ActivateError>(())
            } else {
                Err(ActivateError::BadActivate)
            },
            *final(self) == (NvGpuDevice {
                active: old(self).active || num_queues == NUM_QUEUES,
                ..*old(self)
            }),
    {
        if num_queues != NUM_QUEUES {
            return Err(ActivateError::BadActivate);
        }
        self.active = true;
        Ok(())
    }

    /// Whether the device is at work.
    pub fn is_activated(&self) -> (r: bool)
        ensures
            r == self.active,
    {
        self.active
    }

    /// Stops work: gives up every handle and returns the host descriptors, which are to be
    /// closed.
    pub fn reset(&mut self) -> (closed: Vec<i32>)
        requires
            old(self).wf(),
        ensures
            final(self).wf(),
            !final(self).active,
            final(self).backend.handles.fds() == Map::<u64, i32>::empty(),
            final(self).backend.handles.next_handle() == old(self).backend.handles.next_handle(),
            lists_all(old(self).backend.handles.fds(), closed@),
            *final(self) == (NvGpuDevice {
                active: false,
                backend: final(self).backend,
                ..*old(self)
            }),
            final(self).backend.shm == old(self).backend.shm,
    {
        let closed = self.teardown();
        self.active = false;
        closed
    }

    /// Where the virtual machine put the window, once it has.
    pub fn shm_region(&self) -> (r: Option<VirtioShmRegion>)
        ensures
            r == self.shm_region,
    {
        self.shm_region
    }
}

} // verus!
