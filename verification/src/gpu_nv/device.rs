//! The device, as the virtual machine sees it before and while it is at work.

use std::collections::HashMap;
use std::sync::Arc;

use vstd::prelude::*;

use crate::config_read::{config_read, read_config_at};
use crate::gpu_nv::allowlist::{
    frontend_allowed, has_cap, AllowedIoctls, NVGPU_CAP_COMPUTE, NVGPU_CAP_GRAPHICS,
    NVGPU_CAP_VIDEO,
};
use crate::gpu_nv::config::GpuNvConfig;
use crate::gpu_nv::config_space::{config_bytes, config_image};
use crate::gpu_nv::mmio::MmioAllocator;
use crate::gpu_nv::model::{HostFdView, WorkerView};
use crate::gpu_nv::step::GpuMapping;
use crate::gpu_nv::worker::{fds_view, HostFd, Worker};

verus! {

broadcast use vstd::std_specs::hash::group_hash_axioms;

/// Number of the device type.
pub const VIRTIO_ID_GPU_NV: u32 = 45;

/// Queues of the device: one for control, one for events.
pub const NUM_QUEUES: usize = 2;

/// Entries that each queue can have.
pub const QUEUE_SIZE: u16 = 256;

/// Why a device cannot start to work.
#[derive(Clone, Copy, Debug, PartialEq, Eq, Structural)]
pub enum ActivateError {
    /// The number of queues is wrong.
    BadActivate,
}

/// The features in the lower half: unified memory, video and graphics, as `caps` has them.
pub open spec fn low_features(caps: u32) -> u32 {
    let uvm: int = if has_cap(caps, NVGPU_CAP_COMPUTE) {
        1
    } else {
        0
    };
    let encode: int = if has_cap(caps, NVGPU_CAP_VIDEO) {
        2
    } else {
        0
    };
    let graphics: int = if has_cap(caps, NVGPU_CAP_GRAPHICS) {
        4
    } else {
        0
    };
    (uvm + encode + graphics) as u32
}

/// All features: those of the lower half, and bit 32 for version 1 of virtio.
pub open spec fn features_of(caps: u32) -> u64 {
    (0x1_0000_0000 + low_features(caps)) as u64
}

/// The features in the lower half.
fn low_feature_bits(caps: u32) -> (r: u32)
    ensures
        r == low_features(caps),
{
    let mut bits: u32 = 0;
    if caps & NVGPU_CAP_COMPUTE != 0 {
        bits = bits + 1;
    }
    if caps & NVGPU_CAP_VIDEO != 0 {
        bits = bits + 2;
    }
    if caps & NVGPU_CAP_GRAPHICS != 0 {
        bits = bits + 4;
    }
    bits
}

/// The device.
pub struct GpuNv {
    config: Arc<GpuNvConfig>,
    fd_table: HashMap<u32, HostFd>,
    next_handle: u32,
    avail_features: u64,
    acked_features: u64,
    mappings: HashMap<u32, GpuMapping>,
    next_mapping_id: u32,
    mmio_alloc: MmioAllocator,
    next_kvm_slot: u32,
    allowed_ioctls: Arc<AllowedIoctls>,
    active: bool,
}

/// A state in which nothing is open, mapped or left to map.
pub open spec fn emptied(s: WorkerView) -> WorkerView {
    WorkerView {
        fds: Map::<u32, HostFdView>::empty(),
        mappings: Map::<u32, GpuMapping>::empty(),
        mmio: MmioAllocator { base: 0, next: 0, limit: 0 },
        ..s
    }
}

impl GpuNv {
    /// The state with which the device would start to work.
    pub closed spec fn state(&self) -> WorkerView {
        WorkerView {
            config: *self.config,
            allowed: self.allowed_ioctls.frontend(),
            uvm: self.allowed_ioctls.uvm(),
            fds: fds_view(self.fd_table@),
            next_handle: self.next_handle,
            mappings: self.mappings@,
            next_mapping_id: self.next_mapping_id,
            mmio: self.mmio_alloc,
            next_kvm_slot: self.next_kvm_slot,
            pending: None,
        }
    }

    /// Features that the device offers.
    pub closed spec fn offered(&self) -> u64 {
        self.avail_features
    }

    /// Features that the guest accepted.
    pub closed spec fn accepted(&self) -> u64 {
        self.acked_features
    }

    /// The device is at work.
    pub closed spec fn active(&self) -> bool {
        self.active
    }

    /// The state is well-formed, the features are those of the capabilities, and the guest
    /// accepted no others.
    pub open spec fn wf(&self) -> bool {
        &&& self.state().wf()
        &&& self.state().pending is None
        &&& self.offered() == features_of(self.state().config.caps)
        &&& self.accepted() & self.offered() == self.accepted()
    }

    /// A device that maps GPU memory into the guest addresses from `mmio_base` on, and uses the
    /// memory slots from `first_kvm_slot` on.
    pub fn new(config: GpuNvConfig, mmio_base: u64, mmio_size: u64, first_kvm_slot: u32) -> (r:
        Self)
        requires
            mmio_base + mmio_size <= u64::MAX,
        ensures
            r.wf(),
            r.state() == (WorkerView {
                config,
                allowed: r.state().allowed,
                uvm: r.state().uvm,
                fds: Map::<u32, HostFdView>::empty(),
                next_handle: 1,
                mappings: Map::<u32, GpuMapping>::empty(),
                next_mapping_id: 1,
                mmio: MmioAllocator {
                    base: mmio_base,
                    next: mmio_base,
                    limit: (mmio_base + mmio_size) as u64,
                },
                next_kvm_slot: first_kvm_slot,
                pending: None,
            }),
            forall|nr: u32|
                r.state().allowed.contains(nr) == #[trigger] frontend_allowed(config.caps, nr),
            forall|nr: u32| #[trigger] r.state().uvm.contains(nr) == (nr <= 0x4f),
            r.accepted() == 0,
            !r.active(),
    {
        let caps = config.caps;
        let avail_features = 0x1_0000_0000 + low_feature_bits(caps) as u64;
        let fd_table: HashMap<u32, HostFd> = HashMap::new();
        assert(fds_view(fd_table@) =~= Map::<u32, HostFdView>::empty());
        assert(0u64 & avail_features == 0) by (bit_vector);
        GpuNv {
            config: Arc::new(config),
            fd_table,
            next_handle: 1,
            avail_features,
            acked_features: 0,
            mappings: HashMap::new(),
            next_mapping_id: 1,
            mmio_alloc: MmioAllocator::new(mmio_base, mmio_size),
            next_kvm_slot: first_kvm_slot,
            allowed_ioctls: Arc::new(AllowedIoctls::new(caps)),
            active: false,
        }
    }

    /// Number of the device type.
    pub fn id(&self) -> (r: u32)
        ensures
            r == VIRTIO_ID_GPU_NV,
    {
        VIRTIO_ID_GPU_NV
    }

    /// Number of the device type.
    pub fn device_type(&self) -> (r: u32)
        ensures
            r == VIRTIO_ID_GPU_NV,
    {
        VIRTIO_ID_GPU_NV
    }

    /// Name of the device.
    pub fn device_name(&self) -> (r: &'static str)
        ensures
            r@ == "virtio-nvgpu"@,
    {
        "virtio-nvgpu"
    }

    /// Sizes of the queues.
    pub fn queue_config(&self) -> (r: Vec<u16>)
        ensures
            r@ == seq![QUEUE_SIZE, QUEUE_SIZE],
    {
        let sizes = vec![QUEUE_SIZE, QUEUE_SIZE];
        assert(sizes@ =~= seq![QUEUE_SIZE, QUEUE_SIZE]);
        sizes
    }

    /// Features that the device offers.
    pub fn avail_features(&self) -> (r: u64)
        ensures
            r == self.offered(),
    {
        self.avail_features
    }

    /// Features that the guest accepted.
    pub fn acked_features(&self) -> (r: u64)
        ensures
            r == self.accepted(),
    {
        self.acked_features
    }

    /// Takes the features that the guest accepts.  Those that were not offered do not count.
    pub fn set_acked_features(&mut self, acked_features: u64)
        requires
            old(self).wf(),
        ensures
            final(self).wf(),
            final(self).accepted() == acked_features & old(self).offered(),
            final(self).state() == old(self).state(),
            final(self).offered() == old(self).offered(),
            final(self).active() == old(self).active(),
    {
        let avail = self.avail_features;
        assert((acked_features & avail) & avail == acked_features & avail) by (bit_vector);
        self.acked_features = acked_features & self.avail_features;
    }

    /// Features that the device offers, 32 at a time.
    pub fn avail_features_by_page(&self, page: u32) -> (r: u32)
        ensures
            r == match page {
                0 => low_features(self.state().config.caps),
                1 => 1,
                _ => 0,
            },
    {
        match page {
            0 => low_feature_bits(self.config.caps),
            1 => 1,
            _ => 0,
        }
    }

    /// Takes features that the guest accepts, 32 at a time.  Whatever the guest says is in
    /// order, and nothing is kept of it.
    pub fn ack_features_by_page(&mut self, _page: u32, _value: u32)
        ensures
            *final(self) == *old(self),
    {
    }

    /// Reads the configuration space.
    pub fn read_config(&self, offset: u64, data: &mut [u8])
        ensures
            final(data)@ == config_read(
                config_image(self.state().config),
                offset,
                old(data)@,
            ),
    {
        let bytes = config_bytes(&self.config);
        read_config_at(bytes.as_slice(), offset, data);
    }

    /// The guest cannot write the configuration space.
    pub fn write_config(&mut self, _offset: u64, _data: &[u8])
        ensures
            *final(self) == *old(self),
    {
    }

    /// Starts to work: everything that is open or mapped goes to the worker.
    pub fn activate(&mut self, num_queues: usize) -> (r: Result<Worker, ActivateError>)
        requires
            old(self).wf(),
        ensures
            final(self).wf(),
            final(self).offered() == old(self).offered(),
            final(self).accepted() == old(self).accepted(),
            match r {
                Ok(worker) => {
                    &&& num_queues == NUM_QUEUES
                    &&& worker@ == old(self).state()
                    &&& final(self).state() == emptied(old(self).state())
                    &&& final(self).active()
                },
                Err(e) => {
                    &&& num_queues != NUM_QUEUES
                    &&& e == ActivateError::BadActivate
                    &&& *final(self) == *old(self)
                },
            },
    {
        if num_queues != NUM_QUEUES {
            return Err(ActivateError::BadActivate);
        }
        let mut fd_table: HashMap<u32, HostFd> = HashMap::new();
        std::mem::swap(&mut self.fd_table, &mut fd_table);
        let mut mappings: HashMap<u32, GpuMapping> = HashMap::new();
        std::mem::swap(&mut self.mappings, &mut mappings);
        let mmio_alloc = self.mmio_alloc;
        self.mmio_alloc = MmioAllocator::new(0, 0);
        self.active = true;
        assert(fds_view(self.fd_table@) =~= Map::<u32, HostFdView>::empty());
        Ok(
            Worker::new(
                self.config.clone(),
                fd_table,
                self.next_handle,
                mappings,
                self.next_mapping_id,
                mmio_alloc,
                self.next_kvm_slot,
                self.allowed_ioctls.clone(),
            ),
        )
    }

    /// Whether the device is at work.
    pub fn is_activated(&self) -> (r: bool)
        ensures
            r == self.active(),
    {
        self.active
    }

    /// Stops work.  The guest has to accept features anew.
    pub fn reset(&mut self) -> (r: bool)
        requires
            old(self).wf(),
        ensures
            r,
            final(self).wf(),
            !final(self).active(),
            final(self).accepted() == 0,
            final(self).offered() == old(self).offered(),
            final(self).state() == old(self).state(),
    {
        let avail = self.avail_features;
        assert(0u64 & avail == 0) by (bit_vector);
        self.active = false;
        self.acked_features = 0;
        true
    }
}

/// The lower page of features, and version 1 of virtio in the upper one, make up the features.
pub proof fn pages_make_up_the_features(caps: u32)
    ensures
        features_of(caps) == low_features(caps) + 0x1_0000_0000,
        low_features(caps) < 8,
{
}

/// What each feature stands for: bit 0 for compute (capability 1), bit 1 for video (capability 4),
/// bit 2 for graphics (capability 2), and bit 32, always, for version 1 of virtio.  There are no
/// others.
pub proof fn features_stand_for_capabilities(caps: u32)
    ensures
        features_of(caps) % 2 == caps % 2,
        features_of(caps) / 2 % 2 == caps / 4 % 2,
        features_of(caps) / 4 % 2 == caps / 2 % 2,
        features_of(caps) / 8 == 0x2000_0000,
{
    assert((caps & 1 != 0) == (caps % 2 == 1)) by (bit_vector);
    assert((caps & 2 != 0) == (caps / 2 % 2 == 1)) by (bit_vector);
    assert((caps & 4 != 0) == (caps / 4 % 2 == 1)) by (bit_vector);
}

/// A device that gave its state to a worker has nothing open or mapped and no room left, and it
/// goes on with the same numbers and the same configuration.
pub proof fn emptied_devices_have_no_room(s: WorkerView, handle: u32, id: u32, size: u64)
    ensures
        !emptied(s).fds.contains_key(handle),
        !emptied(s).mappings.contains_key(id),
        size > 0 ==> !emptied(s).mmio.has_room(size),
        emptied(s).next_handle == s.next_handle,
        emptied(s).next_mapping_id == s.next_mapping_id,
        emptied(s).next_kvm_slot == s.next_kvm_slot,
        emptied(s).config == s.config,
        emptied(s).allowed == s.allowed,
        emptied(s).uvm == s.uvm,
        emptied(s).pending == s.pending,
{
}

} // verus!
