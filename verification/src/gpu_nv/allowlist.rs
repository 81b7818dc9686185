//! Which ioctls reach the host's driver.

use std::collections::HashSet;

use vstd::prelude::*;

verus! {

broadcast use vstd::std_specs::hash::group_hash_axioms;

/// Capabilities of a device.
pub const NVGPU_CAP_COMPUTE: u32 = 1;

pub const NVGPU_CAP_GRAPHICS: u32 = 2;

pub const NVGPU_CAP_VIDEO: u32 = 4;

pub const NVGPU_CAP_UTILITY: u32 = 8;

/// `caps` holds the capability `cap`.
pub open spec fn has_cap(caps: u32, cap: u32) -> bool {
    caps & cap != 0
}

/// An ioctl whose parameters hold a guest handle that stands for a host descriptor.
#[derive(Clone, Copy, Debug)]
pub struct FdTranslationEntry {
    pub nr: u32,
    /// Where in the parameters the four bytes of the handle stand.
    pub payload_offset: usize,
}

/// All ioctls with an embedded handle: NV_ESC_REGISTER_FD.
pub open spec fn fd_translations() -> Seq<FdTranslationEntry> {
    seq![FdTranslationEntry { nr: 0xc9, payload_offset: 0 }]
}

/// The first entry of the ioctl `nr`, if there is one.
pub open spec fn first_entry(entries: Seq<FdTranslationEntry>, nr: u32) -> Option<
    FdTranslationEntry,
>
    decreases entries.len(),
{
    if entries.len() == 0 {
        None
    } else if entries.first().nr == nr {
        Some(entries.first())
    } else {
        first_entry(entries.drop_first(), nr)
    }
}

/// All ioctls with an embedded handle.
pub fn fd_translation_ioctls() -> (r: Vec<FdTranslationEntry>)
    ensures
        r@ == fd_translations(),
{
    let entries = vec![FdTranslationEntry { nr: 0xc9, payload_offset: 0 }];
    assert(entries@ =~= fd_translations());
    entries
}

/// Ioctls that every device may make.
pub open spec fn base_ioctls() -> Set<u32> {
    set![
        0x01u32,
        0x02,
        0x29,
        0x2A,
        0x2B,
        0x4E,
        0x4F,
        0x54,
        0x58,
        0x5E,
        0xC8,
        0xC9,
        0xCE,
        0xCF,
        0xD1,
        0xD2,
        0xD3,
        0xD4,
        0xD5,
        0xD6,
        0xD7,
        0xD8,
        0xD9,
        0xDA,
    ]
}

/// Further ioctls of a device for graphics.
pub open spec fn graphics_ioctls() -> Set<u32> {
    set![0x27u32, 0x34, 0x41, 0x4a, 0x57, 0x58, 0x59]
}

/// Further ioctls of a device for video.
pub open spec fn video_ioctls() -> Set<u32> {
    set![0x57u32, 0x58]
}

/// The ioctl `nr` may be made on frontend devices of a device with `caps`.
pub open spec fn frontend_allowed(caps: u32, nr: u32) -> bool {
    ||| base_ioctls().contains(nr)
    ||| has_cap(caps, NVGPU_CAP_GRAPHICS) && graphics_ioctls().contains(nr)
    ||| has_cap(caps, NVGPU_CAP_VIDEO) && video_ioctls().contains(nr)
}

/// The ioctls that a device may make.
pub struct AllowedIoctls {
    /// On /dev/nvidia* and /dev/nvidiactl.
    frontend: HashSet<u32>,
    /// On /dev/nvidia-uvm.
    uvm: HashSet<u32>,
}

impl AllowedIoctls {
    /// Numbers that are allowed on /dev/nvidia* and /dev/nvidiactl.
    pub closed spec fn frontend(&self) -> Set<u32> {
        self.frontend@
    }

    /// Numbers that are allowed on /dev/nvidia-uvm.
    pub closed spec fn uvm(&self) -> Set<u32> {
        self.uvm@
    }

    /// The ioctls of a device with the capabilities `caps`.
    pub fn new(caps: u32) -> (r: Self)
        ensures
            forall|nr: u32| r.frontend().contains(nr) == #[trigger] frontend_allowed(caps, nr),
            forall|nr: u32| #[trigger] r.uvm().contains(nr) == (nr <= 0x4f),
    {
        let mut frontend: HashSet<u32> = HashSet::new();
        frontend.insert(0x01);  // NV_ESC_CARD_INFO on some versions
        frontend.insert(0x02);  // made by nvidia-smi
        frontend.insert(0x54);  // NV_ESC_RM_ALLOC_CONTEXT_DMA2
        frontend.insert(0x29);  // NV_ESC_RM_FREE
        frontend.insert(0x2A);  // NV_ESC_RM_CONTROL
        frontend.insert(0x2B);  // NV_ESC_RM_ALLOC
        frontend.insert(0x4E);  // NV_ESC_RM_MAP_MEMORY
        frontend.insert(0x4F);  // NV_ESC_RM_UNMAP_MEMORY
        frontend.insert(0x5E);  // NV_ESC_RM_UPDATE_DEVICE_MAPPING_INFO
        frontend.insert(0x58);  // NV_ESC_NUMA_INFO
        frontend.insert(0xC8);  // NV_ESC_CARD_INFO
        frontend.insert(0xC9);  // NV_ESC_REGISTER_FD
        frontend.insert(0xCE);  // NV_ESC_ALLOC_OS_EVENT
        frontend.insert(0xCF);  // NV_ESC_FREE_OS_EVENT
        frontend.insert(0xD1);  // NV_ESC_STATUS_CODE
        frontend.insert(0xD2);  // NV_ESC_CHECK_VERSION_STR
        frontend.insert(0xD3);  // NV_ESC_IOCTL_XFER_CMD
        frontend.insert(0xD4);  // NV_ESC_ATTACH_GPUS_TO_FD
        frontend.insert(0xD5);  // NV_ESC_QUERY_DEVICE_INTR
        frontend.insert(0xD6);  // NV_ESC_SYS_PARAMS
        frontend.insert(0xD7);  // undocumented in 595.58.03
        frontend.insert(0xD8);  // undocumented
        frontend.insert(0xD9);  // NV_ESC_EXPORT_TO_DMABUF_FD
        frontend.insert(0xDA);  // NV_ESC_WAIT_OPEN_COMPLETE
        assert(frontend@ =~= base_ioctls());
        if caps & NVGPU_CAP_GRAPHICS != 0 {
            frontend.insert(0x27);  // NV_ESC_RM_ALLOC_CONTEXT_DMA2
            frontend.insert(0x41);  // NV_ESC_RM_IDLE_CHANNELS
            frontend.insert(0x34);
            frontend.insert(0x4a);
            frontend.insert(0x57);  // NV_ESC_RM_MAP_MEMORY_DMA
            frontend.insert(0x58);  // NV_ESC_RM_UNMAP_MEMORY_DMA
            frontend.insert(0x59);  // NV_ESC_RM_BIND_CONTEXT_DMA
            assert(frontend@ =~= base_ioctls().union(graphics_ioctls()));
        }
        let ghost before_video = frontend@;
        if caps & NVGPU_CAP_VIDEO != 0 {
            frontend.insert(0x57);  // NV_ESC_RM_MAP_MEMORY_DMA
            frontend.insert(0x58);  // NV_ESC_RM_UNMAP_MEMORY_DMA
            assert(frontend@ =~= before_video.union(video_ioctls()));
        }
        // The driver of /dev/nvidia-uvm isolates its clients itself, so all of its ioctls are
        // allowed.
        let mut uvm: HashSet<u32> = HashSet::new();
        let mut nr: u32 = 0;
        while nr <= 0x4f
            invariant
                nr <= 0x50,
                forall|n: u32| #[trigger] uvm@.contains(n) == (n < nr),
            decreases 0x50 - nr,
        {
            uvm.insert(nr);
            nr += 1;
        }
        AllowedIoctls { frontend, uvm }
    }

    /// Whether the ioctl `nr` is allowed on frontend devices.
    pub fn is_allowed(&self, nr: u32) -> (r: bool)
        ensures
            r == self.frontend().contains(nr),
    {
        self.frontend.contains(&nr)
    }

    /// Whether the command `cmd` is allowed on /dev/nvidia-uvm.
    pub fn is_uvm_allowed(&self, cmd: u32) -> (r: bool)
        ensures
            r == self.uvm().contains(cmd % 256),
    {
        assert(cmd & 0xFF == cmd % 256) by (bit_vector);
        let nr = cmd & 0xFF;
        self.uvm.contains(&nr)
    }

    /// The place of the embedded handle, if the ioctl `nr` has one.
    pub fn fd_translation(nr: u32) -> (r: Option<FdTranslationEntry>)
        ensures
            r == first_entry(fd_translations(), nr),
    {
        let entries = fd_translation_ioctls();
        let mut i: usize = 0;
        assert(entries@.skip(0) =~= entries@);
        while i < entries.len()
            invariant
                i <= entries@.len(),
                first_entry(fd_translations(), nr) == first_entry(entries@.skip(i as int), nr),
            decreases entries.len() - i,
        {
            if entries[i].nr == nr {
                return Some(entries[i]);
            }
            assert(entries@.skip(i as int).drop_first() =~= entries@.skip(i + 1));
            i += 1;
        }
        None
    }
}

/// More capabilities allow more ioctls, never fewer; what every device may do, each may.
pub proof fn capabilities_only_add(fewer: u32, more: u32, nr: u32)
    requires
        fewer & more == fewer,
    ensures
        frontend_allowed(fewer, nr) ==> frontend_allowed(more, nr),
        base_ioctls().contains(nr) ==> frontend_allowed(fewer, nr),
{
    assert(fewer & 2 != 0 ==> more & 2 != 0) by (bit_vector)
        requires
            fewer & more == fewer,
    ;
    assert(fewer & 4 != 0 ==> more & 4 != 0) by (bit_vector)
        requires
            fewer & more == fewer,
    ;
}

/// Every ioctl with an embedded handle is one that every device may make.
pub proof fn translated_ioctls_are_allowed(i: int, caps: u32)
    requires
        0 <= i < fd_translations().len(),
    ensures
        frontend_allowed(caps, fd_translations()[i].nr),
{
}

/// The capabilities of two devices together allow what one or the other does.
pub proof fn capabilities_add_up(a: u32, b: u32, nr: u32)
    ensures
        frontend_allowed(a | b, nr) == (frontend_allowed(a, nr) || frontend_allowed(b, nr)),
{
    assert(((a | b) & 2 != 0) == (a & 2 != 0 || b & 2 != 0)) by (bit_vector);
    assert(((a | b) & 4 != 0) == (a & 4 != 0 || b & 4 != 0)) by (bit_vector);
}

/// What each capability adds: graphics (2) the numbers 0x27, 0x34, 0x41, 0x4A and 0x57 to 0x59,
/// video (4) the numbers 0x57 and 0x58, and every other one nothing.
pub proof fn capabilities_allow_their_numbers(caps: u32, nr: u32)
    ensures
        frontend_allowed(caps, nr) <==> {
            ||| nr == 0x01 || nr == 0x02 || nr == 0x54 || nr == 0x58 || nr == 0x5E
            ||| 0x29 <= nr <= 0x2B
            ||| nr == 0x4E || nr == 0x4F
            ||| nr == 0xC8 || nr == 0xC9 || nr == 0xCE || nr == 0xCF
            ||| 0xD1 <= nr <= 0xDA
            ||| caps / 2 % 2 == 1 && (nr == 0x27 || nr == 0x34 || nr == 0x41 || nr == 0x4A || 0x57
                <= nr <= 0x59)
            ||| caps / 4 % 2 == 1 && (nr == 0x57 || nr == 0x58)
        },
{
    assert((caps & 2 != 0) == (caps / 2 % 2 == 1)) by (bit_vector);
    assert((caps & 4 != 0) == (caps / 4 % 2 == 1)) by (bit_vector);
}

} // verus!
