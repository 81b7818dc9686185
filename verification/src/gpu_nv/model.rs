//! The state of a device at work, and what each request makes of it.

use vstd::prelude::*;

use crate::bytes::{bits_of, le32, overlay, u32_at, u64_at, zeros};
use crate::errno::{EBADF, EINVAL, EIO, ENODEV, ENOMEM, ENOSYS, ENOTTY};
use crate::gpu_nv::allowlist::{fd_translations, first_entry};
use crate::gpu_nv::config::GpuNvConfig;
use crate::gpu_nv::files::{dri_list, file_list, proc_files, sys_files};
use crate::gpu_nv::mmio::MmioAllocator;
use crate::gpu_nv::step::{
    failure, GpuMapping, HostAction, IoctlCallView, IoctlPlan, MmapCall, StepView, PTR_OFFSET,
};
use crate::gpu_nv::wire::{
    nr_of, NvgpuIoctlReq, NvgpuMmapReq, NvgpuMmapResp, NvgpuMsgHdr, NvgpuMunmapReq, NvgpuOpenReq,
    Wire, NVGPU_DEV_CTL, NVGPU_DEV_MODESET, NVGPU_DEV_UVM, NVGPU_DEV_UVM_TOOLS, NVGPU_MSG_CLOSE,
    NVGPU_MSG_GET_PROC_FILES, NVGPU_MSG_GET_SYS_FILES, NVGPU_MSG_IOCTL, NVGPU_MSG_MMAP,
    NVGPU_MSG_MUNMAP, NVGPU_MSG_OPEN,
};
use crate::text::dec;

verus! {

/// A file that the host opened for the guest.
pub ghost struct HostFdView {
    pub fd: i32,
    pub device_type: u32,
    /// The mappings that were made of it, in order, with those that are gone.
    pub mapping_ids: Seq<u32>,
}

/// The state of a device at work.
pub ghost struct WorkerView {
    pub config: GpuNvConfig,
    /// Ioctls that may be forwarded to frontend devices.
    pub allowed: Set<u32>,
    /// Ioctls that may be forwarded to /dev/nvidia-uvm.
    pub uvm: Set<u32>,
    /// Open handles.
    pub fds: Map<u32, HostFdView>,
    pub next_handle: u32,
    /// Mappings that the guest can reach.
    pub mappings: Map<u32, GpuMapping>,
    pub next_mapping_id: u32,
    pub mmio: MmioAllocator,
    pub next_kvm_slot: u32,
    /// A mapping that has everything but its memory slot.
    pub pending: Option<GpuMapping>,
}

/// Two mappings have different slots, and no guest address is in both.
pub open spec fn separate(a: GpuMapping, b: GpuMapping) -> bool {
    &&& a.kvm_slot != b.kvm_slot
    &&& {
        ||| a.guest_phys_addr + a.size <= b.guest_phys_addr
        ||| b.guest_phys_addr + b.size <= a.guest_phys_addr
    }
}

impl WorkerView {
    /// The mapping is of an open file, has a slot that was given out, and lies, from a page
    /// boundary on, in the part of the window that was handed out.
    pub open spec fn placed(self, m: GpuMapping) -> bool {
        &&& self.fds.contains_key(m.host_fd_handle)
        &&& m.kvm_slot < self.next_kvm_slot
        &&& m.guest_phys_addr % 0x1000 == 0
        &&& self.mmio.base <= m.guest_phys_addr
        &&& m.guest_phys_addr + m.size <= self.mmio.next
    }

    /// Handles and ids are below the next ones; files list their mappings; mappings are placed
    /// and separate.
    pub open spec fn wf(self) -> bool {
        &&& self.mmio.wf()
        &&& forall|h: u32| #[trigger] self.fds.contains_key(h) ==> h < self.next_handle
        &&& forall|h: u32| #[trigger] self.fds.contains_key(h) ==> self.lists(h)
        &&& forall|id: u32| #[trigger]
            self.mappings.contains_key(id) ==> {
                &&& id < self.next_mapping_id
                &&& self.placed(self.mappings[id])
                &&& self.fds[self.mappings[id].host_fd_handle].mapping_ids.contains(id)
            }
        &&& forall|id: u32, jd: u32|
            #![trigger self.mappings.contains_key(id), self.mappings.contains_key(jd)]
            self.mappings.contains_key(id) && self.mappings.contains_key(jd) && id != jd
                ==> separate(self.mappings[id], self.mappings[jd])
        &&& self.pending matches Some(m) ==> {
            &&& self.placed(m)
            &&& forall|id: u32| #[trigger]
                self.mappings.contains_key(id) ==> separate(m, self.mappings[id])
        }
    }

    /// The next page boundary of the window is a machine number, and where the window has room
    /// for `size` bytes there is a slot left.
    pub open spec fn placeable(self, size: u64) -> bool {
        &&& self.mmio.measurable()
        &&& self.mmio.has_room(size) ==> self.next_kvm_slot < u32::MAX
    }

    /// The file `h` lists each mapping once, and none of another file.
    pub open spec fn lists(self, h: u32) -> bool {
        let ids = self.fds[h].mapping_ids;
        &&& ids.no_duplicates()
        &&& forall|i: int|
            0 <= i < ids.len() ==> {
                &&& #[trigger] ids[i] < self.next_mapping_id
                &&& self.mappings.contains_key(ids[i]) ==> self.mappings[ids[i]].host_fd_handle
                    == h
            }
    }
}

// Responses.

/// A response that is a header alone.
pub open spec fn header_reply(msg_type: u32, handle: u32, status: i32) -> Seq<u8> {
    NvgpuMsgHdr { msg_type, handle, status, padding: 0 }.wire()
}

/// The response to a failed request.
pub open spec fn error_reply(handle: u32, status: i32) -> Seq<u8> {
    header_reply(0, handle, status)
}

/// A step that is only a response.
pub open spec fn just(reply: Seq<u8>) -> StepView {
    StepView::Done { reply, actions: Seq::empty() }
}

/// A step that is only the response to a failed request.
pub open spec fn refused(handle: u32, errno: i32) -> StepView {
    just(error_reply(handle, (-errno) as i32))
}

// OPEN.

/// The file of a device type, or the error number.
pub open spec fn path_of(config: GpuNvConfig, device_type: u32) -> Result<Seq<char>, i32> {
    if device_type <= 247 {
        Ok("/dev/nvidia"@ + dec(device_type as nat))
    } else if device_type == NVGPU_DEV_CTL {
        Ok("/dev/nvidiactl"@)
    } else if device_type == NVGPU_DEV_UVM {
        Ok("/dev/nvidia-uvm"@)
    } else if device_type == NVGPU_DEV_UVM_TOOLS {
        Ok("/dev/nvidia-uvm-tools"@)
    } else if device_type == NVGPU_DEV_MODESET {
        Ok("/dev/nvidia-modeset"@)
    } else if device_type < 512 {
        Err(EINVAL)
    } else if device_type - 512 < config.dri_devices@.len() {
        Ok("/dev/dri/"@ + config.dri_devices@[device_type - 512].name@)
    } else {
        Err(ENODEV)
    }
}

/// OPEN asks the host for the file of the device type.
pub open spec fn decide_open(config: GpuNvConfig, req: Seq<u8>) -> StepView {
    if req.len() < 24 {
        refused(0, EINVAL)
    } else {
        let device_type = NvgpuOpenReq::at(req).device_type;
        match path_of(config, device_type) {
            Ok(path) => StepView::Open { path, device_type },
            Err(errno) => refused(0, errno),
        }
    }
}

/// A file that the host opened gets the next handle.
pub open spec fn opened(
    s: WorkerView,
    device_type: u32,
    outcome: Result<i32, Option<i32>>,
) -> (WorkerView, StepView) {
    match outcome {
        Err(errno) => (s, just(error_reply(0, failure(errno)))),
        Ok(fd) => (
            WorkerView {
                fds: s.fds.insert(
                    s.next_handle,
                    HostFdView { fd, device_type, mapping_ids: Seq::empty() },
                ),
                next_handle: (s.next_handle + 1) as u32,
                ..s
            },
            just(header_reply(NVGPU_MSG_OPEN, s.next_handle, 0)),
        ),
    }
}

// CLOSE and MUNMAP.

/// What ends the mapping `id`, if there is one.
pub open spec fn release_of(mappings: Map<u32, GpuMapping>, id: u32) -> Seq<HostAction> {
    if mappings.contains_key(id) {
        mappings[id].release()
    } else {
        Seq::empty()
    }
}

/// What ends the mappings `ids`, one after the other.
pub open spec fn release_all(mappings: Map<u32, GpuMapping>, ids: Seq<u32>) -> Seq<HostAction> {
    ids.map_values(|id: u32| release_of(mappings, id)).flatten()
}

/// CLOSE ends all mappings of the file and then closes it.  A handle that is not open is no
/// error.
pub open spec fn closed(s: WorkerView, handle: u32) -> (WorkerView, StepView) {
    let reply = header_reply(NVGPU_MSG_CLOSE, handle, 0);
    if s.fds.contains_key(handle) {
        let f = s.fds[handle];
        (
            WorkerView {
                fds: s.fds.remove(handle),
                mappings: s.mappings.remove_keys(f.mapping_ids.to_set()),
                ..s
            },
            StepView::Done {
                reply,
                actions: release_all(s.mappings, f.mapping_ids).push(HostAction::CloseFd(f.fd)),
            },
        )
    } else {
        (s, just(reply))
    }
}

/// MUNMAP ends a mapping.  An id without a mapping is no error.
pub open spec fn unmapped(s: WorkerView, req: Seq<u8>) -> (WorkerView, StepView) {
    if req.len() < 24 {
        (s, refused(0, EINVAL))
    } else {
        let m = NvgpuMunmapReq::at(req);
        (
            WorkerView { mappings: s.mappings.remove(m.mapping_id), ..s },
            StepView::Done {
                reply: header_reply(NVGPU_MSG_MUNMAP, m.hdr.handle, 0),
                actions: release_of(s.mappings, m.mapping_id),
            },
        )
    }
}

// MMAP.

/// MMAP asks the host to map the file.
pub open spec fn decide_mmap(fds: Map<u32, HostFdView>, req: Seq<u8>) -> StepView {
    if req.len() < 40 {
        refused(0, EINVAL)
    } else {
        let m = NvgpuMmapReq::at(req);
        if fds.contains_key(m.hdr.handle) {
            StepView::Mmap(
                MmapCall {
                    handle: m.hdr.handle,
                    fd: fds[m.hdr.handle].fd,
                    size: m.size,
                    offset: m.offset,
                },
            )
        } else {
            refused(m.hdr.handle, EBADF)
        }
    }
}

/// Memory that the host mapped gets guest addresses and the next memory slot.  Where the window
/// has no room, it is unmapped again.
pub open spec fn mapped(s: WorkerView, call: MmapCall, outcome: Result<u64, Option<i32>>) -> (
    WorkerView,
    StepView,
) {
    match outcome {
        Err(errno) => (s, just(error_reply(call.handle, failure(errno)))),
        Ok(addr) => match s.mmio.granted(call.size) {
            None => (
                s,
                StepView::Done {
                    reply: error_reply(call.handle, (-ENOMEM) as i32),
                    actions: seq![HostAction::Munmap { addr, size: call.size }],
                },
            ),
            Some(guest_phys_addr) => {
                let m = GpuMapping {
                    host_ptr: addr,
                    size: call.size,
                    guest_phys_addr,
                    kvm_slot: s.next_kvm_slot,
                    host_fd_handle: call.handle,
                };
                (
                    WorkerView {
                        mmio: s.mmio.after(call.size),
                        next_kvm_slot: (s.next_kvm_slot + 1) as u32,
                        pending: Some(m),
                        ..s
                    },
                    StepView::SetRegion(m.spec_region()),
                )
            },
        },
    }
}

/// The file `f` with one more mapping.
pub open spec fn with_mapping(f: HostFdView, id: u32) -> HostFdView {
    HostFdView { mapping_ids: f.mapping_ids.push(id), ..f }
}

/// A mapping that has its memory slot gets the next id, and the guest learns where it is.  Where
/// the slot could not be set, the memory is unmapped again.
pub open spec fn slotted(s: WorkerView, m: GpuMapping, ok: bool) -> (WorkerView, StepView) {
    let idle = WorkerView { pending: None, ..s };
    if ok {
        let id = s.next_mapping_id;
        (
            WorkerView {
                mappings: s.mappings.insert(id, m),
                next_mapping_id: (id + 1) as u32,
                fds: s.fds.insert(
                    m.host_fd_handle,
                    with_mapping(s.fds[m.host_fd_handle], id),
                ),
                ..idle
            },
            just(
                NvgpuMmapResp {
                    hdr: NvgpuMsgHdr {
                        msg_type: NVGPU_MSG_MMAP,
                        handle: m.host_fd_handle,
                        status: 0,
                        padding: 0,
                    },
                    guest_phys_addr: m.guest_phys_addr,
                    size: m.size,
                    mapping_id: id,
                    padding: 0,
                }.wire(),
            ),
        )
    } else {
        (
            idle,
            StepView::Done {
                reply: error_reply(m.host_fd_handle, (-EIO) as i32),
                actions: seq![HostAction::Munmap { addr: m.host_ptr, size: m.size }],
            },
        )
    }
}

// IOCTL.

/// Ioctls whose parameters point at further parameters.
pub const NV_ESC_RM_CONTROL: u32 = 0x2a;

pub const NV_ESC_RM_ALLOC: u32 = 0x2b;

/// Where NV_ESC_RM_ALLOC has a pointer to requested rights.
pub const RIGHTS_OFFSET: usize = 24;

/// The lengths that the request states lie within it.
pub open spec fn within(r: NvgpuIoctlReq, len: nat) -> bool {
    &&& 32 + r.data_len <= len
    &&& 32 + r.nested_offset + r.nested_len <= len
}

/// An ioctl without pointers: the parameters reach the host as they are.
pub open spec fn decide_simple(fds: Map<u32, HostFdView>, r: NvgpuIoctlReq, data: Seq<u8>) ->
    StepView {
    if fds.contains_key(r.hdr.handle) {
        StepView::Ioctl(
            IoctlCallView {
                handle: r.hdr.handle,
                fd: fds[r.hdr.handle].fd,
                cmd: r.cmd,
                data,
                nested: Seq::empty(),
                plan: IoctlPlan::Simple,
            },
        )
    } else {
        refused(r.hdr.handle, EBADF)
    }
}

/// An ioctl with a handle at `offset`: it is replaced by the host's descriptor.
pub open spec fn decide_translated(
    fds: Map<u32, HostFdView>,
    r: NvgpuIoctlReq,
    data: Seq<u8>,
    offset: usize,
) -> StepView {
    if data.len() < offset + 4 {
        refused(r.hdr.handle, EINVAL)
    } else {
        let other = u32_at(data, offset as int);
        if fds.contains_key(other) {
            decide_simple(fds, r, overlay(data, offset as int, le32(bits_of(fds[other].fd))))
        } else {
            refused(r.hdr.handle, EBADF)
        }
    }
}

/// The argument of an ioctl with nested parameters, before it has their address: the pointer is
/// null, and so is that to requested rights.
pub open spec fn cleared(cmd: u32, data: Seq<u8>) -> Seq<u8> {
    let top = overlay(data, PTR_OFFSET as int, zeros(8));
    if nr_of(cmd) == NV_ESC_RM_ALLOC && data.len() >= RIGHTS_OFFSET + 8 {
        overlay(top, RIGHTS_OFFSET as int, zeros(8))
    } else {
        top
    }
}

/// An ioctl with nested parameters.
pub open spec fn decide_complex(
    fds: Map<u32, HostFdView>,
    r: NvgpuIoctlReq,
    data: Seq<u8>,
    nested: Seq<u8>,
) -> StepView {
    if !fds.contains_key(r.hdr.handle) {
        refused(r.hdr.handle, EBADF)
    } else if data.len() < PTR_OFFSET + 8 {
        refused(r.hdr.handle, EINVAL)
    } else {
        StepView::Ioctl(
            IoctlCallView {
                handle: r.hdr.handle,
                fd: fds[r.hdr.handle].fd,
                cmd: r.cmd,
                data: cleared(r.cmd, data),
                nested,
                plan: IoctlPlan::Complex { guest_ptr: u64_at(data, PTR_OFFSET as int) },
            },
        )
    }
}

/// The handle is open, and is that of /dev/nvidia-uvm.
pub open spec fn is_uvm(fds: Map<u32, HostFdView>, handle: u32) -> bool {
    fds.contains_key(handle) && fds[handle].device_type == NVGPU_DEV_UVM
}

/// The ioctl `nr` may be forwarded: /dev/nvidia-uvm has numbers of its own, all other devices
/// share theirs.
pub open spec fn permitted(
    allowed: Set<u32>,
    uvm: Set<u32>,
    fds: Map<u32, HostFdView>,
    handle: u32,
    nr: u32,
) -> bool {
    if is_uvm(fds, handle) {
        uvm.contains(nr)
    } else {
        allowed.contains(nr)
    }
}

/// An allowed ioctl: its number says how the parameters reach the host, whatever the device.
pub open spec fn decide_routed(
    fds: Map<u32, HostFdView>,
    r: NvgpuIoctlReq,
    data: Seq<u8>,
    nested: Seq<u8>,
) -> StepView {
    let nr = nr_of(r.cmd);
    if nr == NV_ESC_RM_CONTROL || nr == NV_ESC_RM_ALLOC {
        decide_complex(fds, r, data, nested)
    } else {
        match first_entry(fd_translations(), nr) {
            Some(entry) => decide_translated(fds, r, data, entry.payload_offset),
            None => decide_simple(fds, r, data),
        }
    }
}

/// IOCTL: only allowed ioctls reach the host.
pub open spec fn decide_ioctl(
    allowed: Set<u32>,
    uvm: Set<u32>,
    fds: Map<u32, HostFdView>,
    req: Seq<u8>,
) -> StepView {
    if req.len() < 32 {
        refused(0, EINVAL)
    } else {
        let r = NvgpuIoctlReq::at(req);
        if !permitted(allowed, uvm, fds, r.hdr.handle, nr_of(r.cmd)) {
            refused(r.hdr.handle, ENOTTY)
        } else if !within(r, req.len()) {
            refused(r.hdr.handle, EINVAL)
        } else {
            let data = req.subrange(32, 32 + r.data_len);
            let nested = if r.nested_len > 0 {
                req.subrange(32 + r.nested_offset, 32 + r.nested_offset + r.nested_len)
            } else {
                Seq::empty()
            };
            decide_routed(fds, r, data, nested)
        }
    }
}

// All requests.

/// What a request makes of the state, and the next step.
pub open spec fn processed(s: WorkerView, req: Seq<u8>) -> (WorkerView, StepView) {
    if req.len() < 16 {
        (s, refused(0, EINVAL))
    } else {
        let hdr = NvgpuMsgHdr::at(req);
        if hdr.msg_type == NVGPU_MSG_OPEN {
            (s, decide_open(s.config, req))
        } else if hdr.msg_type == NVGPU_MSG_CLOSE {
            closed(s, hdr.handle)
        } else if hdr.msg_type == NVGPU_MSG_IOCTL {
            (s, decide_ioctl(s.allowed, s.uvm, s.fds, req))
        } else if hdr.msg_type == NVGPU_MSG_MMAP {
            (s, decide_mmap(s.fds, req))
        } else if hdr.msg_type == NVGPU_MSG_MUNMAP {
            unmapped(s, req)
        } else if hdr.msg_type == NVGPU_MSG_GET_PROC_FILES {
            (s, just(file_list(proc_files(s.config.extra_proc@))))
        } else if hdr.msg_type == NVGPU_MSG_GET_SYS_FILES {
            (
                s,
                just(file_list(sys_files(s.config.sys_files@)) + dri_list(s.config.dri_devices@)),
            )
        } else {
            (s, refused(hdr.handle, ENOSYS))
        }
    }
}

// Every step keeps the state well-formed.

/// Opening a file keeps the state well-formed.
pub proof fn opened_keeps_wf(s: WorkerView, device_type: u32, outcome: Result<i32, Option<i32>>)
    requires
        s.wf(),
        s.next_handle < u32::MAX,
    ensures
        opened(s, device_type, outcome).0.wf(),
{
    let t = opened(s, device_type, outcome).0;
    assert forall|h: u32| #[trigger] t.fds.contains_key(h) implies t.lists(h) by {
        assert(h != s.next_handle ==> s.fds.contains_key(h) && s.lists(h));
    }
    assert forall|id: u32| #[trigger] t.mappings.contains_key(id) implies {
        &&& id < t.next_mapping_id
        &&& t.placed(t.mappings[id])
        &&& t.fds[t.mappings[id].host_fd_handle].mapping_ids.contains(id)
    } by {
        assert(s.mappings.contains_key(id));
        assert(s.fds.contains_key(s.mappings[id].host_fd_handle));
    }
}

/// Closing a file keeps the state well-formed.
pub proof fn closed_keeps_wf(s: WorkerView, handle: u32)
    requires
        s.wf(),
        s.pending is None,
    ensures
        closed(s, handle).0.wf(),
{
    let t = closed(s, handle).0;
    if s.fds.contains_key(handle) {
        let ids = s.fds[handle].mapping_ids;
        assert(s.lists(handle));
        assert forall|h: u32| #[trigger] t.fds.contains_key(h) implies t.lists(h) by {
            assert(s.fds.contains_key(h) && s.lists(h));
        }
        assert forall|id: u32| #[trigger] t.mappings.contains_key(id) implies {
            &&& id < t.next_mapping_id
            &&& t.placed(t.mappings[id])
            &&& t.fds[t.mappings[id].host_fd_handle].mapping_ids.contains(id)
        } by {
            assert(s.mappings.contains_key(id));
            assert(!ids.contains(id));
        }
        assert forall|id: u32, jd: u32|
            #![trigger t.mappings.contains_key(id), t.mappings.contains_key(jd)]
            t.mappings.contains_key(id) && t.mappings.contains_key(jd) && id != jd implies separate(
            t.mappings[id],
            t.mappings[jd],
        ) by {
            assert(s.mappings.contains_key(id) && s.mappings.contains_key(jd));
        }
    }
}

/// Ending a mapping keeps the state well-formed.
pub proof fn unmapped_keeps_wf(s: WorkerView, req: Seq<u8>)
    requires
        s.wf(),
    ensures
        unmapped(s, req).0.wf(),
{
    let t = unmapped(s, req).0;
    assert forall|h: u32| #[trigger] t.fds.contains_key(h) implies t.lists(h) by {
        assert(s.fds.contains_key(h) && s.lists(h));
    }
    assert forall|id: u32| #[trigger] t.mappings.contains_key(id) implies {
        &&& id < t.next_mapping_id
        &&& t.placed(t.mappings[id])
        &&& t.fds[t.mappings[id].host_fd_handle].mapping_ids.contains(id)
    } by {
        assert(s.mappings.contains_key(id));
    }
    assert forall|id: u32, jd: u32|
        #![trigger t.mappings.contains_key(id), t.mappings.contains_key(jd)]
        t.mappings.contains_key(id) && t.mappings.contains_key(jd) && id != jd implies separate(
        t.mappings[id],
        t.mappings[jd],
    ) by {
        assert(s.mappings.contains_key(id) && s.mappings.contains_key(jd));
    }
    if s.pending is Some {
        assert forall|id: u32| #[trigger] t.mappings.contains_key(id) implies separate(
            s.pending->0,
            t.mappings[id],
        ) by {
            assert(s.mappings.contains_key(id));
        }
    }
}

/// Placing a mapping keeps the state well-formed.
pub proof fn mapped_keeps_wf(s: WorkerView, call: MmapCall, outcome: Result<u64, Option<i32>>)
    requires
        s.wf(),
        s.pending is None,
        s.fds.contains_key(call.handle),
        outcome is Ok ==> s.placeable(call.size),
    ensures
        mapped(s, call, outcome).0.wf(),
{
    let t = mapped(s, call, outcome).0;
    if outcome is Ok && s.mmio.has_room(call.size) {
        let m = t.pending->0;
        crate::gpu_nv::mmio::region_is_new(s.mmio, call.size);
        assert forall|h: u32| #[trigger] t.fds.contains_key(h) implies t.lists(h) by {
            assert(s.fds.contains_key(h) && s.lists(h));
        }
        assert forall|id: u32| #[trigger] t.mappings.contains_key(id) implies {
            &&& t.placed(t.mappings[id])
            &&& separate(m, t.mappings[id])
        } by {
            assert(s.mappings.contains_key(id) && s.placed(s.mappings[id]));
        }
    }
}

/// Giving a mapping its memory slot keeps the state well-formed.
pub proof fn slotted_keeps_wf(s: WorkerView, m: GpuMapping, ok: bool)
    requires
        s.wf(),
        s.pending == Some(m),
        ok ==> s.next_mapping_id < u32::MAX,
    ensures
        slotted(s, m, ok).0.wf(),
{
    let t = slotted(s, m, ok).0;
    if ok {
        let new = s.next_mapping_id;
        let owner = m.host_fd_handle;
        let old_ids = s.fds[owner].mapping_ids;
        let new_ids = t.fds[owner].mapping_ids;
        assert(s.fds.contains_key(owner) && s.lists(owner));
        assert(!s.mappings.contains_key(new));
        assert forall|h: u32| #[trigger] t.fds.contains_key(h) implies t.lists(h) by {
            assert(s.fds.contains_key(h) && s.lists(h));
            if h == owner {
                assert(new_ids =~= old_ids.push(new));
                assert forall|i: int| 0 <= i < new_ids.len() implies {
                    &&& #[trigger] new_ids[i] < t.next_mapping_id
                    &&& t.mappings.contains_key(new_ids[i])
                        ==> t.mappings[new_ids[i]].host_fd_handle == h
                } by {
                    if i < old_ids.len() {
                        assert(new_ids[i] == old_ids[i]);
                    }
                }
                assert(new_ids.no_duplicates());
            }
        }
        assert forall|id: u32| #[trigger] t.mappings.contains_key(id) implies {
            &&& id < t.next_mapping_id
            &&& t.placed(t.mappings[id])
            &&& t.fds[t.mappings[id].host_fd_handle].mapping_ids.contains(id)
        } by {
            if id == new {
                assert(new_ids[old_ids.len() as int] == new);
            } else {
                assert(s.mappings.contains_key(id));
                let ids = s.fds[s.mappings[id].host_fd_handle].mapping_ids;
                let i = choose|i: int| 0 <= i < ids.len() && ids[i] == id;
                assert(t.fds[s.mappings[id].host_fd_handle].mapping_ids[i] == id);
            }
        }
        assert forall|id: u32, jd: u32|
            #![trigger t.mappings.contains_key(id), t.mappings.contains_key(jd)]
            t.mappings.contains_key(id) && t.mappings.contains_key(jd) && id != jd implies separate(
            t.mappings[id],
            t.mappings[jd],
        ) by {
            assert(id != new ==> s.mappings.contains_key(id));
            assert(jd != new ==> s.mappings.contains_key(jd));
        }
    }
}

} // verus!
