//! Serves the requests of the control queue.

use std::collections::HashMap;
use std::sync::Arc;

use vstd::prelude::*;

use crate::bytes::{
    copied, group_field_lengths, put_u32, put_u64, read_u32, read_u64, to_bits, zero_fields,
};
use crate::errno::{EBADF, EINVAL, EIO, ENODEV, ENOMEM, ENOSYS, ENOTTY};
use crate::gpu_nv::allowlist::{first_entry, AllowedIoctls};
use crate::gpu_nv::config::GpuNvConfig;
use crate::gpu_nv::files::{
    dri_list, file_list, proc_files, push_dri_devices, push_proc_files, push_sys_files, sys_files,
};
use crate::gpu_nv::mmio::MmioAllocator;
use crate::gpu_nv::model::{
    closed, closed_keeps_wf, decide_complex, decide_ioctl, decide_mmap, decide_open, decide_routed,
    decide_simple, decide_translated, error_reply, header_reply, is_uvm, just, mapped,
    mapped_keeps_wf, opened, opened_keeps_wf, path_of, permitted, processed, refused, release_all,
    release_of, slotted, slotted_keeps_wf, unmapped, unmapped_keeps_wf, with_mapping, HostFdView,
    WorkerView, NV_ESC_RM_ALLOC, NV_ESC_RM_CONTROL, RIGHTS_OFFSET,
};
use crate::gpu_nv::step::{
    failure_status, negatable, GpuMapping, HostAction, IoctlCall, IoctlPlan, MmapCall, OpenCall,
    Reply, Step, PTR_OFFSET,
};
use crate::gpu_nv::wire::{
    bytes_of, ioc_nr, nr_of, NvgpuIoctlReq, NvgpuMmapReq, NvgpuMmapResp, NvgpuMsgHdr,
    NvgpuMunmapReq, NvgpuOpenReq, NvgpuOpenResp, Wire, NVGPU_DEV_CTL, NVGPU_DEV_MODESET,
    NVGPU_DEV_UVM, NVGPU_DEV_UVM_TOOLS, NVGPU_MSG_CLOSE, NVGPU_MSG_GET_PROC_FILES,
    NVGPU_MSG_GET_SYS_FILES, NVGPU_MSG_IOCTL, NVGPU_MSG_MMAP, NVGPU_MSG_MUNMAP, NVGPU_MSG_OPEN,
};
use crate::text::push_dec;

verus! {

broadcast use {group_field_lengths, vstd::std_specs::hash::group_hash_axioms};

/// A file that the host opened for the guest.
#[derive(Debug)]
pub struct HostFd {
    /// The host's descriptor.
    pub fd: i32,
    /// What the guest asked for.
    pub device_type: u32,
    /// The mappings that were made of it.
    pub mapping_ids: Vec<u32>,
}

impl View for HostFd {
    type V = HostFdView;

    open spec fn view(&self) -> HostFdView {
        HostFdView {
            fd: self.fd,
            device_type: self.device_type,
            mapping_ids: self.mapping_ids@,
        }
    }
}

/// The state of a device at work.
pub struct Worker {
    config: Arc<GpuNvConfig>,
    fd_table: HashMap<u32, HostFd>,
    next_handle: u32,
    mappings: HashMap<u32, GpuMapping>,
    next_mapping_id: u32,
    mmio_alloc: MmioAllocator,
    next_kvm_slot: u32,
    allowed_ioctls: Arc<AllowedIoctls>,
    pending: Option<GpuMapping>,
}

/// A table of files, each by its view.
pub open spec fn fds_view(table: Map<u32, HostFd>) -> Map<u32, HostFdView> {
    table.map_values(|f: HostFd| f@)
}

impl View for Worker {
    type V = WorkerView;

    closed spec fn view(&self) -> WorkerView {
        WorkerView {
            config: *self.config,
            allowed: self.allowed_ioctls.frontend(),
            uvm: self.allowed_ioctls.uvm(),
            fds: fds_view(self.fd_table@),
            next_handle: self.next_handle,
            mappings: self.mappings@,
            next_mapping_id: self.next_mapping_id,
            mmio: self.mmio_alloc,
            next_kvm_slot: self.next_kvm_slot,
            pending: self.pending,
        }
    }
}

/// A step that is only a response.
fn reply_only(bytes: Vec<u8>) -> (r: Step)
    ensures
        r@ == just(bytes@),
{
    let actions: Vec<HostAction> = Vec::new();
    assert(actions@ =~= Seq::empty());
    Step::Done(Reply { bytes, actions })
}

/// A response that is a header alone.
fn header_response(msg_type: u32, handle: u32, status: i32) -> (r: Vec<u8>)
    ensures
        r@ == header_reply(msg_type, handle, status),
{
    bytes_of(&NvgpuMsgHdr { msg_type, handle, status, padding: 0 })
}

/// The response to a failed request.
fn error_response(handle: u32, status: i32) -> (r: Vec<u8>)
    ensures
        r@ == error_reply(handle, status),
{
    header_response(0, handle, status)
}

/// A step that is only the response to a failed request.
fn refuse(handle: u32, errno: i32) -> (r: Step)
    requires
        errno > 0,
    ensures
        r@ == refused(handle, errno),
{
    reply_only(error_response(handle, -errno))
}

impl Worker {
    /// Starts work with tables from before.
    pub fn new(
        config: Arc<GpuNvConfig>,
        fd_table: HashMap<u32, HostFd>,
        next_handle: u32,
        mappings: HashMap<u32, GpuMapping>,
        next_mapping_id: u32,
        mmio_alloc: MmioAllocator,
        next_kvm_slot: u32,
        allowed_ioctls: Arc<AllowedIoctls>,
    ) -> (r: Self)
        ensures
            r@ == (WorkerView {
                config: *config,
                allowed: allowed_ioctls.frontend(),
                uvm: allowed_ioctls.uvm(),
                fds: fds_view(fd_table@),
                next_handle,
                mappings: mappings@,
                next_mapping_id,
                mmio: mmio_alloc,
                next_kvm_slot,
                pending: None,
            }),
    {
        Worker {
            config,
            fd_table,
            next_handle,
            mappings,
            next_mapping_id,
            mmio_alloc,
            next_kvm_slot,
            allowed_ioctls,
            pending: None,
        }
    }

    /// Whether a mapping waits for its memory slot.
    pub fn has_pending(&self) -> (r: bool)
        ensures
            r == (self@.pending is Some),
    {
        self.pending.is_some()
    }

    /// Whether the handle is open.
    pub fn is_open(&self, handle: u32) -> (r: bool)
        ensures
            r == self@.fds.contains_key(handle),
    {
        self.fd_table.contains_key(&handle)
    }

    /// The file of a device type, or the error number.
    fn device_path(&self, device_type: u32) -> (r: Result<String, i32>)
        ensures
            match r {
                Ok(path) => path_of(self@.config, device_type) == Ok::<Seq<char>, i32>(path@),
                Err(errno) => errno > 0 && path_of(self@.config, device_type) == Err::<
                    Seq<char>,
                    i32,
                >(errno),
            },
    {
        if device_type <= 247 {
            let mut path = "/dev/nvidia".to_owned();
            push_dec(&mut path, device_type);
            return Ok(path);
        }
        match device_type {
            NVGPU_DEV_CTL => Ok("/dev/nvidiactl".to_owned()),
            NVGPU_DEV_UVM => Ok("/dev/nvidia-uvm".to_owned()),
            NVGPU_DEV_UVM_TOOLS => Ok("/dev/nvidia-uvm-tools".to_owned()),
            NVGPU_DEV_MODESET => Ok("/dev/nvidia-modeset".to_owned()),
            _ => {
                if device_type < 512 {
                    return Err(EINVAL);
                }
                let idx = (device_type - 512) as usize;
                if idx >= self.config.dri_devices.len() {
                    return Err(ENODEV);
                }
                let mut path = "/dev/dri/".to_owned();
                path.append(self.config.dri_devices[idx].name.as_str());
                Ok(path)
            },
        }
    }

    /// OPEN.
    pub fn handle_open(&self, req: &[u8]) -> (r: Step)
        ensures
            r@ == decide_open(self@.config, req@),
    {
        if req.len() < 24 {
            return refuse(0, EINVAL);
        }
        let device_type = NvgpuOpenReq::read(req).device_type;
        match self.device_path(device_type) {
            Ok(path) => Step::Open(OpenCall { path, device_type }),
            Err(errno) => refuse(0, errno),
        }
    }

    /// MMAP.
    pub fn handle_mmap(&self, req: &[u8]) -> (r: Step)
        ensures
            r@ == decide_mmap(self@.fds, req@),
            r matches Step::Mmap(call) ==> self@.fds.contains_key(call.handle),
    {
        if req.len() < 40 {
            return refuse(0, EINVAL);
        }
        let m = NvgpuMmapReq::read(req);
        match self.fd_table.get(&m.hdr.handle) {
            Some(f) => Step::Mmap(
                MmapCall { handle: m.hdr.handle, fd: f.fd, size: m.size, offset: m.offset },
            ),
            None => refuse(m.hdr.handle, EBADF),
        }
    }

    /// Ends a mapping, if there is one.
    fn destroy_mapping(&mut self, mapping_id: u32, actions: &mut Vec<HostAction>)
        ensures
            final(self)@ == (WorkerView {
                mappings: old(self)@.mappings.remove(mapping_id),
                ..old(self)@
            }),
            final(actions)@ == old(actions)@ + release_of(old(self)@.mappings, mapping_id),
    {
        let found = self.mappings.remove(&mapping_id);
        match found {
            Some(m) => m.push_release(actions),
            None => {
                assert(actions@ =~= old(actions)@ + Seq::<HostAction>::empty());
            },
        }
    }

    /// CLOSE.
    pub fn handle_close(&mut self, handle: u32) -> (r: Step)
        requires
            old(self)@.wf(),
            old(self)@.pending is None,
        ensures
            (final(self)@, r@) == closed(old(self)@, handle),
            final(self)@.wf(),
    {
        proof {
            closed_keeps_wf(self@, handle);
        }
        let mut actions: Vec<HostAction> = Vec::new();
        let ghost before = self@;
        match self.fd_table.remove(&handle) {
            None => {
                assert(fds_view(self.fd_table@) =~= before.fds);
            },
            Some(f) => {
                let ghost mid = self@;
                let ghost ids = f.mapping_ids@;
                assert(mid.fds =~= before.fds.remove(handle));
                let mut i: usize = 0;
                proof {
                    assert(old(self).fd_table@.contains_key(handle));
                    assert(before.fds.contains_key(handle));
                    assert(before.lists(handle));
                    assert(ids.take(0).map_values(|id: u32| release_of(before.mappings, id))
                        =~= Seq::empty());
                    assert(before.mappings.remove_keys(ids.take(0).to_set()) =~= before.mappings);
                }
                while i < f.mapping_ids.len()
                    invariant
                        i <= ids.len(),
                        ids == f.mapping_ids@,
                        ids.no_duplicates(),
                        self@ == (WorkerView {
                            mappings: before.mappings.remove_keys(ids.take(i as int).to_set()),
                            ..mid
                        }),
                        actions@ == release_all(before.mappings, ids.take(i as int)),
                    decreases f.mapping_ids.len() - i,
                {
                    let id = f.mapping_ids[i];
                    self.destroy_mapping(id, &mut actions);
                    proof {
                        let now = ids.take(i as int);
                        let next = ids.take(i + 1);
                        assert(next =~= now.push(id));
                        assert(!now.to_set().contains(id));
                        now.lemma_push_to_set_commute(id);
                        assert(before.mappings.remove_keys(now.to_set()).remove(id)
                            =~= before.mappings.remove_keys(next.to_set()));
                        let releases = now.map_values(|id: u32| release_of(before.mappings, id));
                        assert(next.map_values(|id: u32| release_of(before.mappings, id))
                            =~= releases.push(release_of(before.mappings, id)));
                        releases.lemma_flatten_push(release_of(before.mappings, id));
                    }
                    i += 1;
                }
                assert(ids.take(i as int) =~= ids);
                actions.push(HostAction::CloseFd(f.fd));
            },
        }
        let bytes = header_response(NVGPU_MSG_CLOSE, handle, 0);
        Step::Done(Reply { bytes, actions })
    }

    /// MUNMAP.
    pub fn handle_munmap(&mut self, req: &[u8]) -> (r: Step)
        requires
            old(self)@.wf(),
        ensures
            (final(self)@, r@) == unmapped(old(self)@, req@),
            final(self)@.wf(),
    {
        proof {
            unmapped_keeps_wf(self@, req@);
        }
        if req.len() < 24 {
            return refuse(0, EINVAL);
        }
        let m = NvgpuMunmapReq::read(req);
        let mut actions: Vec<HostAction> = Vec::new();
        self.destroy_mapping(m.mapping_id, &mut actions);
        assert(actions@ =~= release_of(old(self)@.mappings, m.mapping_id));
        let bytes = header_response(NVGPU_MSG_MUNMAP, m.hdr.handle, 0);
        Step::Done(Reply { bytes, actions })
    }

    /// GET_PROC_FILES.
    fn handle_get_proc_files(&self) -> (r: Step)
        ensures
            r@ == just(file_list(proc_files(self@.config.extra_proc@))),
    {
        let mut payload: Vec<u8> = Vec::new();
        push_proc_files(&mut payload, &self.config.extra_proc);
        assert(payload@ =~= file_list(proc_files(self@.config.extra_proc@)));
        reply_only(payload)
    }

    /// GET_SYS_FILES.
    fn handle_get_sys_files(&self) -> (r: Step)
        ensures
            r@ == just(
                file_list(sys_files(self@.config.sys_files@)) + dri_list(
                    self@.config.dri_devices@,
                ),
            ),
    {
        let mut payload: Vec<u8> = Vec::new();
        push_sys_files(&mut payload, &self.config.sys_files);
        push_dri_devices(&mut payload, &self.config.dri_devices);
        assert(payload@ =~= file_list(sys_files(self@.config.sys_files@)) + dri_list(
            self@.config.dri_devices@,
        ));
        reply_only(payload)
    }

    /// An ioctl without pointers, whose argument is `data`.
    fn execute_simple_ioctl(&self, r: &NvgpuIoctlReq, data: Vec<u8>) -> (step: Step)
        requires
            data.len() <= u32::MAX,
        ensures
            step@ == decide_simple(self@.fds, *r, data@),
            step matches Step::Ioctl(call) ==> call@.wf(),
    {
        match self.fd_table.get(&r.hdr.handle) {
            None => refuse(r.hdr.handle, EBADF),
            Some(f) => {
                let nested: Vec<u8> = Vec::new();
                assert(nested@ =~= Seq::empty());
                Step::Ioctl(
                    IoctlCall {
                        handle: r.hdr.handle,
                        fd: f.fd,
                        cmd: r.cmd,
                        data,
                        nested,
                        plan: IoctlPlan::Simple,
                    },
                )
            },
        }
    }

    /// An ioctl with a handle at `offset` of its parameters.
    fn execute_fd_translation_ioctl(
        &self,
        r: &NvgpuIoctlReq,
        data: &[u8],
        offset: usize,
    ) -> (step: Step)
        requires
            offset + 4 <= usize::MAX,
            data.len() <= u32::MAX,
        ensures
            step@ == decide_translated(self@.fds, *r, data@, offset),
            step matches Step::Ioctl(call) ==> call@.wf(),
    {
        if data.len() < offset + 4 {
            return refuse(r.hdr.handle, EINVAL);
        }
        let other = read_u32(data, offset);
        match self.fd_table.get(&other) {
            None => refuse(r.hdr.handle, EBADF),
            Some(f) => {
                let mut buf = copied(data);
                put_u32(&mut buf, offset, to_bits(f.fd));
                self.execute_simple_ioctl(r, buf)
            },
        }
    }

    /// An ioctl with nested parameters.
    fn execute_complex_ioctl(&self, r: &NvgpuIoctlReq, data: &[u8], nested: &[u8]) -> (step: Step)
        requires
            data.len() <= u32::MAX,
            nested.len() <= u32::MAX,
        ensures
            step@ == decide_complex(self@.fds, *r, data@, nested@),
            step matches Step::Ioctl(call) ==> call@.wf(),
    {
        match self.fd_table.get(&r.hdr.handle) {
            None => refuse(r.hdr.handle, EBADF),
            Some(f) => {
                if data.len() < PTR_OFFSET + 8 {
                    return refuse(r.hdr.handle, EINVAL);
                }
                let guest_ptr = read_u64(data, PTR_OFFSET);
                let mut top = copied(data);
                put_u64(&mut top, PTR_OFFSET, 0);
                if ioc_nr(r.cmd) == NV_ESC_RM_ALLOC && top.len() >= RIGHTS_OFFSET + 8 {
                    put_u64(&mut top, RIGHTS_OFFSET, 0);
                }
                proof {
                    zero_fields();
                }
                Step::Ioctl(
                    IoctlCall {
                        handle: r.hdr.handle,
                        fd: f.fd,
                        cmd: r.cmd,
                        data: top,
                        nested: copied(nested),
                        plan: IoctlPlan::Complex { guest_ptr },
                    },
                )
            },
        }
    }

    /// Whether the handle is open, and is that of /dev/nvidia-uvm.
    fn is_uvm_handle(&self, handle: u32) -> (r: bool)
        ensures
            r == is_uvm(self@.fds, handle),
    {
        match self.fd_table.get(&handle) {
            Some(f) => f.device_type == NVGPU_DEV_UVM,
            None => false,
        }
    }

    /// Whether an ioctl may be forwarded.
    fn is_permitted(&self, handle: u32, cmd: u32) -> (r: bool)
        ensures
            r == permitted(self@.allowed, self@.uvm, self@.fds, handle, nr_of(cmd)),
    {
        if self.is_uvm_handle(handle) {
            self.allowed_ioctls.is_uvm_allowed(cmd)
        } else {
            self.allowed_ioctls.is_allowed(ioc_nr(cmd))
        }
    }

    /// An allowed ioctl, by its number.
    fn route_ioctl(&self, r: &NvgpuIoctlReq, data: &[u8], nested: &[u8]) -> (step: Step)
        requires
            data.len() <= u32::MAX,
            nested.len() <= u32::MAX,
        ensures
            step@ == decide_routed(self@.fds, *r, data@, nested@),
            step matches Step::Ioctl(call) ==> call@.wf(),
    {
        let nr = ioc_nr(r.cmd);
        if nr == NV_ESC_RM_CONTROL || nr == NV_ESC_RM_ALLOC {
            return self.execute_complex_ioctl(r, data, nested);
        }
        match AllowedIoctls::fd_translation(nr) {
            Some(entry) => {
                assert(entry.payload_offset == 0) by {
                    reveal_with_fuel(first_entry, 2);
                }
                self.execute_fd_translation_ioctl(r, data, entry.payload_offset)
            },
            None => self.execute_simple_ioctl(r, copied(data)),
        }
    }

    /// IOCTL.
    pub fn handle_ioctl(&self, req: &[u8]) -> (step: Step)
        ensures
            step@ == decide_ioctl(self@.allowed, self@.uvm, self@.fds, req@),
            step matches Step::Ioctl(call) ==> call@.wf(),
    {
        if req.len() < 32 {
            return refuse(0, EINVAL);
        }
        let r = NvgpuIoctlReq::read(req);
        if !self.is_permitted(r.hdr.handle, r.cmd) {
            return refuse(r.hdr.handle, ENOTTY);
        }
        let data_end = 32 + r.data_len as u64;
        let nested_end = 32 + r.nested_offset as u64 + r.nested_len as u64;
        if data_end > req.len() as u64 || nested_end > req.len() as u64 {
            return refuse(r.hdr.handle, EINVAL);
        }
        let data = &req[32..data_end as usize];
        let start = nested_end as usize - r.nested_len as usize;
        let nested = &req[start..nested_end as usize];
        assert(r.nested_len == 0 ==> nested@ =~= Seq::empty());
        self.route_ioctl(&r, data, nested)
    }

    /// Serves a request as far as that goes without the host.
    pub fn process_request(&mut self, req: &[u8]) -> (r: Step)
        requires
            old(self)@.wf(),
            old(self)@.pending is None,
        ensures
            (final(self)@, r@) == processed(old(self)@, req@),
            final(self)@.wf(),
            final(self)@.pending is None,
            r matches Step::Ioctl(call) ==> call@.wf(),
            r matches Step::Mmap(call) ==> final(self)@.fds.contains_key(call.handle),
    {
        if req.len() < 16 {
            return refuse(0, EINVAL);
        }
        let hdr = NvgpuMsgHdr::read(req);
        match hdr.msg_type {
            NVGPU_MSG_OPEN => self.handle_open(req),
            NVGPU_MSG_CLOSE => self.handle_close(hdr.handle),
            NVGPU_MSG_IOCTL => self.handle_ioctl(req),
            NVGPU_MSG_MMAP => self.handle_mmap(req),
            NVGPU_MSG_MUNMAP => self.handle_munmap(req),
            NVGPU_MSG_GET_PROC_FILES => self.handle_get_proc_files(),
            NVGPU_MSG_GET_SYS_FILES => self.handle_get_sys_files(),
            _ => refuse(hdr.handle, ENOSYS),
        }
    }

    /// Whether there is a handle left for another file.
    pub fn can_open(&self) -> (r: bool)
        ensures
            r == (self@.next_handle < u32::MAX),
    {
        self.next_handle < u32::MAX
    }

    /// Takes the outcome of opening a file: the descriptor, or the host's error number.
    pub fn finish_open(&mut self, device_type: u32, outcome: Result<i32, Option<i32>>) -> (r: Step)
        requires
            old(self)@.wf(),
            outcome is Ok ==> old(self)@.next_handle < u32::MAX,
            outcome matches Err(errno) ==> negatable(errno),
        ensures
            (final(self)@, r@) == opened(old(self)@, device_type, outcome),
            final(self)@.wf(),
            final(self)@.pending == old(self)@.pending,
    {
        match outcome {
            Err(errno) => reply_only(error_response(0, failure_status(errno))),
            Ok(fd) => {
                proof {
                    opened_keeps_wf(self@, device_type, outcome);
                }
                let handle = self.next_handle;
                self.next_handle = handle + 1;
                let f = HostFd { fd, device_type, mapping_ids: Vec::new() };
                assert(f.mapping_ids@ =~= Seq::empty());
                self.fd_table.insert(handle, f);
                assert(self@.fds =~= opened(old(self)@, device_type, outcome).0.fds);
                let hdr = NvgpuMsgHdr {
                    msg_type: NVGPU_MSG_OPEN,
                    handle,
                    status: 0,
                    padding: 0,
                };
                reply_only(bytes_of(&NvgpuOpenResp { hdr }))
            },
        }
    }

    /// Whether memory of `size` bytes can be placed: see [`WorkerView::placeable`].
    pub fn can_place(&self, size: u64) -> (r: bool)
        ensures
            r == self@.placeable(size),
    {
        if !self.mmio_alloc.can_measure() {
            return false;
        }
        self.next_kvm_slot < u32::MAX || !self.mmio_alloc.fits(size)
    }

    /// Takes the outcome of mapping memory: its address, or the host's error number.
    pub fn mmap_done(&mut self, call: MmapCall, outcome: Result<u64, Option<i32>>) -> (r: Step)
        requires
            old(self)@.wf(),
            old(self)@.pending is None,
            old(self)@.fds.contains_key(call.handle),
            outcome is Ok ==> old(self)@.placeable(call.size),
            outcome matches Err(errno) ==> negatable(errno),
        ensures
            (final(self)@, r@) == mapped(old(self)@, call, outcome),
            final(self)@.wf(),
            final(self)@.pending is Some <==> r is SetRegion,
    {
        proof {
            mapped_keeps_wf(self@, call, outcome);
        }
        let addr = match outcome {
            Err(errno) => {
                return reply_only(error_response(call.handle, failure_status(errno)));
            },
            Ok(addr) => addr,
        };
        match self.mmio_alloc.allocate(call.size) {
            None => {
                let bytes = error_response(call.handle, -ENOMEM);
                let actions = vec![HostAction::Munmap { addr, size: call.size }];
                assert(actions@ =~= seq![HostAction::Munmap { addr, size: call.size }]);
                Step::Done(Reply { bytes, actions })
            },
            Some(guest_phys_addr) => {
                let slot = self.next_kvm_slot;
                self.next_kvm_slot = slot + 1;
                let m = GpuMapping {
                    host_ptr: addr,
                    size: call.size,
                    guest_phys_addr,
                    kvm_slot: slot,
                    host_fd_handle: call.handle,
                };
                self.pending = Some(m);
                Step::SetRegion(m.region())
            },
        }
    }

    /// Whether there is an id left for another mapping.
    pub fn can_register(&self) -> (r: bool)
        ensures
            r == (self@.next_mapping_id < u32::MAX),
    {
        self.next_mapping_id < u32::MAX
    }

    /// Takes the outcome of setting the memory slot of the mapping that waits for it.
    pub fn slot_done(&mut self, ok: bool) -> (r: Step)
        requires
            old(self)@.wf(),
            old(self)@.pending is Some,
            ok ==> old(self)@.next_mapping_id < u32::MAX,
        ensures
            (final(self)@, r@) == slotted(old(self)@, old(self)@.pending->0, ok),
            final(self)@.wf(),
            final(self)@.pending is None,
    {
        proof {
            slotted_keeps_wf(self@, self@.pending->0, ok);
        }
        let m = self.pending.unwrap();
        self.pending = None;
        if !ok {
            let bytes = error_response(m.host_fd_handle, -EIO);
            let actions = vec![HostAction::Munmap { addr: m.host_ptr, size: m.size }];
            assert(actions@ =~= seq![HostAction::Munmap { addr: m.host_ptr, size: m.size }]);
            return Step::Done(Reply { bytes, actions });
        }
        let mapping_id = self.next_mapping_id;
        self.next_mapping_id = mapping_id + 1;
        self.mappings.insert(mapping_id, m);
        let ghost table = self.fd_table@;
        assert(table.contains_key(m.host_fd_handle));
        let taken = self.fd_table.remove(&m.host_fd_handle);
        if let Some(mut f) = taken {
            f.mapping_ids.push(mapping_id);
            self.fd_table.insert(m.host_fd_handle, f);
            assert(fds_view(self.fd_table@) =~= fds_view(table).insert(
                m.host_fd_handle,
                with_mapping(fds_view(table)[m.host_fd_handle], mapping_id),
            ));
        }
        let hdr = NvgpuMsgHdr {
            msg_type: NVGPU_MSG_MMAP,
            handle: m.host_fd_handle,
            status: 0,
            padding: 0,
        };
        reply_only(
            bytes_of(
                &NvgpuMmapResp {
                    hdr,
                    guest_phys_addr: m.guest_phys_addr,
                    size: m.size,
                    mapping_id,
                    padding: 0,
                },
            ),
        )
    }
}

/// A table of files shows every file by its handle: its descriptor, its device type, and the
/// mappings that were made of it.
pub proof fn tables_show_their_files(table: Map<u32, HostFd>, handle: u32)
    ensures
        fds_view(table).contains_key(handle) == table.contains_key(handle),
        table.contains_key(handle) ==> {
            let f = fds_view(table)[handle];
            &&& f.fd == table[handle].fd
            &&& f.device_type == table[handle].device_type
            &&& f.mapping_ids == table[handle].mapping_ids@
        },
{
}

} // verus!
