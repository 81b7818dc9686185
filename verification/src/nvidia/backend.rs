//! The backend.

use vstd::prelude::*;

use crate::abi::ioctl::{
    escape_of, NV_ESC_ALLOC_OS_EVENT, NV_ESC_FREE_OS_EVENT, NV_ESC_REGISTER_FD, NV_ESC_RM_ALLOC,
    NV_ESC_RM_ALLOC_MEMORY, NV_ESC_RM_CONTROL, NV_ESC_RM_MAP_MEMORY,
};
use crate::bytes::{
    copied, group_field_lengths, le64, push_bytes, push_u64, push_zeros, put_u32, put_u64, read_u32,
    read_u64, to_bits, u64_at, zero_fields, zeros,
};
use crate::errno::{EINVAL, ENOMEM};
use crate::handle_table::{lists_all, HandleTable};
use crate::nvidia::call::{
    pgprot_from_flags, IoctlCall, IoctlCallView, IoctlPlan, MapCall, OpenCall,
};
use crate::nvidia::decide::{
    decide, decide_close, decide_fd_carrying, decide_ioctl, decide_map_memory, decide_nested,
    decide_open, device_path, dispatchable, nested_handle_offset, sign_extend, Decision, Dispatch,
    NESTED_PTR_OFFSET,
};
use crate::nvidia::meaning::{
    error_answers_tell_the_error, map_answers_tell_the_place, open_answers_tell_the_handle,
    starts_with_header,
};
use crate::nvidia::reply::{
    answered, error_reply, ioctl_reply, nowhere, ok_reply, write_error_resp, write_ioctl_resp,
    write_ok, Placement,
};
use crate::protocol::{CloseReq, IoctlReq, MsgHeader, MsgType, OpenReq, Status};
use crate::shm::{ShmAllocator, Zone, ZoneConfig};

verus! {

broadcast use group_field_lengths;

/// What [`NvidiaBackend::complete_ioctl`] came to.
#[derive(Debug)]
pub enum Completion {
    /// A response of so many bytes was written.
    Done(usize),
    /// The host has to map memory; the outcome goes to [`NvidiaBackend::complete_map`].
    Mapping(MapCall),
}

/// The window after an ioctl: a mapping takes its room, if there is enough.
pub open spec fn shm_after(shm: ShmAllocator, call: IoctlCallView, outcome: Result<(), i32>) ->
    ShmAllocator {
    if outcome is Ok && call.wants_map() {
        shm.after(call.map_length(), call.map_pgprot())
    } else {
        shm
    }
}

impl Completion {
    /// What becomes of an ioctl, with the buffer before and after.
    pub open spec fn settles(
        self,
        shm: ShmAllocator,
        call: IoctlCallView,
        outcome: Result<(), i32>,
        before: Seq<u8>,
        after: Seq<u8>,
    ) -> bool {
        match outcome {
            Err(errno) => self matches Completion::Done(n) && answered(
                before,
                after,
                n,
                error_reply(before.len(), Status::IoctlFailed, call.cookie, errno),
            ),
            Ok(_) => if !call.wants_map() {
                self matches Completion::Done(n) && answered(
                    before,
                    after,
                    n,
                    ioctl_reply(before.len(), call.cookie, call.returned(), nowhere()),
                )
            } else {
                match shm.granted(call.map_length(), call.map_pgprot()) {
                    Err(_) => self matches Completion::Done(n) && answered(
                        before,
                        after,
                        n,
                        error_reply(before.len(), Status::IoctlFailed, call.cookie, ENOMEM),
                    ),
                    Ok(region) => self matches Completion::Mapping(m) && {
                        &&& m.cookie == call.cookie
                        &&& m.map.target == shm.base_ptr + region.offset
                        &&& m.map.length == call.map_length()
                        &&& m.map.fd == call.plan->map_fd
                        &&& m.placement == (Placement {
                            offset: region.offset,
                            length: call.map_length(),
                            pgprot: call.map_pgprot().spec_code(),
                        })
                        &&& m.params@ == call.returned()
                        &&& after == before
                    },
                }
            },
        }
    }
}

/// Serves the requests of one guest.
pub struct NvidiaBackend {
    pub handles: HandleTable,
    pub shm: ShmAllocator,
}

impl NvidiaBackend {
    /// The handles were all issued, and the zones fill the window.
    pub open spec fn wf(&self) -> bool {
        &&& self.handles.wf()
        &&& self.shm.wf()
    }

    /// A backend with these zones, whose window is `memfd`, mapped at `memfd_ptr`.
    pub fn new(cfg: ZoneConfig, memfd: Option<i32>, memfd_ptr: u64) -> (r: Self)
        requires
            cfg.valid(),
            memfd_ptr + cfg.sum() <= u64::MAX,
        ensures
            r.wf(),
            r.handles.next_handle() == 1,
            r.handles.fds() == Map::<u64, i32>::empty(),
            r.shm.uc == (Zone { base: 0, size: cfg.uc_size, cursor: 0 }),
            r.shm.wc == (Zone { base: cfg.uc_size, size: cfg.wc_size, cursor: 0 }),
            r.shm.wb == (Zone {
                base: (cfg.uc_size + cfg.wc_size) as u64,
                size: cfg.wb_size,
                cursor: 0,
            }),
            r.shm.base_ptr == memfd_ptr,
            r.shm.memfd == memfd,
            r.shm.total_size == cfg.sum(),
    {
        NvidiaBackend {
            handles: HandleTable::new(),
            shm: ShmAllocator::new(cfg, memfd, memfd_ptr),
        }
    }

    /// A backend with the zones of [`ZoneConfig::default_256mib`].
    pub fn with_default_zones(memfd: Option<i32>, memfd_ptr: u64) -> (r: Self)
        requires
            memfd_ptr + 256 * 1024 * 1024 <= u64::MAX,
        ensures
            r.wf(),
            r.handles.next_handle() == 1,
            r.handles.fds() == Map::<u64, i32>::empty(),
            r.shm.uc == (Zone { base: 0, size: 0x40_0000, cursor: 0 }),
            r.shm.wc == (Zone { base: 0x40_0000, size: 0x800_0000, cursor: 0 }),
            r.shm.wb == (Zone { base: 0x840_0000, size: 0x7c0_0000, cursor: 0 }),
            r.shm.base_ptr == memfd_ptr,
            r.shm.memfd == memfd,
            r.shm.total_size == 256 * 1024 * 1024,
    {
        NvidiaBackend::new(ZoneConfig::default_256mib(), memfd, memfd_ptr)
    }

    /// Bytes of the window.
    pub fn shm_total_size(&self) -> (r: u64)
        ensures
            r == self.shm.total_size,
    {
        self.shm.total_size()
    }

    /// The descriptor of the memory behind the window, or -1.
    pub fn shm_memfd_raw(&self) -> (r: i32)
        ensures
            r == match self.shm.memfd {
                Some(fd) => fd,
                None => -1i32,
            },
    {
        self.shm.memfd_raw()
    }

    /// Where the window starts in the host's address space.
    pub fn shm_base_ptr(&self) -> (r: u64)
        ensures
            r == self.shm.base_ptr,
    {
        self.shm.base_ptr()
    }

    /// Moves the window to the guest's memory, once that is set up.
    pub fn set_shm_base(&mut self, ptr: u64)
        requires
            old(self).wf(),
            ptr + old(self).shm.total_size <= u64::MAX,
        ensures
            final(self).wf(),
            final(self).handles == old(self).handles,
            final(self).shm == (ShmAllocator { base_ptr: ptr, ..old(self).shm }),
    {
        self.shm.set_base_ptr(ptr);
    }

    /// Number of open handles.
    pub fn handle_count(&self) -> (n: usize)
        ensures
            n == self.handles.fds().len(),
    {
        self.handles.len()
    }

    /// Gives up every handle and returns the host descriptors, which are to be closed.  The
    /// host's driver then frees all objects of the guest.
    pub fn teardown(&mut self) -> (closed: Vec<i32>)
        requires
            old(self).wf(),
        ensures
            final(self).wf(),
            final(self).handles.fds() == Map::<u64, i32>::empty(),
            final(self).handles.next_handle() == old(self).handles.next_handle(),
            final(self).shm == old(self).shm,
            lists_all(old(self).handles.fds(), closed@),
    {
        self.handles.drain_all()
    }

    /// Whether a request can be dispatched: see [`dispatchable`].
    pub fn can_dispatch(&self, req: &[u8], cap: usize) -> (r: bool)
        ensures
            r == dispatchable(self.handles.fds(), req@, cap as nat),
    {
        if req.len() < 16 {
            return true;
        }
        let hdr = MsgHeader::read(req, 0);
        let payload = &req[16..req.len()];
        assert(payload@ =~= req@.skip(16));
        if hdr.msg_type == MsgType::Ioctl.code() && payload.len() >= 24 {
            payload.len() - 24 >= IoctlReq::read(payload, 0).param_size as usize
        } else if hdr.msg_type == MsgType::Close.code() && payload.len() >= 8 {
            cap >= 24 || self.handles.get_raw(CloseReq::read(payload, 0).guest_handle).is_err()
        } else {
            true
        }
    }

    /// Serves a request as far as that goes without the host.
    pub fn dispatch(&mut self, req: &[u8], resp: &mut [u8]) -> (r: Dispatch)
        requires
            old(self).wf(),
            dispatchable(old(self).handles.fds(), req@, old(resp)@.len()),
        ensures
            final(self).wf(),
            final(self).shm == old(self).shm,
            final(self).handles.next_handle() == old(self).handles.next_handle(),
            final(self).handles.fds() == match decide(
                old(self).handles.fds(),
                req@,
                old(resp)@.len(),
            ) {
                Decision::Close { handle, reply } => old(self).handles.fds().remove(handle),
                _ => old(self).handles.fds(),
            },
            r.carries_out(
                decide(old(self).handles.fds(), req@, old(resp)@.len()),
                old(self).handles.fds(),
                old(resp)@,
                final(resp)@,
            ),
            r matches Dispatch::Ioctl(call) ==> call@.wf(),
    {
        if req.len() < 16 {
            return Dispatch::Done(write_error_resp(resp, Status::InvalidMsgType, 0, 0));
        }
        let hdr = MsgHeader::read(req, 0);
        let payload = &req[16..req.len()];
        assert(payload@ =~= req@.skip(16));
        match MsgType::from_code(hdr.msg_type) {
            None => Dispatch::Done(
                write_error_resp(resp, Status::InvalidMsgType, hdr.cookie, 0),
            ),
            Some(MsgType::Open) => self.handle_open(hdr.cookie, payload, resp),
            Some(MsgType::Close) => self.handle_close(hdr.cookie, payload, resp),
            Some(MsgType::Ioctl) => self.handle_ioctl(hdr.cookie, payload, resp),
        }
    }

    /// OPEN.
    fn handle_open(&self, cookie: u64, payload: &[u8], resp: &mut [u8]) -> (r: Dispatch)
        ensures
            r.carries_out(
                decide_open(cookie, payload@, old(resp)@.len()),
                self.handles.fds(),
                old(resp)@,
                final(resp)@,
            ),
            !(r is Ioctl),
    {
        if payload.len() < 8 {
            return Dispatch::Done(write_error_resp(resp, Status::InvalidDevice, cookie, 0));
        }
        let req = OpenReq::read(payload, 0);
        match device_path(req.kind, req.index) {
            Ok(path) => Dispatch::Open(OpenCall { cookie, path }),
            Err(_) => Dispatch::Done(write_error_resp(resp, Status::InvalidDevice, cookie, 0)),
        }
    }

    /// Whether a file that the host opened can be taken, with `cap` bytes for the response.
    pub fn can_complete_open(&self, cap: usize) -> (r: bool)
        ensures
            r == (cap >= 24 && self.handles.next_handle() < u64::MAX),
    {
        cap >= 24 && self.handles.can_insert()
    }

    /// Takes the outcome of opening a file: the new descriptor, or the host's error number.
    pub fn complete_open(&mut self, cookie: u64, outcome: Result<i32, i32>, resp: &mut [u8]) -> (n:
        usize)
        requires
            old(self).wf(),
            outcome is Ok ==> old(resp).len() >= 24 && old(self).handles.next_handle() < u64::MAX,
        ensures
            final(self).wf(),
            final(self).shm == old(self).shm,
            match outcome {
                Ok(fd) => {
                    let handle = old(self).handles.next_handle();
                    &&& final(self).handles.next_handle() == handle + 1
                    &&& final(self).handles.fds() == old(self).handles.fds().insert(handle, fd)
                    &&& answered(
                        old(resp)@,
                        final(resp)@,
                        n,
                        ok_reply(cookie, le64(handle)),
                    )
                    &&& n == 24
                    &&& starts_with_header(final(resp)@, 0, 0, cookie)
                    &&& u64_at(final(resp)@, 16) == handle
                },
                Err(errno) => {
                    &&& final(self).handles == old(self).handles
                    &&& answered(
                        old(resp)@,
                        final(resp)@,
                        n,
                        error_reply(old(resp)@.len(), Status::OpenFailed, cookie, errno),
                    )
                    &&& old(resp)@.len() >= 16 ==> n == 16 && starts_with_header(
                        final(resp)@,
                        3,
                        errno as int,
                        cookie,
                    )
                },
            },
    {
        match outcome {
            Err(errno) => {
                let n = write_error_resp(resp, Status::OpenFailed, cookie, errno);
                proof {
                    if old(resp)@.len() >= 16 {
                        error_answers_tell_the_error(
                            old(resp)@,
                            resp@,
                            n,
                            Status::OpenFailed,
                            cookie,
                            errno,
                        );
                    }
                }
                n
            },
            Ok(fd) => {
                let handle = self.handles.insert(fd);
                let mut payload: Vec<u8> = Vec::new();
                push_u64(&mut payload, handle);
                assert(payload@ =~= le64(handle));
                let n = write_ok(resp, cookie, payload.as_slice());
                proof {
                    open_answers_tell_the_handle(old(resp)@, resp@, n, cookie, handle);
                }
                n
            },
        }
    }

    /// CLOSE.
    fn handle_close(&mut self, cookie: u64, payload: &[u8], resp: &mut [u8]) -> (r: Dispatch)
        requires
            old(self).wf(),
            payload@.len() >= 8 && old(self).handles.fds().contains_key(
                CloseReq::at(payload@, 0).guest_handle,
            ) ==> old(resp).len() >= 24,
        ensures
            final(self).wf(),
            final(self).shm == old(self).shm,
            final(self).handles.next_handle() == old(self).handles.next_handle(),
            final(self).handles.fds() == match decide_close(
                old(self).handles.fds(),
                cookie,
                payload@,
                old(resp)@.len(),
            ) {
                Decision::Close { handle, reply } => old(self).handles.fds().remove(handle),
                _ => old(self).handles.fds(),
            },
            r.carries_out(
                decide_close(old(self).handles.fds(), cookie, payload@, old(resp)@.len()),
                old(self).handles.fds(),
                old(resp)@,
                final(resp)@,
            ),
            !(r is Ioctl),
    {
        if payload.len() < 8 {
            return Dispatch::Done(write_error_resp(resp, Status::BadHandle, cookie, 0));
        }
        let req = CloseReq::read(payload, 0);
        match self.handles.remove(req.guest_handle) {
            Ok(fd) => {
                let mut payload: Vec<u8> = Vec::new();
                push_zeros(&mut payload, 8);
                assert(payload@ =~= zeros(8));
                Dispatch::Close { fd, written: write_ok(resp, cookie, payload.as_slice()) }
            },
            Err(_) => {
                assert(self.handles.fds() =~= old(self).handles.fds());
                Dispatch::Done(write_error_resp(resp, Status::BadHandle, cookie, 0))
            },
        }
    }

    /// IOCTL.
    fn handle_ioctl(&self, cookie: u64, payload: &[u8], resp: &mut [u8]) -> (r: Dispatch)
        requires
            payload@.len() >= 24 ==> payload@.len() >= 24 + IoctlReq::at(payload@, 0).param_size,
        ensures
            r.carries_out(
                decide_ioctl(self.handles.fds(), cookie, payload@, old(resp)@.len()),
                self.handles.fds(),
                old(resp)@,
                final(resp)@,
            ),
            r matches Dispatch::Ioctl(call) ==> call@.wf(),
    {
        if payload.len() < 24 {
            return Dispatch::Done(write_error_resp(resp, Status::InvalidMsgType, cookie, 0));
        }
        let ireq = IoctlReq::read(payload, 0);
        let params = &payload[24..24 + ireq.param_size as usize];
        let fd = match self.handles.get_raw(ireq.guest_handle) {
            Ok(fd) => fd,
            Err(_) => {
                return Dispatch::Done(write_error_resp(resp, Status::BadHandle, cookie, 0));
            },
        };
        match escape_of(ireq.request) {
            NV_ESC_REGISTER_FD => self.dispatch_fd_carrying(
                cookie,
                fd,
                ireq.request,
                params,
                0,
                resp,
            ),
            NV_ESC_ALLOC_OS_EVENT | NV_ESC_FREE_OS_EVENT => self.dispatch_fd_carrying(
                cookie,
                fd,
                ireq.request,
                params,
                8,
                resp,
            ),
            NV_ESC_RM_MAP_MEMORY => self.dispatch_map_memory(
                cookie,
                fd,
                ireq.request,
                params,
                resp,
            ),
            NV_ESC_RM_CONTROL => self.dispatch_nested(
                cookie,
                fd,
                ireq.request,
                params,
                resp,
                32,
                NESTED_PTR_OFFSET,
            ),
            NV_ESC_RM_ALLOC | NV_ESC_RM_ALLOC_MEMORY => self.dispatch_nested(
                cookie,
                fd,
                ireq.request,
                params,
                resp,
                48,
                NESTED_PTR_OFFSET,
            ),
            _ => self.dispatch_simple(cookie, fd, ireq.request, params),
        }
    }

    /// An ioctl whose parameters hold neither handles nor pointers.
    fn dispatch_simple(&self, cookie: u64, fd: i32, request: u64, params: &[u8]) -> (r: Dispatch)
        ensures
            r matches Dispatch::Ioctl(call) && call@ == (IoctlCallView {
                cookie,
                fd,
                request,
                params: params@,
                nested: Seq::empty(),
                plan: IoctlPlan::Simple,
            }),
    {
        let nested: Vec<u8> = Vec::new();
        assert(nested@ =~= Seq::empty());
        Dispatch::Ioctl(
            IoctlCall {
                cookie,
                fd,
                request,
                params: copied(params),
                nested,
                plan: IoctlPlan::Simple,
            },
        )
    }

    /// An ioctl with a guest handle at `fd_offset` of its parameters.
    fn dispatch_fd_carrying(
        &self,
        cookie: u64,
        fd: i32,
        request: u64,
        params: &[u8],
        fd_offset: usize,
        resp: &mut [u8],
    ) -> (r: Dispatch)
        requires
            fd_offset <= 8,
            params.len() <= u32::MAX,
        ensures
            r.carries_out(
                decide_fd_carrying(
                    self.handles.fds(),
                    cookie,
                    fd,
                    request,
                    params@,
                    fd_offset,
                    old(resp)@.len(),
                ),
                self.handles.fds(),
                old(resp)@,
                final(resp)@,
            ),
            r matches Dispatch::Ioctl(call) ==> call@.wf(),
    {
        if params.len() < fd_offset + 4 {
            return Dispatch::Done(write_error_resp(resp, Status::IoctlFailed, cookie, EINVAL));
        }
        let guest = read_u32(params, fd_offset);
        match self.handles.get_raw(guest as u64) {
            Err(_) => Dispatch::Done(write_error_resp(resp, Status::BadHandle, cookie, 0)),
            Ok(embedded) => {
                let mut buf = copied(params);
                put_u32(&mut buf, fd_offset, to_bits(embedded));
                let nested: Vec<u8> = Vec::new();
                assert(nested@ =~= Seq::empty());
                Dispatch::Ioctl(
                    IoctlCall {
                        cookie,
                        fd,
                        request,
                        params: buf,
                        nested,
                        plan: IoctlPlan::FdCarrying { fd_offset, guest },
                    },
                )
            },
        }
    }

    /// NV_ESC_RM_MAP_MEMORY, whose parameters are 56 bytes with a guest handle at byte 48.
    fn dispatch_map_memory(
        &self,
        cookie: u64,
        fd: i32,
        request: u64,
        params: &[u8],
        resp: &mut [u8],
    ) -> (r: Dispatch)
        requires
            params.len() <= u32::MAX,
        ensures
            r.carries_out(
                decide_map_memory(
                    self.handles.fds(),
                    cookie,
                    fd,
                    request,
                    params@,
                    old(resp)@.len(),
                ),
                self.handles.fds(),
                old(resp)@,
                final(resp)@,
            ),
            r matches Dispatch::Ioctl(call) ==> call@.wf(),
    {
        if params.len() < 56 {
            return Dispatch::Done(write_error_resp(resp, Status::IoctlFailed, cookie, EINVAL));
        }
        let guest = read_u32(params, 48);
        match self.handles.get_raw(sign_extend(guest)) {
            Err(_) => Dispatch::Done(write_error_resp(resp, Status::BadHandle, cookie, 0)),
            Ok(map_fd) => {
                let mut buf = copied(params);
                put_u32(&mut buf, 48, to_bits(map_fd));
                let nested: Vec<u8> = Vec::new();
                assert(nested@ =~= Seq::empty());
                Dispatch::Ioctl(
                    IoctlCall {
                        cookie,
                        fd,
                        request,
                        params: buf,
                        nested,
                        plan: IoctlPlan::MapMemory { map_fd, guest },
                    },
                )
            },
        }
    }

    /// An ioctl whose argument of `outer_size` bytes points, at `ptr_offset`, at further
    /// parameters.
    pub fn dispatch_nested(
        &self,
        cookie: u64,
        fd: i32,
        request: u64,
        params: &[u8],
        resp: &mut [u8],
        outer_size: usize,
        ptr_offset: usize,
    ) -> (r: Dispatch)
        requires
            params.len() <= u32::MAX,
            ptr_offset + 8 <= outer_size,
        ensures
            r.carries_out(
                decide_nested(
                    self.handles.fds(),
                    cookie,
                    fd,
                    request,
                    params@,
                    outer_size,
                    ptr_offset,
                    old(resp)@.len(),
                ),
                self.handles.fds(),
                old(resp)@,
                final(resp)@,
            ),
            r matches Dispatch::Ioctl(call) ==> call@.wf(),
    {
        if params.len() < outer_size {
            return Dispatch::Done(write_error_resp(resp, Status::IoctlFailed, cookie, EINVAL));
        }
        let outer = copied(&params[0..outer_size]);
        let mut nested = copied(&params[outer_size..params.len()]);
        assert(outer@ =~= params@.take(outer_size as int));
        assert(nested@ =~= params@.skip(outer_size as int));
        let mut saved: Option<(usize, u32)> = None;
        if let Some(place) = nested_handle_offset(request, outer.as_slice(), nested.as_slice()) {
            let guest = read_u32(nested.as_slice(), place);
            match self.handles.get_raw(sign_extend(guest)) {
                Err(_) => {
                    return Dispatch::Done(write_error_resp(resp, Status::BadHandle, cookie, 0));
                },
                Ok(real_fd) => {
                    put_u32(&mut nested, place, to_bits(real_fd));
                    saved = Some((place, guest));
                },
            }
        }
        Dispatch::Ioctl(
            IoctlCall {
                cookie,
                fd,
                request,
                params: outer,
                nested,
                plan: IoctlPlan::Nested { ptr_offset, saved },
            },
        )
    }

    /// Whether the outcome of an ioctl can be taken: see [`IoctlCallView::map_measurable`].
    pub fn can_complete_ioctl(&self, call: &IoctlCall) -> (r: bool)
        requires
            self.wf(),
            call@.wf(),
        ensures
            r == call@.map_measurable(self.shm),
    {
        match call.plan {
            IoctlPlan::MapMemory { map_fd, guest } => {
                let params = call.params.as_slice();
                read_u32(params, 40) != 0 || self.shm.can_measure(
                    read_u64(params, 24),
                    pgprot_from_flags(read_u32(params, 44)),
                )
            },
            _ => true,
        }
    }

    /// Takes the outcome of an ioctl: success, with what the host wrote to the buffers of
    /// `call`, or the host's error number.
    pub fn complete_ioctl(
        &mut self,
        call: IoctlCall,
        outcome: Result<(), i32>,
        resp: &mut [u8],
    ) -> (r: Completion)
        requires
            old(self).wf(),
            call@.wf(),
            outcome is Ok ==> call@.map_measurable(old(self).shm),
        ensures
            final(self).wf(),
            final(self).handles == old(self).handles,
            final(self).shm == shm_after(old(self).shm, call@, outcome),
            r.settles(old(self).shm, call@, outcome, old(resp)@, final(resp)@),
            r matches Completion::Mapping(m) ==> m.params.len() <= u32::MAX,
    {
        if let Err(errno) = outcome {
            return Completion::Done(
                write_error_resp(resp, Status::IoctlFailed, call.cookie, errno),
            );
        }
        let none = Placement { offset: 0, length: 0, pgprot: 0 };
        match call.plan {
            IoctlPlan::Simple => Completion::Done(
                write_ioctl_resp(resp, call.cookie, call.params.as_slice(), none),
            ),
            IoctlPlan::FdCarrying { fd_offset, guest } => {
                let mut params = copied(call.params.as_slice());
                put_u32(&mut params, fd_offset, guest);
                Completion::Done(write_ioctl_resp(resp, call.cookie, params.as_slice(), none))
            },
            IoctlPlan::Nested { ptr_offset, saved } => {
                let mut combined = copied(call.params.as_slice());
                put_u64(&mut combined, ptr_offset, 0);
                proof {
                    zero_fields();
                }
                let mut nested = copied(call.nested.as_slice());
                if let Some((offset, guest)) = saved {
                    put_u32(&mut nested, offset, guest);
                }
                push_bytes(&mut combined, nested.as_slice());
                assert(combined@ =~= call@.returned());
                Completion::Done(write_ioctl_resp(resp, call.cookie, combined.as_slice(), none))
            },
            IoctlPlan::MapMemory { map_fd, guest } => {
                let mut params = copied(call.params.as_slice());
                put_u32(&mut params, 48, guest);
                if read_u32(call.params.as_slice(), 40) != 0 {
                    return Completion::Done(
                        write_ioctl_resp(resp, call.cookie, params.as_slice(), none),
                    );
                }
                let length = read_u64(call.params.as_slice(), 24);
                let pgprot = pgprot_from_flags(read_u32(call.params.as_slice(), 44));
                let region = match self.shm.allocate(length, pgprot) {
                    Ok(region) => region,
                    Err(_) => {
                        return Completion::Done(
                            write_error_resp(resp, Status::IoctlFailed, call.cookie, ENOMEM),
                        );
                    },
                };
                let map = self.shm.map_host_fd(region.offset, length, map_fd);
                let placement = Placement {
                    offset: region.offset,
                    length,
                    pgprot: pgprot.code(),
                };
                Completion::Mapping(MapCall { cookie: call.cookie, map, placement, params })
            },
        }
    }

    /// Takes the outcome of mapping memory into the window.
    pub fn complete_map(&self, call: MapCall, mapped: bool, resp: &mut [u8]) -> (n: usize)
        requires
            call.params.len() <= u32::MAX,
        ensures
            answered(
                old(resp)@,
                final(resp)@,
                n,
                if mapped {
                    ioctl_reply(old(resp)@.len(), call.cookie, call.params@, call.placement)
                } else {
                    error_reply(old(resp)@.len(), Status::IoctlFailed, call.cookie, ENOMEM)
                },
            ),
            mapped && old(resp)@.len() >= 48 + call.params@.len() ==> {
                &&& n == 48 + call.params@.len()
                &&& starts_with_header(final(resp)@, 0, 0, call.cookie)
                &&& u64_at(final(resp)@, 24) == call.placement.offset
                &&& u64_at(final(resp)@, 32) == call.placement.length
                &&& final(resp)@[40] == call.placement.pgprot
                &&& final(resp)@.subrange(48, n as int) == call.params@
            },
            !mapped && old(resp)@.len() >= 16 ==> n == 16 && starts_with_header(
                final(resp)@,
                5,
                12,
                call.cookie,
            ),
    {
        if mapped {
            let n = write_ioctl_resp(
                resp,
                call.cookie,
                call.params.as_slice(),
                call.placement,
            );
            proof {
                if old(resp)@.len() >= 48 + call.params@.len() {
                    map_answers_tell_the_place(
                        old(resp)@,
                        resp@,
                        n,
                        call.cookie,
                        call.params@,
                        call.placement,
                    );
                }
            }
            n
        } else {
            let n = write_error_resp(resp, Status::IoctlFailed, call.cookie, ENOMEM);
            proof {
                if old(resp)@.len() >= 16 {
                    error_answers_tell_the_error(
                        old(resp)@,
                        resp@,
                        n,
                        Status::IoctlFailed,
                        call.cookie,
                        ENOMEM,
                    );
                }
            }
            n
        }
    }
}

} // verus!
