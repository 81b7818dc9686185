//! What a request calls for.

use vstd::prelude::*;

use crate::abi::ioctl::{
    escape_of, low_byte, NV_ESC_ALLOC_OS_EVENT, NV_ESC_FREE_OS_EVENT, NV_ESC_REGISTER_FD,
    NV_ESC_RM_ALLOC, NV_ESC_RM_ALLOC_MEMORY, NV_ESC_RM_CONTROL, NV_ESC_RM_MAP_MEMORY,
};
use crate::bytes::{bits_of, group_field_lengths, le32, overlay, read_u32, u32_at, zeros};
use crate::errno::EINVAL;
use crate::error::DeviceError;
use crate::nvidia::call::{IoctlCall, IoctlCallView, IoctlPlan, OpenCall};
use crate::nvidia::reply::{answered, error_reply, ok_reply};
use crate::protocol::{CloseReq, DeviceKind, IoctlReq, MsgHeader, MsgType, OpenReq, Status};
use crate::text::{dec, push_dec};

verus! {

broadcast use group_field_lengths;

/// GPUs that a guest can name.
pub const MAX_GPU: u8 = 8;

/// The device file of a kind of device, or why there is none.
pub open spec fn path_of(kind: u8, index: u8) -> Result<Seq<char>, DeviceError> {
    if kind == DeviceKind::Ctl.spec_code() {
        Ok("/dev/nvidiactl"@)
    } else if kind == DeviceKind::Gpu.spec_code() {
        if index < MAX_GPU {
            Ok("/dev/nvidia"@ + dec(index as nat))
        } else {
            Err(DeviceError::GpuIndexOutOfRange(index))
        }
    } else if kind == DeviceKind::Uvm.spec_code() {
        Ok("/dev/nvidia-uvm"@)
    } else if kind == DeviceKind::Modeset.spec_code() {
        Ok("/dev/nvidia-modeset"@)
    } else {
        Err(DeviceError::InvalidDeviceKind(kind))
    }
}

/// The device file of a kind of device.
pub fn device_path(kind: u8, index: u8) -> (r: Result<String, DeviceError>)
    ensures
        match r {
            Ok(path) => path_of(kind, index) == Ok::<Seq<char>, DeviceError>(path@),
            Err(e) => path_of(kind, index) == Err::<Seq<char>, DeviceError>(e),
        },
{
    if kind == DeviceKind::Ctl.code() {
        Ok("/dev/nvidiactl".to_owned())
    } else if kind == DeviceKind::Gpu.code() {
        if index >= MAX_GPU {
            return Err(DeviceError::GpuIndexOutOfRange(index));
        }
        let mut path = "/dev/nvidia".to_owned();
        push_dec(&mut path, index as u32);
        Ok(path)
    } else if kind == DeviceKind::Uvm.code() {
        Ok("/dev/nvidia-uvm".to_owned())
    } else if kind == DeviceKind::Modeset.code() {
        Ok("/dev/nvidia-modeset".to_owned())
    } else {
        Err(DeviceError::InvalidDeviceKind(kind))
    }
}

/// What [`NvidiaBackend::dispatch`] came to.
#[derive(Debug)]
pub enum Dispatch {
    /// A response of so many bytes was written.
    Done(usize),
    /// A response was written, and the host has to close `fd`.
    Close { fd: i32, written: usize },
    /// The host has to open a file; the outcome goes to [`NvidiaBackend::complete_open`].
    Open(OpenCall),
    /// The host has to make an ioctl; the outcome goes to [`NvidiaBackend::complete_ioctl`].
    Ioctl(IoctlCall),
}

/// What a request calls for.
pub ghost enum Decision {
    /// This response.
    Reply(Seq<u8>),
    /// This response, and the handle is gone and its descriptor closed.
    Close { handle: u64, reply: Seq<u8> },
    /// A file is opened.
    Open { cookie: u64, path: Seq<char> },
    /// The host makes an ioctl.
    Ioctl(IoctlCallView),
}

impl Dispatch {
    /// The outcome, with the buffer before and after, is what `decision` asks for.
    pub open spec fn carries_out(
        self,
        decision: Decision,
        fds: Map<u64, i32>,
        before: Seq<u8>,
        after: Seq<u8>,
    ) -> bool {
        match decision {
            Decision::Reply(reply) => self matches Dispatch::Done(n) && answered(
                before,
                after,
                n,
                reply,
            ),
            Decision::Close { handle, reply } => self matches Dispatch::Close { fd, written }
                && fd == fds[handle] && answered(before, after, written, reply),
            Decision::Open { cookie, path } => self matches Dispatch::Open(call) && call.cookie
                == cookie && call.path@ == path && after == before,
            Decision::Ioctl(view) => self matches Dispatch::Ioctl(call) && call@ == view && after
                == before,
        }
    }
}

/// OPEN: the file of the device that the payload names.
pub open spec fn decide_open(cookie: u64, payload: Seq<u8>, cap: nat) -> Decision {
    if payload.len() < 8 {
        Decision::Reply(error_reply(cap, Status::InvalidDevice, cookie, 0))
    } else {
        let req = OpenReq::at(payload, 0);
        match path_of(req.kind, req.index) {
            Ok(path) => Decision::Open { cookie, path },
            Err(_) => Decision::Reply(error_reply(cap, Status::InvalidDevice, cookie, 0)),
        }
    }
}

/// CLOSE: an open handle goes away.
pub open spec fn decide_close(
    fds: Map<u64, i32>,
    cookie: u64,
    payload: Seq<u8>,
    cap: nat,
) -> Decision {
    if payload.len() >= 8 && fds.contains_key(CloseReq::at(payload, 0).guest_handle) {
        Decision::Close {
            handle: CloseReq::at(payload, 0).guest_handle,
            reply: ok_reply(cookie, zeros(8)),
        }
    } else {
        Decision::Reply(error_reply(cap, Status::BadHandle, cookie, 0))
    }
}

/// Where an ioctl with an embedded descriptor has it: an escape and an offset.
pub open spec fn fd_place(escape: u32) -> Option<usize> {
    if escape == NV_ESC_REGISTER_FD {
        Some(0)
    } else if escape == NV_ESC_ALLOC_OS_EVENT || escape == NV_ESC_FREE_OS_EVENT {
        Some(8)
    } else {
        None
    }
}

/// Bytes of the outer structure of an ioctl that points at further parameters.
pub open spec fn outer_size_of(escape: u32) -> Option<usize> {
    if escape == NV_ESC_RM_CONTROL {
        Some(32)
    } else if escape == NV_ESC_RM_ALLOC || escape == NV_ESC_RM_ALLOC_MEMORY {
        Some(48)
    } else {
        None
    }
}

/// Where such a structure has its pointer.
pub const NESTED_PTR_OFFSET: usize = 16;

/// The handle that a 32-bit signed field stands for: the field is extended with its sign.
pub open spec fn sign_extended(x: u32) -> u64 {
    if x < 0x8000_0000 {
        x as u64
    } else {
        (x + 0xFFFF_FFFF_0000_0000) as u64
    }
}

/// An ioctl with a descriptor at `fd_offset`: the guest's handle is replaced by the host's
/// descriptor.
pub open spec fn decide_fd_carrying(
    fds: Map<u64, i32>,
    cookie: u64,
    fd: i32,
    request: u64,
    params: Seq<u8>,
    fd_offset: usize,
    cap: nat,
) -> Decision {
    if params.len() < fd_offset + 4 {
        Decision::Reply(error_reply(cap, Status::IoctlFailed, cookie, EINVAL))
    } else {
        let guest = u32_at(params, fd_offset as int);
        if !fds.contains_key(guest as u64) {
            Decision::Reply(error_reply(cap, Status::BadHandle, cookie, 0))
        } else {
            let embedded = fds[guest as u64];
            Decision::Ioctl(
                IoctlCallView {
                    cookie,
                    fd,
                    request,
                    params: overlay(params, fd_offset as int, le32(bits_of(embedded))),
                    nested: Seq::empty(),
                    plan: IoctlPlan::FdCarrying { fd_offset, guest },
                },
            )
        }
    }
}

/// NV_ESC_RM_MAP_MEMORY: the guest's handle at byte 48 is replaced by the host's descriptor.
pub open spec fn decide_map_memory(
    fds: Map<u64, i32>,
    cookie: u64,
    fd: i32,
    request: u64,
    params: Seq<u8>,
    cap: nat,
) -> Decision {
    if params.len() < 56 {
        Decision::Reply(error_reply(cap, Status::IoctlFailed, cookie, EINVAL))
    } else {
        let guest = u32_at(params, 48);
        if !fds.contains_key(sign_extended(guest)) {
            Decision::Reply(error_reply(cap, Status::BadHandle, cookie, 0))
        } else {
            let map_fd = fds[sign_extended(guest)];
            Decision::Ioctl(
                IoctlCallView {
                    cookie,
                    fd,
                    request,
                    params: overlay(params, 48, le32(bits_of(map_fd))),
                    nested: Seq::empty(),
                    plan: IoctlPlan::MapMemory { map_fd, guest },
                },
            )
        }
    }
}

/// Control command that exports an object to a descriptor.
pub const CMD_EXPORT_OBJECT_TO_FD: u32 = 0x3d05;

/// Control command that imports an object from a descriptor.
pub const CMD_IMPORT_OBJECT_FROM_FD: u32 = 0x3d06;

/// Where in the nested parameters the guest's handle stands, if there is one: only control
/// commands that export or import an object have one.
pub open spec fn nested_handle_place(request: u64, outer: Seq<u8>, nested: Seq<u8>) -> Option<
    usize,
> {
    if low_byte(request) != NV_ESC_RM_CONTROL || outer.len() < 12 {
        None
    } else if u32_at(outer, 8) == CMD_EXPORT_OBJECT_TO_FD && nested.len() >= 20 {
        Some(16)
    } else if u32_at(outer, 8) == CMD_IMPORT_OBJECT_FROM_FD && nested.len() >= 4 {
        Some(0)
    } else {
        None
    }
}

/// An ioctl with nested parameters: the first `outer_size` bytes are its argument, the rest are
/// what the pointer at `ptr_offset` has to lead to.
pub open spec fn decide_nested(
    fds: Map<u64, i32>,
    cookie: u64,
    fd: i32,
    request: u64,
    params: Seq<u8>,
    outer_size: usize,
    ptr_offset: usize,
    cap: nat,
) -> Decision {
    if params.len() < outer_size {
        Decision::Reply(error_reply(cap, Status::IoctlFailed, cookie, EINVAL))
    } else {
        let outer = params.take(outer_size as int);
        let nested = params.skip(outer_size as int);
        let call = IoctlCallView {
            cookie,
            fd,
            request,
            params: outer,
            nested,
            plan: IoctlPlan::Nested { ptr_offset, saved: None },
        };
        match nested_handle_place(request, outer, nested) {
            None => Decision::Ioctl(call),
            Some(place) => {
                let guest = u32_at(nested, place as int);
                if !fds.contains_key(sign_extended(guest)) {
                    Decision::Reply(error_reply(cap, Status::BadHandle, cookie, 0))
                } else {
                    let real_fd = fds[sign_extended(guest)];
                    Decision::Ioctl(
                        IoctlCallView {
                            nested: overlay(nested, place as int, le32(bits_of(real_fd))),
                            plan: IoctlPlan::Nested { ptr_offset, saved: Some((place, guest)) },
                            ..call
                        },
                    )
                }
            },
        }
    }
}

/// IOCTL: the escape says how the parameters reach the host.
pub open spec fn decide_ioctl(
    fds: Map<u64, i32>,
    cookie: u64,
    payload: Seq<u8>,
    cap: nat,
) -> Decision {
    if payload.len() < 24 {
        Decision::Reply(error_reply(cap, Status::InvalidMsgType, cookie, 0))
    } else {
        let req = IoctlReq::at(payload, 0);
        let params = payload.subrange(24, 24 + req.param_size);
        let escape = low_byte(req.request);
        if !fds.contains_key(req.guest_handle) {
            Decision::Reply(error_reply(cap, Status::BadHandle, cookie, 0))
        } else {
            let fd = fds[req.guest_handle];
            if fd_place(escape) is Some {
                decide_fd_carrying(
                    fds,
                    cookie,
                    fd,
                    req.request,
                    params,
                    fd_place(escape)->0,
                    cap,
                )
            } else if escape == NV_ESC_RM_MAP_MEMORY {
                decide_map_memory(fds, cookie, fd, req.request, params, cap)
            } else if outer_size_of(escape) is Some {
                decide_nested(
                    fds,
                    cookie,
                    fd,
                    req.request,
                    params,
                    outer_size_of(escape)->0,
                    NESTED_PTR_OFFSET,
                    cap,
                )
            } else {
                Decision::Ioctl(
                    IoctlCallView {
                        cookie,
                        fd,
                        request: req.request,
                        params,
                        nested: Seq::empty(),
                        plan: IoctlPlan::Simple,
                    },
                )
            }
        }
    }
}

/// What a request calls for, with the handles `fds` open and `cap` bytes for the response.
pub open spec fn decide(fds: Map<u64, i32>, req: Seq<u8>, cap: nat) -> Decision {
    if req.len() < 16 {
        Decision::Reply(error_reply(cap, Status::InvalidMsgType, 0, 0))
    } else {
        let hdr = MsgHeader::at(req, 0);
        let payload = req.skip(16);
        if hdr.msg_type == MsgType::Open.spec_code() {
            decide_open(hdr.cookie, payload, cap)
        } else if hdr.msg_type == MsgType::Close.spec_code() {
            decide_close(fds, hdr.cookie, payload, cap)
        } else if hdr.msg_type == MsgType::Ioctl.spec_code() {
            decide_ioctl(fds, hdr.cookie, payload, cap)
        } else {
            Decision::Reply(error_reply(cap, Status::InvalidMsgType, hdr.cookie, 0))
        }
    }
}

/// The request holds as many bytes of parameters as it says, and the buffer can take the
/// response to a CLOSE that succeeds.
pub open spec fn dispatchable(fds: Map<u64, i32>, req: Seq<u8>, cap: nat) -> bool {
    let payload = req.skip(16);
    req.len() >= 16 ==> {
        &&& MsgHeader::at(req, 0).msg_type == MsgType::Ioctl.spec_code() && payload.len() >= 24
            ==> payload.len() >= 24 + IoctlReq::at(payload, 0).param_size
        &&& MsgHeader::at(req, 0).msg_type == MsgType::Close.spec_code() && payload.len() >= 8
            && fds.contains_key(CloseReq::at(payload, 0).guest_handle) ==> cap >= 24
    }
}

/// Extends a 32-bit signed field with its sign.
pub(crate) fn sign_extend(x: u32) -> (r: u64)
    ensures
        r == sign_extended(x),
{
    if x < 0x8000_0000 {
        x as u64
    } else {
        x as u64 + 0xFFFF_FFFF_0000_0000
    }
}

/// Where in the nested parameters the guest's handle stands, if there is one.
pub(crate) fn nested_handle_offset(request: u64, outer: &[u8], nested: &[u8]) -> (r: Option<usize>)
    ensures
        r == nested_handle_place(request, outer@, nested@),
        r matches Some(place) ==> place + 4 <= nested@.len(),
{
    if escape_of(request) != NV_ESC_RM_CONTROL || outer.len() < 12 {
        return None;
    }
    let cmd = read_u32(outer, 8);
    if cmd == CMD_EXPORT_OBJECT_TO_FD && nested.len() >= 20 {
        Some(16)
    } else if cmd == CMD_IMPORT_OBJECT_FROM_FD && nested.len() >= 4 {
        Some(0)
    } else {
        None
    }
}

} // verus!
