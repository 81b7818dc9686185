//! What holds of the backend, whatever the guest asks for and the host answers.

use vstd::prelude::*;

use crate::abi::ioctl::{low_byte, NV_ESC_RM_CONTROL};
use crate::bytes::{bits_of, group_field_lengths, le32, u32_at, zeros};
use crate::errno::EINVAL;
use crate::handle_table::HandleTable;
use crate::nvidia::call::IoctlCallView;
use crate::nvidia::decide::{
    decide, decide_fd_carrying, decide_map_memory, decide_nested, dispatchable, nested_handle_place,
    sign_extended, Decision, CMD_EXPORT_OBJECT_TO_FD, CMD_IMPORT_OBJECT_FROM_FD, NESTED_PTR_OFFSET,
};
use crate::nvidia::backend::shm_after;
use crate::nvidia::reply::{error_reply, header_of_error, header_of_ok};
use crate::protocol::{CloseReq, IoctlReq, MsgHeader, MsgType, RespHeader, Status};
use crate::shm::{
    allocation_moves_forward, follows, region_lies_in_its_zone, regions_are_disjoint, ShmAllocator,
    PAGE,
};

verus! {

broadcast use group_field_lengths;

/// Every response that fits starts with a header that holds the cookie of the request.
pub proof fn replies_carry_the_cookie(fds: Map<u64, i32>, req: Seq<u8>, cap: nat)
    requires
        cap >= 16,
        req.len() >= 16,
    ensures
        ({
            let cookie = MsgHeader::at(req, 0).cookie;
            match decide(fds, req, cap) {
                Decision::Reply(reply) => reply.len() >= 16 && RespHeader::at(reply, 0).cookie
                    == cookie,
                Decision::Close { handle, reply } => reply.len() >= 16 && RespHeader::at(
                    reply,
                    0,
                ).cookie == cookie,
                Decision::Open { cookie: c, path } => c == cookie,
                Decision::Ioctl(call) => call.cookie == cookie,
            }
        }),
{
    let cookie = MsgHeader::at(req, 0).cookie;
    header_of_error(cap, Status::InvalidMsgType, cookie, 0);
    header_of_error(cap, Status::InvalidDevice, cookie, 0);
    header_of_error(cap, Status::BadHandle, cookie, 0);
    header_of_error(cap, Status::IoctlFailed, cookie, EINVAL);
    header_of_ok(cookie, zeros(8));
}

/// Whatever the host writes, the guest finds its own handle again where it put it, and all other
/// bytes as the host left them: descriptors of the host do not reach the guest this way.
pub proof fn embedded_handle_comes_back(
    fds: Map<u64, i32>,
    cookie: u64,
    fd: i32,
    request: u64,
    params: Seq<u8>,
    fd_offset: usize,
    cap: nat,
    call: IoctlCallView,
    after: IoctlCallView,
)
    requires
        decide_fd_carrying(fds, cookie, fd, request, params, fd_offset, cap) == Decision::Ioctl(
            call,
        ),
        call.served(after),
    ensures
        after.returned().len() == params.len(),
        after.returned().subrange(fd_offset as int, fd_offset + 4) == params.subrange(
            fd_offset as int,
            fd_offset + 4,
        ),
        forall|i: int|
            0 <= i < params.len() && !(fd_offset <= i < fd_offset + 4) ==> after.returned()[i]
                == after.params[i],
{
    crate::bytes::u32_at_round_trip(params, fd_offset as int);
    assert(after.returned().subrange(fd_offset as int, fd_offset + 4) =~= le32(
        u32_at(params, fd_offset as int),
    ));
}

/// The same of NV_ESC_RM_MAP_MEMORY.
pub proof fn map_handle_comes_back(
    fds: Map<u64, i32>,
    cookie: u64,
    fd: i32,
    request: u64,
    params: Seq<u8>,
    cap: nat,
    call: IoctlCallView,
    after: IoctlCallView,
)
    requires
        decide_map_memory(fds, cookie, fd, request, params, cap) == Decision::Ioctl(call),
        call.served(after),
    ensures
        after.returned().len() == params.len(),
        after.returned().subrange(48, 52) == params.subrange(48, 52),
        forall|i: int|
            0 <= i < params.len() && !(48 <= i < 52) ==> after.returned()[i] == after.params[i],
{
    crate::bytes::u32_at_round_trip(params, 48);
    assert(after.returned().subrange(48, 52) =~= le32(u32_at(params, 48)));
}

/// Whatever the host writes and wherever its buffer is, the guest finds zero in place of the
/// pointer, its own handle, if it was translated, where it put it, and all other bytes as the
/// host left them: neither addresses nor descriptors of the host reach the guest this way.
pub proof fn nested_pointer_stays_hidden(
    fds: Map<u64, i32>,
    cookie: u64,
    fd: i32,
    request: u64,
    params: Seq<u8>,
    outer_size: usize,
    ptr_offset: usize,
    cap: nat,
    call: IoctlCallView,
    addr: u64,
    after: IoctlCallView,
)
    requires
        ptr_offset + 8 <= outer_size,
        decide_nested(fds, cookie, fd, request, params, outer_size, ptr_offset, cap)
            == Decision::Ioctl(call),
        call.pointed_at(addr).served(after),
    ensures
        after.returned().len() == params.len(),
        after.returned().subrange(ptr_offset as int, ptr_offset + 8) == zeros(8),
        match nested_handle_place(
            request,
            params.take(outer_size as int),
            params.skip(outer_size as int),
        ) {
            Some(place) => {
                &&& after.returned().subrange(outer_size + place, outer_size + place + 4)
                    == params.subrange(outer_size + place, outer_size + place + 4)
                &&& forall|i: int|
                    0 <= i < after.nested.len() && !(place <= i < place + 4)
                        ==> after.returned()[outer_size + i] == #[trigger] after.nested[i]
            },
            None => after.returned().skip(outer_size as int) == after.nested,
        },
        forall|i: int|
            0 <= i < outer_size && !(ptr_offset <= i < ptr_offset + 8) ==> after.returned()[i]
                == after.params[i],
{
    let outer = params.take(outer_size as int);
    let nested = params.skip(outer_size as int);
    let back = after.returned();
    assert(back.subrange(ptr_offset as int, ptr_offset + 8) =~= zeros(8));
    match nested_handle_place(request, outer, nested) {
        Some(place) => {
            crate::bytes::u32_at_round_trip(nested, place as int);
            assert(back.subrange(outer_size + place, outer_size + place + 4) =~= le32(
                u32_at(nested, place as int),
            ));
            assert(nested.subrange(place as int, place + 4) =~= params.subrange(
                outer_size + place,
                outer_size + place + 4,
            ));
        },
        None => {
            assert(back.skip(outer_size as int) =~= after.nested);
        },
    }
}

/// Where a control command with this number has the guest's handle, in its nested parameters.
pub open spec fn control_handle_place(cmd: u32) -> Option<int> {
    if cmd == CMD_EXPORT_OBJECT_TO_FD {
        Some(16)
    } else if cmd == CMD_IMPORT_OBJECT_FROM_FD {
        Some(0)
    } else {
        None
    }
}

/// Control commands that export an object to a descriptor, or import one from it, name the
/// descriptor by a guest handle.  If that is not open, the guest is answered BadHandle and the
/// host does nothing; otherwise the host finds its own descriptor there, and the guest, whatever
/// the host writes, its own handle.
pub proof fn control_handles_are_translated(
    fds: Map<u64, i32>,
    req: Seq<u8>,
    cap: nat,
    addr: u64,
    after: IoctlCallView,
)
    requires
        dispatchable(fds, req, cap),
        req.len() >= 40,
        MsgHeader::at(req, 0).msg_type == MsgType::Ioctl.spec_code(),
        fds.contains_key(IoctlReq::at(req.skip(16), 0).guest_handle),
        low_byte(IoctlReq::at(req.skip(16), 0).request) == NV_ESC_RM_CONTROL,
        IoctlReq::at(req.skip(16), 0).param_size >= 32,
        control_handle_place(u32_at(req, 48)) is Some,
        IoctlReq::at(req.skip(16), 0).param_size >= 32 + control_handle_place(
            u32_at(req, 48),
        )->0 + 4,
    ensures
        ({
            // The guest's word in the request: header, payload, outer structure, nested place.
            let place = control_handle_place(u32_at(req, 48))->0;
            let at = 40 + 32 + place;
            let handle = sign_extended(u32_at(req, at));
            let cookie = MsgHeader::at(req, 0).cookie;
            if !fds.contains_key(handle) {
                decide(fds, req, cap) == Decision::Reply(
                    error_reply(cap, Status::BadHandle, cookie, 0),
                )
            } else {
                &&& decide(fds, req, cap) is Ioctl
                &&& {
                    let call = decide(fds, req, cap)->Ioctl_0;
                    &&& call.nested.subrange(place, place + 4) == le32(bits_of(fds[handle]))
                    &&& call.pointed_at(addr).served(after) ==> after.returned().subrange(
                        32 + place,
                        32 + place + 4,
                    ) == req.subrange(at, at + 4)
                }
            }
        }),
{
    let payload = req.skip(16);
    let r = IoctlReq::at(payload, 0);
    let params = payload.subrange(24, 24 + r.param_size);
    let outer = params.take(32);
    let nested = params.skip(32);
    let cookie = MsgHeader::at(req, 0).cookie;
    let fd = fds[r.guest_handle];
    let place = control_handle_place(u32_at(req, 48))->0;
    let at = 72 + place;
    assert(u32_at(outer, 8) == u32_at(req, 48)) by {
        reveal(u32_at);
    }
    assert(u32_at(nested, place) == u32_at(req, at)) by {
        reveal(u32_at);
    }
    assert(nested_handle_place(r.request, outer, nested) == Some(place as usize));
    let d = decide_nested(fds, cookie, fd, r.request, params, 32, NESTED_PTR_OFFSET, cap);
    assert(decide(fds, req, cap) == d);
    let handle = sign_extended(u32_at(req, at));
    if fds.contains_key(handle) {
        let call = d->Ioctl_0;
        assert(call.nested.subrange(place, place + 4) =~= le32(bits_of(fds[handle])));
        if call.pointed_at(addr).served(after) {
            nested_pointer_stays_hidden(
                fds,
                cookie,
                fd,
                r.request,
                params,
                32,
                NESTED_PTR_OFFSET,
                cap,
                call,
                addr,
                after,
            );
            assert(params.subrange(32 + place, 32 + place + 4) =~= req.subrange(at, at + 4));
        }
    }
}

/// Closing the handle of a file that was just opened leaves the handles as they were before.
pub proof fn open_then_close_is_nothing(
    before: HandleTable,
    opened: HandleTable,
    closed: HandleTable,
    fd: i32,
    req: Seq<u8>,
    cap: nat,
)
    requires
        before.wf(),
        opened.fds() == before.fds().insert(before.next_handle(), fd),
        req.len() >= 24,
        MsgHeader::at(req, 0).msg_type == MsgType::Close.spec_code(),
        CloseReq::at(req.skip(16), 0).guest_handle == before.next_handle(),
        decide(opened.fds(), req, cap) matches Decision::Close { handle, reply } ==> closed.fds()
            == opened.fds().remove(handle),
    ensures
        closed.fds() == before.fds(),
{
    assert(closed.fds() =~= before.fds());
}

/// An ioctl that reaches the host is the request that the guest sent, and goes to the file behind
/// the handle that it named.
pub proof fn ioctls_go_to_open_files(fds: Map<u64, i32>, req: Seq<u8>, cap: nat)
    ensures
        decide(fds, req, cap) matches Decision::Ioctl(call) ==> {
            let r = IoctlReq::at(req.skip(16), 0);
            &&& fds.contains_key(r.guest_handle)
            &&& call.fd == fds[r.guest_handle]
            &&& call.request == r.request
        },
{
}

/// Once no handle is open, whatever a guest asks for on a handle is answered with BadHandle.
pub proof fn nothing_works_without_handles(req: Seq<u8>, cap: nat)
    requires
        req.len() >= 16,
        MsgHeader::at(req, 0).msg_type == MsgType::Close.spec_code() || (MsgHeader::at(
            req,
            0,
        ).msg_type == MsgType::Ioctl.spec_code() && req.len() >= 40),
    ensures
        decide(Map::<u64, i32>::empty(), req, cap) == Decision::Reply(
            error_reply(cap, Status::BadHandle, MsgHeader::at(req, 0).cookie, 0),
        ),
{
}

/// Whatever the host writes to the buffers of an ioctl, its outcome can still be taken.
pub proof fn served_calls_stay_well_formed(call: IoctlCallView, after: IoctlCallView)
    requires
        call.wf(),
        call.served(after),
    ensures
        after.wf(),
        after.returned().len() == call.params.len() + call.nested.len(),
{
}

/// What is mapped for the guest lies in the window, in the zone of its caching mode, whatever
/// length the host states.
pub proof fn mappings_lie_in_the_window(shm: ShmAllocator, call: IoctlCallView)
    requires
        shm.wf(),
        call.wants_map(),
        shm.granted(call.map_length(), call.map_pgprot()) is Ok,
    ensures
        ({
            let region = shm.granted(call.map_length(), call.map_pgprot())->Ok_0;
            let zone = shm.zone(call.map_pgprot());
            &&& zone.base <= region.offset
            &&& region.offset + call.map_length() <= zone.base + zone.size <= shm.total_size
            &&& region.offset % PAGE == 0
        }),
{
    region_lies_in_its_zone(shm, call.map_length(), call.map_pgprot());
}

/// Two mappings that the guest is told of, with any ioctls between them, share no page of the
/// window.
pub proof fn mappings_are_disjoint(
    shm: ShmAllocator,
    first: IoctlCallView,
    later: ShmAllocator,
    second: IoctlCallView,
)
    requires
        shm.wf(),
        later.wf(),
        shm.granted(first.map_length(), first.map_pgprot()) is Ok,
        later.granted(second.map_length(), second.map_pgprot()) is Ok,
        first.wants_map(),
        follows(shm_after(shm, first, Ok(())), later),
    ensures
        ({
            let a = shm.granted(first.map_length(), first.map_pgprot())->Ok_0;
            let b = later.granted(second.map_length(), second.map_pgprot())->Ok_0;
            ||| a.offset + first.map_length() <= b.offset
            ||| b.offset + second.map_length() <= a.offset
        }),
{
    regions_are_disjoint(
        shm,
        first.map_length(),
        first.map_pgprot(),
        later,
        second.map_length(),
        second.map_pgprot(),
    );
    region_lies_in_its_zone(shm, first.map_length(), first.map_pgprot());
    region_lies_in_its_zone(later, second.map_length(), second.map_pgprot());
}

/// An ioctl only ever takes room from the window.
pub proof fn window_only_fills(
    shm: ShmAllocator,
    call: IoctlCallView,
    outcome: Result<(), i32>,
)
    requires
        shm.wf(),
        call.map_measurable(shm),
    ensures
        follows(shm, shm_after(shm, call, outcome)),
{
    if outcome is Ok && call.wants_map() {
        allocation_moves_forward(shm, call.map_length(), call.map_pgprot());
    }
}

} // verus!
