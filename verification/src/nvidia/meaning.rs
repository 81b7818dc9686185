//! What the bytes of a request ask for, and what the bytes of a response tell.
//!
//! The laws here speak of bytes and numbers alone: of where in a request something stands, of what
//! the host gets, and of where in a response the guest finds it.

use vstd::prelude::*;

use crate::bytes::{
    bits_of, field_of_part, group_field_lengths, le32, le64, overlay, signed, signed_round_trip,
    u32_at, u32_at_round_trip, u32_field, u64_at, u64_field, zeros,
};
use crate::nvidia::backend::{shm_after, Completion};
use crate::nvidia::call::{pgprot_of, IoctlCallView};
use crate::nvidia::decide::{decide, dispatchable, Decision, Dispatch};
use crate::nvidia::reply::{answered, error_reply, ioctl_reply, ok_reply, Placement};
use crate::protocol::{RespHeader, Status};
use crate::shm::{PgprotKind, ShmAllocator, Zone};
use crate::text::dec;

verus! {

broadcast use group_field_lengths;

/// The response starts with this status, error number and cookie: four bytes, four and eight.
pub open spec fn starts_with_header(r: Seq<u8>, status: int, errno: int, cookie: u64) -> bool {
    &&& r.len() >= 16
    &&& u32_at(r, 0) == status
    &&& signed(u32_at(r, 4)) == errno
    &&& u64_at(r, 8) == cookie
}

/// The request is answered with an error and nothing else happens.
pub open spec fn only_refuses(d: Decision, status: int, errno: int, cookie: u64) -> bool {
    d matches Decision::Reply(r) && r.len() == 16 && starts_with_header(r, status, errno, cookie)
}

/// The bytes of a header are where they belong.
proof fn header_bytes(status: u32, errno: i32, cookie: u64, rest: Seq<u8>)
    ensures
        ({
            let w = RespHeader { status, errno_host: errno, cookie }.wire();
            &&& w.len() == 16
            &&& starts_with_header(w + rest, status as int, errno as int, cookie)
            &&& starts_with_header(w, status as int, errno as int, cookie)
        }),
{
    let w = RespHeader { status, errno_host: errno, cookie }.wire();
    signed_round_trip(errno, 0);
    assert(w.subrange(0, 4) =~= le32(status));
    assert(w.subrange(4, 8) =~= le32(bits_of(errno)));
    assert(w.subrange(8, 16) =~= le64(cookie));
    u32_field(w, 0, status);
    u32_field(w, 4, bits_of(errno));
    u64_field(w, 8, cookie);
    let v = w + rest;
    assert(v.subrange(0, 16) =~= w);
    field_of_part(v, 0, 16, 0);
    field_of_part(v, 0, 16, 4);
    field_of_part(v, 0, 16, 8);
}

/// An error is answered with sixteen bytes: its status, the host's error number and the cookie.
/// Less room than that is left untouched.
pub proof fn errors_are_sixteen_bytes(cap: nat, status: Status, cookie: u64, errno: i32)
    ensures
        cap >= 16 ==> {
            let r = error_reply(cap, status, cookie, errno);
            &&& r.len() == 16
            &&& starts_with_header(r, status.spec_code() as int, errno as int, cookie)
        },
        cap < 16 ==> error_reply(cap, status, cookie, errno).len() == 0,
{
    header_bytes(status.spec_code(), errno, cookie, Seq::empty());
}

/// Statuses are told apart by their numbers.
pub proof fn statuses_have_numbers()
    ensures
        Status::Success.spec_code() == 0,
        Status::InvalidMsgType.spec_code() == 1,
        Status::InvalidDevice.spec_code() == 2,
        Status::OpenFailed.spec_code() == 3,
        Status::BadHandle.spec_code() == 4,
        Status::IoctlFailed.spec_code() == 5,
        Status::BufferTooSmall.spec_code() == 6,
{
}

/// A response is written to the start of the buffer, the returned number is its length, and the
/// bytes after it are not touched.
pub proof fn answers_go_to_the_start(
    before: Seq<u8>,
    after: Seq<u8>,
    n: usize,
    reply: Seq<u8>,
    i: int,
)
    requires
        answered(before, after, n, reply),
        reply.len() <= before.len(),
        0 <= i < before.len(),
    ensures
        n == reply.len(),
        after.len() == before.len(),
        i < n ==> after[i] == reply[i],
        i >= n ==> after[i] == before[i],
{
}

/// A success is answered with status zero, error number zero and the cookie, and then exactly the
/// payload.
pub proof fn successes_carry_the_payload(cookie: u64, payload: Seq<u8>)
    ensures
        ({
            let r = ok_reply(cookie, payload);
            &&& r.len() == 16 + payload.len()
            &&& starts_with_header(r, 0, 0, cookie)
            &&& r.subrange(16, r.len() as int) == payload
        }),
{
    header_bytes(0, 0, cookie, payload);
    let r = ok_reply(cookie, payload);
    assert(r.subrange(16, r.len() as int) =~= payload);
}

/// The answer to an ioctl: the header, the number of parameter bytes at byte 16, offset, length
/// and caching mode of the mapping at bytes 24, 32 and 40, and from byte 48 on the parameters.
/// Where that does not fit, the status says so.
pub proof fn ioctl_answers_have_a_layout(
    cap: nat,
    cookie: u64,
    params: Seq<u8>,
    placement: Placement,
)
    requires
        params.len() < 0x1_0000_0000,
        cap >= 16,
    ensures
        ({
            let r = ioctl_reply(cap, cookie, params, placement);
            if cap < 48 + params.len() {
                r.len() == 16 && starts_with_header(r, 6, 0, cookie)
            } else {
                &&& r.len() == 48 + params.len()
                &&& starts_with_header(r, 0, 0, cookie)
                &&& u32_at(r, 16) == params.len()
                &&& u32_at(r, 20) == 0
                &&& u64_at(r, 24) == placement.offset
                &&& u64_at(r, 32) == placement.length
                &&& r[40] == placement.pgprot
                &&& forall|i: int| 41 <= i < 48 ==> r[i] == 0
                &&& r.subrange(48, r.len() as int) == params
            }
        }),
{
    let r = ioctl_reply(cap, cookie, params, placement);
    if cap < 48 + params.len() {
        header_bytes(6, 0, cookie, Seq::empty());
    } else {
        let n = params.len() as u32;
        let payload = r.subrange(16, r.len() as int);
        let w = le32(n) + zeros(4) + le64(placement.offset) + le64(placement.length)
            + seq![placement.pgprot] + zeros(7);
        header_bytes(0, 0, cookie, w + params);
        crate::bytes::zero_fields();
        assert(r.subrange(16, 20) =~= le32(n));
        assert(r.subrange(20, 24) =~= le32(0));
        assert(r.subrange(24, 32) =~= le64(placement.offset));
        assert(r.subrange(32, 40) =~= le64(placement.length));
        u32_field(r, 16, n);
        u32_field(r, 20, 0);
        u64_field(r, 24, placement.offset);
        u64_field(r, 32, placement.length);
        assert(r.subrange(48, r.len() as int) =~= params);
    }
}

// Requests.

/// The bytes that a request's fields are read from.
proof fn fields_after_the_header(req: Seq<u8>)
    requires
        req.len() >= 40,
    ensures
        u64_at(req.skip(16), 0) == u64_at(req, 16),
        u64_at(req.skip(16), 8) == u64_at(req, 24),
        u32_at(req.skip(16), 16) == u32_at(req, 32),
{
    let n = req.len() as int;
    assert(req.skip(16) =~= req.subrange(16, n));
    field_of_part(req, 16, n, 0);
    field_of_part(req, 16, n, 8);
    field_of_part(req, 16, n, 16);
}

/// A request that is too short for a header, or of an unknown type, is refused with status 1.
pub proof fn unknown_requests_are_refused(fds: Map<u64, i32>, req: Seq<u8>, cap: nat)
    requires
        cap >= 16,
        req.len() < 16 || u32_at(req, 0) == 0 || u32_at(req, 0) > 3,
    ensures
        only_refuses(
            decide(fds, req, cap),
            1,
            0,
            if req.len() < 16 {
                0
            } else {
                u64_at(req, 8)
            },
        ),
{
    header_bytes(1, 0, 0, Seq::empty());
    header_bytes(1, 0, u64_at(req, 8), Seq::empty());
}

/// OPEN (type 1) opens the file of the device whose kind is byte 16: kind 0 is the control device,
/// kind 1 the GPU whose number, below 8, is byte 17, kind 2 unified memory, kind 3 mode setting.
/// Everything else is refused with status 2.
pub proof fn open_opens_the_device_asked_for(fds: Map<u64, i32>, req: Seq<u8>, cap: nat)
    requires
        cap >= 16,
        req.len() >= 16,
        u32_at(req, 0) == 1,
    ensures
        ({
            let d = decide(fds, req, cap);
            let cookie = u64_at(req, 8);
            if req.len() < 24 || req[16] > 3 || (req[16] == 1 && req[17] >= 8) {
                only_refuses(d, 2, 0, cookie)
            } else {
                &&& d is Open
                &&& d->Open_cookie == cookie
                &&& req[16] == 0 ==> d->path == "/dev/nvidiactl"@
                &&& req[16] == 1 ==> {
                    &&& d->path.len() == 12
                    &&& d->path.take(11) == "/dev/nvidia"@
                    &&& d->path[11] as int == '0' as int + req[17]
                }
                &&& req[16] == 2 ==> d->path == "/dev/nvidia-uvm"@
                &&& req[16] == 3 ==> d->path == "/dev/nvidia-modeset"@
            }
        }),
{
    header_bytes(2, 0, u64_at(req, 8), Seq::empty());
    if req.len() >= 24 {
        assert(req.skip(16)[0] == req[16]);
        assert(req.skip(16)[1] == req[17]);
        reveal_strlit("/dev/nvidia");
        if req[16] == 1 && req[17] < 8 {
            let n = req[17] as nat;
            assert(dec(n).len() == 1);
            let path = "/dev/nvidia"@ + dec(n);
            assert(path.take(11) =~= "/dev/nvidia"@);
            assert(path[11] == dec(n)[0]);
        }
    }
}

/// CLOSE (type 2) closes the handle that is the eight bytes from byte 16 on, if it is open: the
/// response is then status zero and eight zero bytes.  Otherwise it is refused with status 4.
pub proof fn close_closes_the_handle_asked_for(fds: Map<u64, i32>, req: Seq<u8>, cap: nat)
    requires
        cap >= 24,
        req.len() >= 16,
        u32_at(req, 0) == 2,
    ensures
        ({
            let d = decide(fds, req, cap);
            let cookie = u64_at(req, 8);
            if req.len() >= 24 && fds.contains_key(u64_at(req, 16)) {
                &&& d is Close
                &&& d->handle == u64_at(req, 16)
                &&& d->Close_reply.len() == 24
                &&& starts_with_header(d->Close_reply, 0, 0, cookie)
                &&& forall|i: int| 16 <= i < 24 ==> d->Close_reply[i] == 0
            } else {
                only_refuses(d, 4, 0, cookie)
            }
        }),
{
    let cookie = u64_at(req, 8);
    header_bytes(4, 0, cookie, Seq::empty());
    header_bytes(0, 0, cookie, zeros(8));
    if req.len() >= 24 {
        let n = req.len() as int;
        assert(req.skip(16) =~= req.subrange(16, n));
        field_of_part(req, 16, n, 0);
    }
}

/// The host closes the descriptor of that handle.
pub proof fn close_closes_its_descriptor(
    r: Dispatch,
    fds: Map<u64, i32>,
    req: Seq<u8>,
    before: Seq<u8>,
    after: Seq<u8>,
)
    requires
        before.len() >= 24,
        req.len() >= 24,
        u32_at(req, 0) == 2,
        fds.contains_key(u64_at(req, 16)),
        r.carries_out(decide(fds, req, before.len()), fds, before, after),
    ensures
        r matches Dispatch::Close { fd, written } && fd == fds[u64_at(req, 16)] && written == 24
            && starts_with_header(after, 0, 0, u64_at(req, 8)),
{
    close_closes_the_handle_asked_for(fds, req, before.len());
    let reply = decide(fds, req, before.len())->Close_reply;
    assert(after.subrange(0, 16) =~= reply.subrange(0, 16));
    field_of_part(after, 0, 16, 0);
    field_of_part(after, 0, 16, 4);
    field_of_part(after, 0, 16, 8);
    field_of_part(reply, 0, 16, 0);
    field_of_part(reply, 0, 16, 4);
    field_of_part(reply, 0, 16, 8);
}

/// Which requests can be dispatched: an IOCTL (type 3) holds the parameter bytes that it states at
/// byte 32, and there is room for 24 bytes where a CLOSE (type 2) succeeds.  All others can.
pub proof fn dispatchable_requests(fds: Map<u64, i32>, req: Seq<u8>, cap: nat)
    ensures
        dispatchable(fds, req, cap) <==> {
            &&& req.len() >= 40 && u32_at(req, 0) == 3 ==> req.len() >= 40 + u32_at(req, 32)
            &&& req.len() >= 24 && u32_at(req, 0) == 2 && fds.contains_key(u64_at(req, 16))
                ==> cap >= 24
        },
{
    let n = req.len() as int;
    if n >= 16 {
        assert(req.skip(16) =~= req.subrange(16, n));
        field_of_part(req, 16, n, 0);
        field_of_part(req, 16, n, 16);
    }
}

/// An IOCTL request (type 3) on an open handle: the handle is at byte 16, the request at byte 24,
/// the number of parameter bytes at byte 32, and the parameters start at byte 40.
pub open spec fn is_ioctl(fds: Map<u64, i32>, req: Seq<u8>) -> bool {
    &&& req.len() >= 40
    &&& u32_at(req, 0) == 3
    &&& req.len() >= 40 + u32_at(req, 32)
    &&& fds.contains_key(u64_at(req, 16))
}

/// The host makes the guest's request on the file of the guest's handle.
pub open spec fn forwards(d: Decision, fds: Map<u64, i32>, req: Seq<u8>) -> bool {
    d matches Decision::Ioctl(call) && call.cookie == u64_at(req, 8) && call.fd == fds[u64_at(
        req,
        16,
    )] && call.request == u64_at(req, 24)
}

/// An IOCTL that is too short is refused with status 1, one on a handle that is not open with
/// status 4.
pub proof fn ioctls_need_an_open_handle(fds: Map<u64, i32>, req: Seq<u8>, cap: nat)
    requires
        cap >= 16,
        req.len() >= 16,
        u32_at(req, 0) == 3,
    ensures
        req.len() < 40 ==> only_refuses(decide(fds, req, cap), 1, 0, u64_at(req, 8)),
        req.len() >= 40 && !fds.contains_key(u64_at(req, 16)) ==> only_refuses(
            decide(fds, req, cap),
            4,
            0,
            u64_at(req, 8),
        ),
{
    header_bytes(1, 0, u64_at(req, 8), Seq::empty());
    header_bytes(4, 0, u64_at(req, 8), Seq::empty());
    if req.len() >= 40 {
        fields_after_the_header(req);
    }
}

/// Ioctls that carry a descriptor: number 0x2A has the guest's handle at byte 0 of its parameters,
/// 0x2C and 0x2D have it at byte 8.  Too few parameters are refused with error number 22, a handle
/// that is not open with status 4.  Otherwise the host finds its own descriptor there and all other
/// bytes as the guest sent them.
pub proof fn carried_handles_are_translated(fds: Map<u64, i32>, req: Seq<u8>, cap: nat, at: int)
    requires
        cap >= 16,
        is_ioctl(fds, req),
        (u64_at(req, 24) % 256 == 0x2A && at == 0) || (u64_at(req, 24) % 256 == 0x2C && at == 8)
            || (u64_at(req, 24) % 256 == 0x2D && at == 8),
    ensures
        ({
            let d = decide(fds, req, cap);
            let n = u32_at(req, 32);
            let cookie = u64_at(req, 8);
            if n < at + 4 {
                only_refuses(d, 5, 22, cookie)
            } else if !fds.contains_key(u32_at(req, 40 + at) as u64) {
                only_refuses(d, 4, 0, cookie)
            } else {
                let params = d->Ioctl_0.params;
                &&& forwards(d, fds, req)
                &&& params.len() == n
                &&& signed(u32_at(params, at)) == fds[u32_at(req, 40 + at) as u64]
                &&& forall|i: int|
                    0 <= i < n && !(at <= i < at + 4) ==> params[i] == req[40 + i]
                &&& d->Ioctl_0.nested.len() == 0
            }
        }),
{
    let cookie = u64_at(req, 8);
    header_bytes(5, 22, cookie, Seq::empty());
    header_bytes(4, 0, cookie, Seq::empty());
    fields_after_the_header(req);
    let n = u32_at(req, 32);
    let sent = req.skip(16).subrange(24, 24 + n);
    assert(sent =~= req.subrange(40, 40 + n));
    if n >= at + 4 {
        field_of_part(req, 40, 40 + n, at);
        let word = u32_at(req, 40 + at);
        if fds.contains_key(word as u64) {
            let params = decide(fds, req, cap)->Ioctl_0.params;
            let bits = bits_of(fds[word as u64]);
            assert(params.subrange(at, at + 4) =~= le32(bits));
            u32_field(params, at, bits);
            signed_round_trip(fds[word as u64], 0);
        }
    }
}

/// The handle that a signed word stands for: negative words stand for the largest handles.
pub open spec fn handle_of_word(word: u32) -> u64 {
    if signed(word) >= 0 {
        signed(word) as u64
    } else {
        (signed(word) + 0x1_0000_0000_0000_0000) as u64
    }
}

/// Number 0x4E maps memory: it has at least 56 bytes of parameters, with the guest's handle of the
/// file to map at byte 48.  The host finds its own descriptor there and all other bytes as the
/// guest sent them.
pub proof fn mapped_handles_are_translated(fds: Map<u64, i32>, req: Seq<u8>, cap: nat)
    requires
        cap >= 16,
        is_ioctl(fds, req),
        u64_at(req, 24) % 256 == 0x4E,
    ensures
        ({
            let d = decide(fds, req, cap);
            let n = u32_at(req, 32);
            let cookie = u64_at(req, 8);
            let handle = handle_of_word(u32_at(req, 88));
            if n < 56 {
                only_refuses(d, 5, 22, cookie)
            } else if !fds.contains_key(handle) {
                only_refuses(d, 4, 0, cookie)
            } else {
                let params = d->Ioctl_0.params;
                &&& forwards(d, fds, req)
                &&& params.len() == n
                &&& signed(u32_at(params, 48)) == fds[handle]
                &&& forall|i: int| 0 <= i < n && !(48 <= i < 52) ==> params[i] == req[40 + i]
                &&& d->Ioctl_0.nested.len() == 0
                &&& d->Ioctl_0.plan is MapMemory
                &&& d->Ioctl_0.plan->map_fd == fds[handle]
            }
        }),
{
    let cookie = u64_at(req, 8);
    header_bytes(5, 22, cookie, Seq::empty());
    header_bytes(4, 0, cookie, Seq::empty());
    fields_after_the_header(req);
    let n = u32_at(req, 32);
    let sent = req.skip(16).subrange(24, 24 + n);
    assert(sent =~= req.subrange(40, 40 + n));
    if n >= 56 {
        field_of_part(req, 40, 40 + n, 48);
        let handle = handle_of_word(u32_at(req, 88));
        if fds.contains_key(handle) {
            let params = decide(fds, req, cap)->Ioctl_0.params;
            let bits = bits_of(fds[handle]);
            assert(params.subrange(48, 52) =~= le32(bits));
            u32_field(params, 48, bits);
            signed_round_trip(fds[handle], 0);
        }
    }
}

/// Numbers 0x54, 0x55 and 0x52 have nested parameters: the host's argument is the first 32 bytes of
/// the parameters for 0x54 and the first 48 for the others, as the guest sent them, and what
/// follows is nested.  The nested bytes are the guest's, but for one word at most.
pub proof fn nested_parameters_are_split_off(fds: Map<u64, i32>, req: Seq<u8>, cap: nat, size: int)
    requires
        cap >= 16,
        is_ioctl(fds, req),
        (u64_at(req, 24) % 256 == 0x54 && size == 32) || (u64_at(req, 24) % 256 == 0x55 && size
            == 48) || (u64_at(req, 24) % 256 == 0x52 && size == 48),
    ensures
        ({
            let d = decide(fds, req, cap);
            let n = u32_at(req, 32);
            let call = d->Ioctl_0;
            &&& n < size ==> only_refuses(d, 5, 22, u64_at(req, 8))
            &&& n >= size ==> (forwards(d, fds, req) || only_refuses(d, 4, 0, u64_at(req, 8)))
            &&& n >= size && size == 48 ==> forwards(d, fds, req)
            &&& d is Ioctl ==> {
                &&& call.params == req.subrange(40, 40 + size)
                &&& call.nested.len() == n - size
                &&& size == 48 ==> call.nested == req.subrange(40 + size, 40 + n)
            }
        }),
{
    let cookie = u64_at(req, 8);
    header_bytes(5, 22, cookie, Seq::empty());
    header_bytes(4, 0, cookie, Seq::empty());
    fields_after_the_header(req);
    let n = u32_at(req, 32);
    let sent = req.skip(16).subrange(24, 24 + n);
    if n >= size {
        assert(sent.take(size) =~= req.subrange(40, 40 + size));
        assert(sent.skip(size) =~= req.subrange(40 + size, 40 + n));
    }
}

/// What number 0x54 does with its nested bytes: command 0x3d05 has a guest's handle at nested byte
/// 16, command 0x3d06 at nested byte 0, where there are so many bytes.  All other nested bytes, and
/// those of all other commands, reach the host as the guest sent them.
pub proof fn nested_bytes_are_the_guests(fds: Map<u64, i32>, req: Seq<u8>, cap: nat)
    requires
        cap >= 16,
        is_ioctl(fds, req),
        u64_at(req, 24) % 256 == 0x54,
        u32_at(req, 32) >= 32,
    ensures
        ({
            let d = decide(fds, req, cap);
            let cmd = u32_at(req, 48);
            let n = u32_at(req, 32) - 32;
            let place = if cmd == 0x3d05 && n >= 20 {
                16
            } else if cmd == 0x3d06 && n >= 4 {
                0
            } else {
                -1
            };
            let handle = handle_of_word(u32_at(req, 72 + place));
            if place < 0 {
                forwards(d, fds, req) && d->Ioctl_0.nested == req.subrange(72, 72 + n)
            } else if !fds.contains_key(handle) {
                only_refuses(d, 4, 0, u64_at(req, 8))
            } else {
                let nested = d->Ioctl_0.nested;
                &&& forwards(d, fds, req)
                &&& nested.len() == n
                &&& signed(u32_at(nested, place)) == fds[handle]
                &&& forall|i: int|
                    0 <= i < n && !(place <= i < place + 4) ==> nested[i] == req[72 + i]
            }
        }),
{
    let cookie = u64_at(req, 8);
    header_bytes(4, 0, cookie, Seq::empty());
    fields_after_the_header(req);
    let n = u32_at(req, 32) - 32;
    let sent = req.skip(16).subrange(24, 24 + u32_at(req, 32));
    let outer = sent.take(32);
    let nested = sent.skip(32);
    assert(outer =~= req.subrange(40, 72));
    assert(nested =~= req.subrange(72, 72 + n));
    field_of_part(req, 40, 72, 8);
    field_of_part(req, 72, 72 + n, 16);
    field_of_part(req, 72, 72 + n, 0);
    let cmd = u32_at(req, 48);
    if (cmd == 0x3d05 && n >= 20) || (cmd == 0x3d06 && n >= 4) {
        let place: int = if cmd == 0x3d05 {
            16
        } else {
            0
        };
        let handle = handle_of_word(u32_at(req, 72 + place));
        if fds.contains_key(handle) {
            let got = decide(fds, req, cap)->Ioctl_0.nested;
            let bits = bits_of(fds[handle]);
            assert(got.subrange(place, place + 4) =~= le32(bits));
            u32_field(got, place, bits);
            signed_round_trip(fds[handle], 0);
        }
    }
}

/// All other ioctls reach the host with exactly the parameters that the guest sent.
pub proof fn plain_parameters_are_forwarded_verbatim(fds: Map<u64, i32>, req: Seq<u8>, cap: nat)
    requires
        is_ioctl(fds, req),
        ({
            let e = u64_at(req, 24) % 256;
            e != 0x2A && e != 0x2C && e != 0x2D && e != 0x4E && e != 0x52 && e != 0x54 && e != 0x55
        }),
    ensures
        ({
            let d = decide(fds, req, cap);
            &&& forwards(d, fds, req)
            &&& d->Ioctl_0.params == req.subrange(40, 40 + u32_at(req, 32))
            &&& d->Ioctl_0.nested.len() == 0
        }),
{
    fields_after_the_header(req);
    let n = u32_at(req, 32);
    assert(req.skip(16).subrange(24, 24 + n) =~= req.subrange(40, 40 + n));
}

/// What the host finds at byte 16 of an argument with nested parameters is their address, in eight
/// bytes; all other bytes stay.  Without nested parameters all bytes stay.
pub proof fn nested_address_is_at_byte_16(
    fds: Map<u64, i32>,
    req: Seq<u8>,
    cap: nat,
    addr: u64,
    i: int,
)
    requires
        is_ioctl(fds, req),
        ({
            let e = u64_at(req, 24) % 256;
            e == 0x52 || e == 0x54 || e == 0x55
        }),
        decide(fds, req, cap) is Ioctl,
        0 <= i < decide(fds, req, cap)->Ioctl_0.params.len(),
    ensures
        ({
            let call = decide(fds, req, cap)->Ioctl_0;
            let there = call.pointed_at(addr);
            &&& call.nested.len() > 0 ==> u64_at(there.params, 16) == addr
            &&& !(16 <= i < 24) || call.nested.len() == 0 ==> there.params[i] == call.params[i]
            &&& there == IoctlCallView { params: there.params, ..call }
            &&& there.params.len() == call.params.len()
        }),
{
    fields_after_the_header(req);
    let call = decide(fds, req, cap)->Ioctl_0;
    let there = call.pointed_at(addr);
    if call.nested.len() > 0 {
        assert(there.params.subrange(16, 24) =~= le64(addr));
        u64_field(there.params, 16, addr);
    }
}

// Outcomes.

/// An ioctl that the host refused is answered with status 5 and the host's error number; one that
/// the host served, and that maps nothing, with the parameters that go back, and no mapping.
pub proof fn ioctl_outcomes_reach_the_guest(
    r: Completion,
    shm: ShmAllocator,
    call: IoctlCallView,
    outcome: Result<(), i32>,
    before: Seq<u8>,
    after: Seq<u8>,
)
    requires
        r.settles(shm, call, outcome, before, after),
        before.len() >= 16,
        call.returned().len() < 0x1_0000_0000,
        outcome is Err || !(call.plan is MapMemory) || u32_at(call.params, 40) != 0,
    ensures
        r is Done,
        after.len() == before.len(),
        outcome matches Err(errno) ==> r->Done_0 == 16 && starts_with_header(
            after,
            5,
            errno as int,
            call.cookie,
        ),
        outcome is Ok && before.len() < 48 + call.returned().len() ==> r->Done_0 == 16
            && starts_with_header(after, 6, 0, call.cookie),
        outcome is Ok && before.len() >= 48 + call.returned().len() ==> {
            let n = call.returned().len();
            &&& r->Done_0 == 48 + n
            &&& starts_with_header(after, 0, 0, call.cookie)
            &&& u32_at(after, 16) == n
            &&& u64_at(after, 24) == 0
            &&& u64_at(after, 32) == 0
            &&& after[40] == 0
            &&& after.subrange(48, 48 + n as int) == call.returned()
        },
        forall|i: int| r->Done_0 <= i < before.len() ==> after[i] == before[i],
{
    let cap = before.len();
    let none = Placement { offset: 0, length: 0, pgprot: 0 };
    match outcome {
        Err(errno) => {
            errors_are_sixteen_bytes(cap, Status::IoctlFailed, call.cookie, errno);
            header_is_carried_over(
                before,
                after,
                error_reply(cap, Status::IoctlFailed, call.cookie, errno),
            );
        },
        Ok(_) => {
            let reply = ioctl_reply(cap, call.cookie, call.returned(), none);
            ioctl_answers_have_a_layout(cap, call.cookie, call.returned(), none);
            header_is_carried_over(before, after, reply);
            if cap >= 48 + call.returned().len() {
                let n = call.returned().len() as int;
                assert(after.subrange(48, 48 + n) =~= reply.subrange(48, 48 + n));
            }
        },
    }
}

/// What a response tells in its first 48 bytes is found in the buffer that it was written to.
proof fn header_is_carried_over(before: Seq<u8>, after: Seq<u8>, reply: Seq<u8>)
    requires
        after == overlay(before, 0, reply),
        16 <= reply.len() <= before.len(),
    ensures
        u32_at(after, 0) == u32_at(reply, 0),
        u32_at(after, 4) == u32_at(reply, 4),
        u64_at(after, 8) == u64_at(reply, 8),
        reply.len() >= 48 ==> {
            &&& u32_at(after, 16) == u32_at(reply, 16)
            &&& u64_at(after, 24) == u64_at(reply, 24)
            &&& u64_at(after, 32) == u64_at(reply, 32)
            &&& after[40] == reply[40]
        },
{
    reveal(u32_at);
    reveal(u64_at);
}

/// Parameters of plain ioctls go back as the host left them.
pub proof fn plain_parameters_come_back(
    fds: Map<u64, i32>,
    req: Seq<u8>,
    cap: nat,
    after: IoctlCallView,
)
    requires
        is_ioctl(fds, req),
        ({
            let e = u64_at(req, 24) % 256;
            e != 0x2A && e != 0x2C && e != 0x2D && e != 0x4E && e != 0x52 && e != 0x54 && e != 0x55
        }),
        decide(fds, req, cap) is Ioctl,
        decide(fds, req, cap)->Ioctl_0.served(after),
    ensures
        after.returned() == after.params,
{
    fields_after_the_header(req);
}

/// Carried handles go back as the guest sent them, all other bytes as the host left them.
pub proof fn carried_handles_come_back(
    fds: Map<u64, i32>,
    req: Seq<u8>,
    cap: nat,
    at: int,
    after: IoctlCallView,
)
    requires
        is_ioctl(fds, req),
        (u64_at(req, 24) % 256 == 0x2A && at == 0) || (u64_at(req, 24) % 256 == 0x2C && at == 8)
            || (u64_at(req, 24) % 256 == 0x2D && at == 8) || (u64_at(req, 24) % 256 == 0x4E && at
            == 48),
        decide(fds, req, cap) is Ioctl,
        decide(fds, req, cap)->Ioctl_0.served(after),
    ensures
        after.returned().len() == u32_at(req, 32),
        after.returned().subrange(at, at + 4) == req.subrange(40 + at, 44 + at),
        forall|i: int|
            0 <= i < u32_at(req, 32) && !(at <= i < at + 4) ==> after.returned()[i]
                == after.params[i],
{
    fields_after_the_header(req);
    let n = u32_at(req, 32);
    let sent = req.skip(16).subrange(24, 24 + n);
    assert(sent =~= req.subrange(40, 40 + n));
    u32_at_round_trip(sent, at);
    assert(sent.subrange(at, at + 4) =~= req.subrange(40 + at, 44 + at));
    assert(after.returned().subrange(at, at + 4) =~= le32(u32_at(sent, at)));
}

/// Nested parameters go back behind the outer ones, as the host left both, but for eight zero
/// bytes at byte 16 and a handle that was translated.
pub proof fn nested_parameters_come_back(
    fds: Map<u64, i32>,
    req: Seq<u8>,
    cap: nat,
    size: int,
    addr: u64,
    after: IoctlCallView,
)
    requires
        is_ioctl(fds, req),
        (u64_at(req, 24) % 256 == 0x54 && size == 32) || (u64_at(req, 24) % 256 == 0x55 && size
            == 48) || (u64_at(req, 24) % 256 == 0x52 && size == 48),
        decide(fds, req, cap) is Ioctl,
        decide(fds, req, cap)->Ioctl_0.pointed_at(addr).served(after),
    ensures
        ({
            let back = after.returned();
            let n = u32_at(req, 32);
            let cmd = u32_at(req, 48);
            let translated = size == 32 && ((cmd == 0x3d05 && n >= 52) || (cmd == 0x3d06 && n
                >= 36));
            let place: int = if cmd == 0x3d05 {
                48
            } else {
                32
            };
            &&& back.len() == n
            &&& forall|i: int| 16 <= i < 24 ==> back[i] == 0
            &&& forall|i: int| 0 <= i < size && !(16 <= i < 24) ==> back[i] == after.params[i]
            &&& forall|i: int|
                size <= i < n && !(translated && place <= i < place + 4) ==> back[i]
                    == after.nested[i - size]
            &&& translated ==> back.subrange(place, place + 4) == req.subrange(
                40 + place,
                44 + place,
            )
        }),
{
    fields_after_the_header(req);
    let n = u32_at(req, 32);
    let sent = req.skip(16).subrange(24, 24 + n);
    assert(sent =~= req.subrange(40, 40 + n));
    let outer = sent.take(size);
    let nested = sent.skip(size);
    assert(outer =~= req.subrange(40, 40 + size));
    assert(nested =~= req.subrange(40 + size, 40 + n));
    field_of_part(req, 40, 40 + size, 8);
    let cmd = u32_at(req, 48);
    if size == 32 && ((cmd == 0x3d05 && n >= 52) || (cmd == 0x3d06 && n >= 36)) {
        let place: int = if cmd == 0x3d05 {
            16
        } else {
            0
        };
        u32_at_round_trip(nested, place);
        let back = after.returned();
        assert(back.subrange(32 + place, 36 + place) =~= le32(u32_at(nested, place)));
        assert(nested.subrange(place, place + 4) =~= req.subrange(72 + place, 76 + place));
    }
}

/// The zone of a caching type, which is bits 23 to 25 of the flags: types 0 and 5 are written
/// back, 2 and 6 are combined, all others are not cached.
pub proof fn caching_types_have_zones(flags: u32)
    ensures
        ({
            let t = flags / 0x80_0000 % 8;
            &&& pgprot_of(flags) == PgprotKind::WriteBack <==> t == 0 || t == 5
            &&& pgprot_of(flags) == PgprotKind::WriteCombine <==> t == 2 || t == 6
            &&& pgprot_of(flags) == PgprotKind::Uncached <==> t == 1 || t == 3 || t == 4 || t == 7
        }),
{
}

/// Of a mapping that the host's driver granted (status zero at byte 40): the length is at byte 24
/// and the flags at byte 44.  It takes the next whole pages of the zone of its caching type, if
/// there are enough; the host then maps so many bytes of the file there.  Otherwise the guest is
/// answered status 5 with error number 12.
pub proof fn mappings_take_the_next_pages(
    r: Completion,
    shm: ShmAllocator,
    call: IoctlCallView,
    before: Seq<u8>,
    after: Seq<u8>,
    zone: Zone,
    code: u8,
    pages: int,
)
    requires
        shm.wf(),
        r.settles(shm, call, Ok(()), before, after),
        before.len() >= 16,
        call.plan is MapMemory,
        u32_at(call.params, 40) == 0,
        ({
            let t = u32_at(call.params, 44) / 0x80_0000 % 8;
            if t == 0 || t == 5 {
                zone == shm.wb && code == 0
            } else if t == 2 || t == 6 {
                zone == shm.wc && code == 1
            } else {
                zone == shm.uc && code == 2
            }
        }),
        pages % 4096 == 0,
        u64_at(call.params, 24) <= pages < u64_at(call.params, 24) + 4096,
    ensures
        zone.cursor + pages > zone.size ==> {
            &&& r matches Completion::Done(n) && n == 16
            &&& starts_with_header(after, 5, 12, call.cookie)
            &&& shm_after(shm, call, Ok(())) == shm
        },
        zone.cursor + pages <= zone.size ==> {
            &&& r matches Completion::Mapping(m) && {
                &&& m.cookie == call.cookie
                &&& m.map.target == shm.base_ptr + zone.base + zone.cursor
                &&& m.map.length == u64_at(call.params, 24)
                &&& m.map.fd == call.plan->map_fd
                &&& m.placement.offset == zone.base + zone.cursor
                &&& m.placement.length == u64_at(call.params, 24)
                &&& m.placement.pgprot == code
                &&& m.params@ == call.returned()
                &&& after == before
            }
            &&& {
                let later = shm_after(shm, call, Ok(()));
                let taken = Zone { cursor: (zone.cursor + pages) as u64, ..zone };
                &&& later.uc == if code == 2 { taken } else { shm.uc }
                &&& later.wc == if code == 1 { taken } else { shm.wc }
                &&& later.wb == if code == 0 { taken } else { shm.wb }
                &&& later.base_ptr == shm.base_ptr
            }
        },
{
    let length = u64_at(call.params, 24);
    assert(crate::shm::round_up(length as int, 4096) == pages);
    errors_are_sixteen_bytes(before.len(), Status::IoctlFailed, call.cookie, 12);
    if zone.cursor + pages > zone.size {
        header_is_carried_over(
            before,
            after,
            error_reply(before.len(), Status::IoctlFailed, call.cookie, 12),
        );
    }
}

/// A file that was opened is answered with status zero and, at byte 16, its handle.
pub proof fn open_answers_tell_the_handle(
    before: Seq<u8>,
    after: Seq<u8>,
    n: usize,
    cookie: u64,
    handle: u64,
)
    requires
        before.len() >= 24,
        answered(before, after, n, ok_reply(cookie, le64(handle))),
    ensures
        n == 24,
        starts_with_header(after, 0, 0, cookie),
        u64_at(after, 16) == handle,
        forall|i: int| 24 <= i < before.len() ==> after[i] == before[i],
{
    successes_carry_the_payload(cookie, le64(handle));
    header_is_carried_over(before, after, ok_reply(cookie, le64(handle)));
    assert(after.subrange(16, 24) =~= le64(handle));
    u64_field(after, 16, handle);
}

/// A request that failed is answered with its status, the host's error number and its cookie, and
/// nothing else of the buffer changes.
pub proof fn error_answers_tell_the_error(
    before: Seq<u8>,
    after: Seq<u8>,
    n: usize,
    status: Status,
    cookie: u64,
    errno: i32,
)
    requires
        before.len() >= 16,
        answered(before, after, n, error_reply(before.len(), status, cookie, errno)),
    ensures
        n == 16,
        starts_with_header(after, status.spec_code() as int, errno as int, cookie),
        forall|i: int| 16 <= i < before.len() ==> after[i] == before[i],
{
    errors_are_sixteen_bytes(before.len(), status, cookie, errno);
    header_is_carried_over(before, after, error_reply(before.len(), status, cookie, errno));
}

/// A mapping that was made is answered with status zero, where it lies in the window, how long it
/// is, how it is cached, and the parameters.
pub proof fn map_answers_tell_the_place(
    before: Seq<u8>,
    after: Seq<u8>,
    n: usize,
    cookie: u64,
    params: Seq<u8>,
    placement: Placement,
)
    requires
        params.len() < 0x1_0000_0000,
        before.len() >= 48 + params.len(),
        answered(before, after, n, ioctl_reply(before.len(), cookie, params, placement)),
    ensures
        n == 48 + params.len(),
        starts_with_header(after, 0, 0, cookie),
        u32_at(after, 16) == params.len(),
        u64_at(after, 24) == placement.offset,
        u64_at(after, 32) == placement.length,
        after[40] == placement.pgprot,
        after.subrange(48, n as int) == params,
        forall|i: int| n <= i < before.len() ==> after[i] == before[i],
{
    let reply = ioctl_reply(before.len(), cookie, params, placement);
    ioctl_answers_have_a_layout(before.len(), cookie, params, placement);
    header_is_carried_over(before, after, reply);
    assert(after.subrange(48, n as int) =~= reply.subrange(48, n as int));
}

/// What dispatching gives is what was decided: a response that is written, a file to open, or an
/// ioctl to make, with all that was decided of it.  Until the host has answered, the buffer is not
/// touched.
pub proof fn dispatching_gives_what_was_decided(
    r: Dispatch,
    d: Decision,
    fds: Map<u64, i32>,
    before: Seq<u8>,
    after: Seq<u8>,
)
    requires
        r.carries_out(d, fds, before, after),
        d matches Decision::Reply(reply) ==> reply.len() <= before.len(),
        d matches Decision::Close { handle, reply } ==> reply.len() <= before.len(),
    ensures
        after.len() == before.len(),
        d matches Decision::Reply(reply) ==> r matches Dispatch::Done(n) && {
            &&& n == reply.len()
            &&& after.take(n as int) == reply
            &&& after.skip(n as int) == before.skip(n as int)
        },
        d matches Decision::Close { handle, reply } ==> r matches Dispatch::Close {
            fd,
            written,
        } && {
            &&& fd == fds[handle]
            &&& written == reply.len()
            &&& after.take(written as int) == reply
            &&& after.skip(written as int) == before.skip(written as int)
        },
        d matches Decision::Open { cookie, path } ==> r matches Dispatch::Open(call) && {
            &&& call.cookie == cookie
            &&& call.path@ == path
            &&& after == before
        },
        d matches Decision::Ioctl(view) ==> r matches Dispatch::Ioctl(call) && {
            &&& call.cookie == view.cookie
            &&& call.fd == view.fd
            &&& call.request == view.request
            &&& call.params@ == view.params
            &&& call.nested@ == view.nested
            &&& call.plan == view.plan
            &&& after == before
        },
{
    match d {
        Decision::Reply(reply) => {
            let n = reply.len() as int;
            assert(after.take(n) =~= reply);
            assert(after.skip(n) =~= before.skip(n));
        },
        Decision::Close { handle, reply } => {
            let n = reply.len() as int;
            assert(after.take(n) =~= reply);
            assert(after.skip(n) =~= before.skip(n));
        },
        _ => {},
    }
}

/// Which outcomes of a mapping can be taken: all whose length, in whole pages after what the zone
/// of its caching type gave out, is a machine number.  Outcomes of other ioctls all can.
pub proof fn outcomes_that_can_be_taken(shm: ShmAllocator, call: IoctlCallView)
    ensures
        !(call.plan is MapMemory) || u32_at(call.params, 40) != 0 ==> call.map_measurable(shm),
        u64_at(call.params, 24) <= 0x1_0000_0000_0000 && shm.uc.cursor <= 0x1_0000_0000_0000
            && shm.wc.cursor <= 0x1_0000_0000_0000 && shm.wb.cursor <= 0x1_0000_0000_0000
            ==> call.map_measurable(shm),
{
}

} // verus!
