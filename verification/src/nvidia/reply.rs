//! Responses.

use vstd::prelude::*;

use crate::bytes::{group_field_lengths, overlay, push_bytes, put, u32_at, u64_at};
use crate::protocol::{IoctlResp, RespHeader, Status};

verus! {

broadcast use group_field_lengths;

/// The response to a failed request: a header alone, or nothing where `cap` bytes cannot take
/// it.
pub open spec fn error_reply(cap: nat, status: Status, cookie: u64, errno: i32) -> Seq<u8> {
    if cap < 16 {
        Seq::empty()
    } else {
        RespHeader { status: status.spec_code(), errno_host: errno, cookie }.wire()
    }
}

/// The response to a request that succeeded: a header and the payload.
pub open spec fn ok_reply(cookie: u64, payload: Seq<u8>) -> Seq<u8> {
    RespHeader { status: Status::Success.spec_code(), errno_host: 0, cookie }.wire() + payload
}

/// Where in the window a mapping lies; all zero for an ioctl that maps nothing.
#[derive(Clone, Copy, Debug)]
pub struct Placement {
    pub offset: u64,
    pub length: u64,
    pub pgprot: u8,
}

/// Nothing is mapped.
pub open spec fn nowhere() -> Placement {
    Placement { offset: 0, length: 0, pgprot: 0 }
}

/// The response to an ioctl that the host served: a header, the placement and the parameters,
/// or an error where `cap` bytes cannot take all of it.
pub open spec fn ioctl_reply(
    cap: nat,
    cookie: u64,
    params: Seq<u8>,
    placement: Placement,
) -> Seq<u8> {
    if cap < 48 + params.len() {
        error_reply(cap, Status::BufferTooSmall, cookie, 0)
    } else {
        let payload = IoctlResp {
            param_size: params.len() as u32,
            shm_offset: placement.offset,
            shm_length: placement.length,
            pgprot: placement.pgprot,
        };
        ok_reply(cookie, payload.wire() + params)
    }
}

/// `reply` was written to the start of the buffer and `n` is its length; the rest of the buffer
/// is as it was.
pub open spec fn answered(before: Seq<u8>, after: Seq<u8>, n: usize, reply: Seq<u8>) -> bool {
    &&& n == reply.len()
    &&& after == overlay(before, 0, reply)
}

/// Writes the response to a failed request.
pub(crate) fn write_error_resp(
    resp: &mut [u8],
    status: Status,
    cookie: u64,
    errno: i32,
) -> (n: usize)
    ensures
        answered(
            old(resp)@,
            final(resp)@,
            n,
            error_reply(old(resp)@.len(), status, cookie, errno),
        ),
{
    if resp.len() < 16 {
        assert(resp@ =~= overlay(resp@, 0, Seq::empty()));
        return 0;
    }
    let mut out: Vec<u8> = Vec::new();
    RespHeader { status: status.code(), errno_host: errno, cookie }.write(&mut out);
    assert(out@ =~= error_reply(resp@.len(), status, cookie, errno));
    put(resp, 0, out.as_slice());
    out.len()
}

/// Writes the response to a request that succeeded.
pub(crate) fn write_ok(resp: &mut [u8], cookie: u64, payload: &[u8]) -> (n: usize)
    requires
        old(resp).len() >= 16 + payload.len(),
    ensures
        answered(old(resp)@, final(resp)@, n, ok_reply(cookie, payload@)),
{
    let mut out: Vec<u8> = Vec::new();
    RespHeader { status: Status::Success.code(), errno_host: 0, cookie }.write(&mut out);
    push_bytes(&mut out, payload);
    assert(out@ =~= ok_reply(cookie, payload@));
    put(resp, 0, out.as_slice());
    out.len()
}

/// Writes the response to an ioctl that the host served.
pub(crate) fn write_ioctl_resp(
    resp: &mut [u8],
    cookie: u64,
    params: &[u8],
    placement: Placement,
) -> (n: usize)
    requires
        params.len() <= u32::MAX,
    ensures
        answered(
            old(resp)@,
            final(resp)@,
            n,
            ioctl_reply(old(resp)@.len(), cookie, params@, placement),
        ),
{
    if resp.len() < 48 || resp.len() - 48 < params.len() {
        return write_error_resp(resp, Status::BufferTooSmall, cookie, 0);
    }
    let payload = IoctlResp {
        param_size: params.len() as u32,
        shm_offset: placement.offset,
        shm_length: placement.length,
        pgprot: placement.pgprot,
    };
    let mut out: Vec<u8> = Vec::new();
    payload.write(&mut out);
    push_bytes(&mut out, params);
    assert(out@ =~= payload.wire() + params@);
    write_ok(resp, cookie, out.as_slice())
}

/// A failed request is answered with its status, the host's error number and its cookie.
pub proof fn header_of_error(cap: nat, status: Status, cookie: u64, errno: i32)
    requires
        cap >= 16,
    ensures
        error_reply(cap, status, cookie, errno).len() == 16,
        RespHeader::at(error_reply(cap, status, cookie, errno), 0) == (RespHeader {
            status: status.spec_code(),
            errno_host: errno,
            cookie,
        }),
{
    RespHeader { status: status.spec_code(), errno_host: errno, cookie }.round_trip();
}

/// A request that succeeded is answered with its cookie and no error, and the payload follows.
pub proof fn header_of_ok(cookie: u64, payload: Seq<u8>)
    ensures
        ok_reply(cookie, payload).len() == 16 + payload.len(),
        ok_reply(cookie, payload).skip(16) == payload,
        RespHeader::at(ok_reply(cookie, payload), 0) == (RespHeader {
            status: Status::Success.spec_code(),
            errno_host: 0,
            cookie,
        }),
{
    let hdr = RespHeader { status: Status::Success.spec_code(), errno_host: 0, cookie };
    hdr.round_trip();
    let reply = ok_reply(cookie, payload);
    assert(reply.skip(16) =~= payload);
    assert(forall|i: int| 0 <= i < 16 ==> reply[i] == hdr.wire()[i]);
    reveal(u32_at);
    reveal(u64_at);
    assert(RespHeader::at(reply, 0) == RespHeader::at(hdr.wire(), 0));
}

/// The answer to an ioctl can be read back: its placement, and its parameters after it.
pub proof fn ioctl_reply_reads_back(cap: nat, cookie: u64, params: Seq<u8>, placement: Placement)
    requires
        cap >= 48 + params.len(),
        params.len() <= u32::MAX,
    ensures
        ({
            let reply = ioctl_reply(cap, cookie, params, placement);
            let payload = IoctlResp::at(reply, 16);
            &&& RespHeader::at(reply, 0).status == Status::Success.spec_code()
            &&& RespHeader::at(reply, 0).cookie == cookie
            &&& payload.param_size == params.len()
            &&& payload.shm_offset == placement.offset
            &&& payload.shm_length == placement.length
            &&& payload.pgprot == placement.pgprot
            &&& reply.skip(48) == params
        }),
{
    let payload = IoctlResp {
        param_size: params.len() as u32,
        shm_offset: placement.offset,
        shm_length: placement.length,
        pgprot: placement.pgprot,
    };
    let reply = ioctl_reply(cap, cookie, params, placement);
    header_of_ok(cookie, payload.wire() + params);
    payload.round_trip();
    assert(forall|i: int| 0 <= i < 32 ==> reply[16 + i] == payload.wire()[i]);
    reveal(u32_at);
    reveal(u64_at);
    assert(IoctlResp::at(reply, 16) == IoctlResp::at(payload.wire(), 0));
    assert(reply.skip(48) =~= params);
}

} // verus!
