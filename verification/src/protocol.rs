//! Messages between the guest driver and [`crate::nvidia::NvidiaBackend`].
//!
//! All fields are little-endian.  Padding is written as zero and not looked at.

use vstd::prelude::*;

use crate::bytes::{
    bits_of, group_field_lengths, le32, le64, le_i32, push_i32, push_u32, push_u64, push_zeros,
    read_u32, read_u64, signed, to_signed, u32_at, u32_field, u64_at, u64_field, zeros,
};

verus! {

broadcast use group_field_lengths;

/// What a request asks for.
#[derive(Clone, Copy, Debug, PartialEq, Eq, Structural)]
pub enum MsgType {
    Open,
    Close,
    Ioctl,
}

impl MsgType {
    /// The number that stands for the type on the wire.
    pub open spec fn spec_code(self) -> u32 {
        match self {
            MsgType::Open => 1,
            MsgType::Close => 2,
            MsgType::Ioctl => 3,
        }
    }

    /// The number that stands for the type on the wire.
    pub fn code(self) -> (r: u32)
        ensures
            r == self.spec_code(),
    {
        match self {
            MsgType::Open => 1,
            MsgType::Close => 2,
            MsgType::Ioctl => 3,
        }
    }

    /// The type that `v` stands for, if any.
    pub fn from_code(v: u32) -> (r: Option<MsgType>)
        ensures
            r is Some <==> 1 <= v <= 3,
            r matches Some(t) ==> t.spec_code() == v,
    {
        match v {
            1 => Some(MsgType::Open),
            2 => Some(MsgType::Close),
            3 => Some(MsgType::Ioctl),
            _ => None,
        }
    }
}

/// How a request went.
#[derive(Clone, Copy, Debug, PartialEq, Eq, Structural)]
pub enum Status {
    Success,
    InvalidMsgType,
    InvalidDevice,
    OpenFailed,
    BadHandle,
    IoctlFailed,
    BufferTooSmall,
}

impl Status {
    /// The number that stands for the status on the wire.
    pub open spec fn spec_code(self) -> u32 {
        match self {
            Status::Success => 0,
            Status::InvalidMsgType => 1,
            Status::InvalidDevice => 2,
            Status::OpenFailed => 3,
            Status::BadHandle => 4,
            Status::IoctlFailed => 5,
            Status::BufferTooSmall => 6,
        }
    }

    /// The number that stands for the status on the wire.
    pub fn code(self) -> (r: u32)
        ensures
            r == self.spec_code(),
    {
        match self {
            Status::Success => 0,
            Status::InvalidMsgType => 1,
            Status::InvalidDevice => 2,
            Status::OpenFailed => 3,
            Status::BadHandle => 4,
            Status::IoctlFailed => 5,
            Status::BufferTooSmall => 6,
        }
    }
}

/// Kinds of device that a guest can open.
#[derive(Clone, Copy, Debug, PartialEq, Eq, Structural)]
pub enum DeviceKind {
    Ctl,
    Gpu,
    Uvm,
    Modeset,
}

impl DeviceKind {
    /// The number that stands for the kind on the wire.
    pub open spec fn spec_code(self) -> u8 {
        match self {
            DeviceKind::Ctl => 0,
            DeviceKind::Gpu => 1,
            DeviceKind::Uvm => 2,
            DeviceKind::Modeset => 3,
        }
    }

    /// The number that stands for the kind on the wire.
    pub fn code(self) -> (r: u8)
        ensures
            r == self.spec_code(),
    {
        match self {
            DeviceKind::Ctl => 0,
            DeviceKind::Gpu => 1,
            DeviceKind::Uvm => 2,
            DeviceKind::Modeset => 3,
        }
    }
}

/// Bytes of a [`MsgHeader`].
pub const MSG_HEADER_SIZE: usize = 16;

/// Bytes of a [`RespHeader`].
pub const RESP_HEADER_SIZE: usize = 16;

/// Bytes of an [`OpenReq`].
pub const OPEN_REQ_SIZE: usize = 8;

/// Bytes of an [`OpenResp`].
pub const OPEN_RESP_SIZE: usize = 8;

/// Bytes of a [`CloseReq`].
pub const CLOSE_REQ_SIZE: usize = 8;

/// Bytes of an [`IoctlReq`].
pub const IOCTL_REQ_SIZE: usize = 24;

/// Bytes of an [`IoctlResp`].
pub const IOCTL_RESP_SIZE: usize = 32;

/// Starts every request.
///
/// Layout: type (4), padding (4), cookie (8).
#[derive(Clone, Copy, Debug)]
pub struct MsgHeader {
    pub msg_type: u32,
    /// Comes back in the response.
    pub cookie: u64,
}

impl MsgHeader {
    /// The bytes of the header.
    pub open spec fn wire(self) -> Seq<u8> {
        le32(self.msg_type) + zeros(4) + le64(self.cookie)
    }

    /// The header that starts at byte `at`.
    pub open spec fn at(s: Seq<u8>, at: int) -> MsgHeader {
        MsgHeader { msg_type: u32_at(s, at), cookie: u64_at(s, at + 8) }
    }

    /// Reads the header at `at`.
    pub fn read(buf: &[u8], at: usize) -> (r: Self)
        requires
            at + MSG_HEADER_SIZE <= buf.len(),
        ensures
            r == MsgHeader::at(buf@, at as int),
    {
        MsgHeader { msg_type: read_u32(buf, at), cookie: read_u64(buf, at + 8) }
    }

    /// Appends the bytes of the header.
    pub fn write(&self, out: &mut Vec<u8>)
        ensures
            final(out)@ == old(out)@ + self.wire(),
    {
        push_u32(out, self.msg_type);
        push_zeros(out, 4);
        push_u64(out, self.cookie);
        assert(out@ =~= old(out)@ + self.wire());
    }

    /// What is written is read back, each field from its place.
    pub proof fn round_trip(self)
        ensures
            self.wire().len() == MSG_HEADER_SIZE,
            MsgHeader::at(self.wire(), 0) == self,
            u32_at(self.wire(), 0) == self.msg_type,
            u64_at(self.wire(), 8) == self.cookie,
    {
        assert(self.wire().subrange(0, 4) =~= le32(self.msg_type));
        u32_field(self.wire(), 0, self.msg_type);
        assert(self.wire().subrange(8, 16) =~= le64(self.cookie));
        u64_field(self.wire(), 8, self.cookie);
    }
}

/// Starts every response.
///
/// Layout: status (4), host errno (4), cookie (8).
#[derive(Clone, Copy, Debug)]
pub struct RespHeader {
    pub status: u32,
    pub errno_host: i32,
    /// The cookie of the request.
    pub cookie: u64,
}

impl RespHeader {
    /// The bytes of the header.
    pub open spec fn wire(self) -> Seq<u8> {
        le32(self.status) + le_i32(self.errno_host) + le64(self.cookie)
    }

    /// The header that starts at byte `at`.
    pub open spec fn at(s: Seq<u8>, at: int) -> RespHeader {
        RespHeader {
            status: u32_at(s, at),
            errno_host: signed(u32_at(s, at + 4)),
            cookie: u64_at(s, at + 8),
        }
    }

    /// Reads the header at `at`.
    pub fn read(buf: &[u8], at: usize) -> (r: Self)
        requires
            at + RESP_HEADER_SIZE <= buf.len(),
        ensures
            r == RespHeader::at(buf@, at as int),
    {
        RespHeader {
            status: read_u32(buf, at),
            errno_host: to_signed(read_u32(buf, at + 4)),
            cookie: read_u64(buf, at + 8),
        }
    }

    /// Appends the bytes of the header.
    pub fn write(&self, out: &mut Vec<u8>)
        ensures
            final(out)@ == old(out)@ + self.wire(),
    {
        push_u32(out, self.status);
        push_i32(out, self.errno_host);
        push_u64(out, self.cookie);
        assert(out@ =~= old(out)@ + self.wire());
    }

    /// What is written is read back, each field from its place.
    pub proof fn round_trip(self)
        ensures
            self.wire().len() == RESP_HEADER_SIZE,
            RespHeader::at(self.wire(), 0) == self,
            u32_at(self.wire(), 0) == self.status,
            signed(u32_at(self.wire(), 4)) == self.errno_host,
            u64_at(self.wire(), 8) == self.cookie,
    {
        assert(self.wire().subrange(0, 4) =~= le32(self.status));
        u32_field(self.wire(), 0, self.status);
        assert(self.wire().subrange(8, 16) =~= le64(self.cookie));
        u64_field(self.wire(), 8, self.cookie);
        assert(self.wire().subrange(4, 8) =~= le_i32(self.errno_host));
        u32_field(self.wire(), 4, bits_of(self.errno_host));
    }
}

/// Payload of OPEN.
///
/// Layout: kind (1), index (1), padding (6).
#[derive(Clone, Copy, Debug)]
pub struct OpenReq {
    pub kind: u8,
    pub index: u8,
}

impl OpenReq {
    /// The bytes of the payload.
    pub open spec fn wire(self) -> Seq<u8> {
        seq![self.kind, self.index] + zeros(6)
    }

    /// The payload that starts at byte `at`.
    pub open spec fn at(s: Seq<u8>, at: int) -> OpenReq {
        OpenReq { kind: s[at], index: s[at + 1] }
    }

    /// Reads the payload at `at`.
    pub fn read(buf: &[u8], at: usize) -> (r: Self)
        requires
            at + OPEN_REQ_SIZE <= buf.len(),
        ensures
            r == OpenReq::at(buf@, at as int),
    {
        OpenReq { kind: buf[at], index: buf[at + 1] }
    }

    /// Appends the bytes of the payload.
    pub fn write(&self, out: &mut Vec<u8>)
        ensures
            final(out)@ == old(out)@ + self.wire(),
    {
        out.push(self.kind);
        out.push(self.index);
        push_zeros(out, 6);
        assert(out@ =~= old(out)@ + self.wire());
    }

    /// What is written is read back, each field from its place.
    pub proof fn round_trip(self)
        ensures
            self.wire().len() == OPEN_REQ_SIZE,
            OpenReq::at(self.wire(), 0) == self,
            self.wire()[0] == self.kind,
            self.wire()[1] == self.index,
    {
    }
}

/// Payload of the answer to OPEN: the new guest handle (8).
#[derive(Clone, Copy, Debug)]
pub struct OpenResp {
    pub guest_handle: u64,
}

impl OpenResp {
    /// Reads the payload at `at`.
    pub fn read(buf: &[u8], at: usize) -> (r: Self)
        requires
            at + OPEN_RESP_SIZE <= buf.len(),
        ensures
            r.guest_handle == u64_at(buf@, at as int),
    {
        OpenResp { guest_handle: read_u64(buf, at) }
    }
}

/// Payload of CLOSE: a guest handle (8).
#[derive(Clone, Copy, Debug)]
pub struct CloseReq {
    pub guest_handle: u64,
}

impl CloseReq {
    /// The payload that starts at byte `at`.
    pub open spec fn at(s: Seq<u8>, at: int) -> CloseReq {
        CloseReq { guest_handle: u64_at(s, at) }
    }

    /// Reads the payload at `at`.
    pub fn read(buf: &[u8], at: usize) -> (r: Self)
        requires
            at + CLOSE_REQ_SIZE <= buf.len(),
        ensures
            r == CloseReq::at(buf@, at as int),
    {
        CloseReq { guest_handle: read_u64(buf, at) }
    }

    /// Appends the bytes of the payload.
    pub fn write(&self, out: &mut Vec<u8>)
        ensures
            final(out)@ == old(out)@ + le64(self.guest_handle),
    {
        push_u64(out, self.guest_handle);
    }
}

/// Payload of IOCTL; `param_size` bytes of parameters follow.
///
/// Layout: guest handle (8), request (8), parameter size (4), padding (4).
#[derive(Clone, Copy, Debug)]
pub struct IoctlReq {
    pub guest_handle: u64,
    pub request: u64,
    pub param_size: u32,
}

impl IoctlReq {
    /// The bytes of the payload.
    pub open spec fn wire(self) -> Seq<u8> {
        le64(self.guest_handle) + le64(self.request) + le32(self.param_size) + zeros(4)
    }

    /// The payload that starts at byte `at`.
    pub open spec fn at(s: Seq<u8>, at: int) -> IoctlReq {
        IoctlReq {
            guest_handle: u64_at(s, at),
            request: u64_at(s, at + 8),
            param_size: u32_at(s, at + 16),
        }
    }

    /// Reads the payload at `at`.
    pub fn read(buf: &[u8], at: usize) -> (r: Self)
        requires
            at + IOCTL_REQ_SIZE <= buf.len(),
        ensures
            r == IoctlReq::at(buf@, at as int),
    {
        IoctlReq {
            guest_handle: read_u64(buf, at),
            request: read_u64(buf, at + 8),
            param_size: read_u32(buf, at + 16),
        }
    }

    /// Appends the bytes of the payload.
    pub fn write(&self, out: &mut Vec<u8>)
        ensures
            final(out)@ == old(out)@ + self.wire(),
    {
        push_u64(out, self.guest_handle);
        push_u64(out, self.request);
        push_u32(out, self.param_size);
        push_zeros(out, 4);
        assert(out@ =~= old(out)@ + self.wire());
    }

    /// What is written is read back, each field from its place.
    pub proof fn round_trip(self)
        ensures
            self.wire().len() == IOCTL_REQ_SIZE,
            IoctlReq::at(self.wire(), 0) == self,
            u64_at(self.wire(), 0) == self.guest_handle,
            u64_at(self.wire(), 8) == self.request,
            u32_at(self.wire(), 16) == self.param_size,
    {
        assert(self.wire().subrange(0, 8) =~= le64(self.guest_handle));
        u64_field(self.wire(), 0, self.guest_handle);
        assert(self.wire().subrange(8, 16) =~= le64(self.request));
        u64_field(self.wire(), 8, self.request);
        assert(self.wire().subrange(16, 20) =~= le32(self.param_size));
        u32_field(self.wire(), 16, self.param_size);
    }
}

/// Payload of the answer to IOCTL; `param_size` bytes of parameters follow.
///
/// Layout: parameter size (4), padding (4), offset in the window (8), length in the window (8),
/// caching mode (1), padding (7).
#[derive(Clone, Copy, Debug)]
pub struct IoctlResp {
    pub param_size: u32,
    pub shm_offset: u64,
    pub shm_length: u64,
    pub pgprot: u8,
}

impl IoctlResp {
    /// The bytes of the payload.
    pub open spec fn wire(self) -> Seq<u8> {
        le32(self.param_size) + zeros(4) + le64(self.shm_offset) + le64(self.shm_length)
            + seq![self.pgprot] + zeros(7)
    }

    /// The payload that starts at byte `at`.
    pub open spec fn at(s: Seq<u8>, at: int) -> IoctlResp {
        IoctlResp {
            param_size: u32_at(s, at),
            shm_offset: u64_at(s, at + 8),
            shm_length: u64_at(s, at + 16),
            pgprot: s[at + 24],
        }
    }

    /// Reads the payload at `at`.
    pub fn read(buf: &[u8], at: usize) -> (r: Self)
        requires
            at + IOCTL_RESP_SIZE <= buf.len(),
        ensures
            r == IoctlResp::at(buf@, at as int),
    {
        IoctlResp {
            param_size: read_u32(buf, at),
            shm_offset: read_u64(buf, at + 8),
            shm_length: read_u64(buf, at + 16),
            pgprot: buf[at + 24],
        }
    }

    /// Appends the bytes of the payload.
    pub fn write(&self, out: &mut Vec<u8>)
        ensures
            final(out)@ == old(out)@ + self.wire(),
    {
        push_u32(out, self.param_size);
        push_zeros(out, 4);
        push_u64(out, self.shm_offset);
        push_u64(out, self.shm_length);
        out.push(self.pgprot);
        push_zeros(out, 7);
        assert(out@ =~= old(out)@ + self.wire());
    }

    /// What is written is read back, each field from its place.
    pub proof fn round_trip(self)
        ensures
            self.wire().len() == IOCTL_RESP_SIZE,
            IoctlResp::at(self.wire(), 0) == self,
            u32_at(self.wire(), 0) == self.param_size,
            u64_at(self.wire(), 8) == self.shm_offset,
            u64_at(self.wire(), 16) == self.shm_length,
            self.wire()[24] == self.pgprot,
    {
        assert(self.wire().subrange(0, 4) =~= le32(self.param_size));
        u32_field(self.wire(), 0, self.param_size);
        assert(self.wire().subrange(8, 16) =~= le64(self.shm_offset));
        u64_field(self.wire(), 8, self.shm_offset);
        assert(self.wire().subrange(16, 24) =~= le64(self.shm_length));
        u64_field(self.wire(), 16, self.shm_length);
    }
}

/// Requests, kinds of devices and caching modes are told apart by their numbers.
pub proof fn codes_are_these()
    ensures
        MsgType::Open.spec_code() == 1,
        MsgType::Close.spec_code() == 2,
        MsgType::Ioctl.spec_code() == 3,
        DeviceKind::Ctl.spec_code() == 0,
        DeviceKind::Gpu.spec_code() == 1,
        DeviceKind::Uvm.spec_code() == 2,
        DeviceKind::Modeset.spec_code() == 3,
{
}

} // verus!
