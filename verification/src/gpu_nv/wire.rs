//! Messages of the control virtqueue.
//!
//! All structures are packed and little-endian.

use vstd::prelude::*;

use crate::bytes::{
    bits_of, group_field_lengths, le32, le64, le_i32, push_i32, push_u32, push_u64, read_u32,
    read_u64, signed, signed_round_trip, to_signed, u32_at, u32_field, u64_at, u64_field,
};

verus! {

broadcast use group_field_lengths;

/// Message types on the control virtqueue.
pub const NVGPU_MSG_OPEN: u32 = 1;

pub const NVGPU_MSG_CLOSE: u32 = 2;

pub const NVGPU_MSG_IOCTL: u32 = 3;

pub const NVGPU_MSG_MMAP: u32 = 4;

pub const NVGPU_MSG_MUNMAP: u32 = 5;

pub const NVGPU_MSG_GET_PROC_FILES: u32 = 6;

pub const NVGPU_MSG_GET_SYS_FILES: u32 = 7;

/// Device types of OPEN, besides the numbers of the GPUs.
pub const NVGPU_DEV_CTL: u32 = 255;

pub const NVGPU_DEV_UVM: u32 = 256;

pub const NVGPU_DEV_UVM_TOOLS: u32 = 257;

pub const NVGPU_DEV_MODESET: u32 = 258;

/// A structure with a fixed layout.
pub trait Wire {
    /// The bytes of the structure.
    spec fn wire(&self) -> Seq<u8>;

    /// Appends the bytes of the structure.
    fn append_to(&self, out: &mut Vec<u8>)
        ensures
            final(out)@ == old(out)@ + self.wire(),
    ;
}

/// The bytes of a structure.
pub fn bytes_of<T: Wire>(val: &T) -> (r: Vec<u8>)
    ensures
        r@ == val.wire(),
{
    let mut out: Vec<u8> = Vec::new();
    val.append_to(&mut out);
    assert(out@ =~= val.wire());
    out
}

/// Starts every message.
#[derive(Clone, Copy, Debug, Default)]
pub struct NvgpuMsgHdr {
    pub msg_type: u32,
    pub handle: u32,
    /// Zero or positive on success, a negated error number on failure.
    pub status: i32,
    pub padding: u32,
}

impl Wire for NvgpuMsgHdr {
    open spec fn wire(&self) -> Seq<u8> {
        le32(self.msg_type) + le32(self.handle) + le_i32(self.status) + le32(self.padding)
    }

    fn append_to(&self, out: &mut Vec<u8>) {
        push_u32(out, self.msg_type);
        push_u32(out, self.handle);
        push_i32(out, self.status);
        push_u32(out, self.padding);
        assert(out@ =~= old(out)@ + self.wire());
    }
}

impl NvgpuMsgHdr {
    /// The structure that `s` starts with.
    pub open spec fn at(s: Seq<u8>) -> NvgpuMsgHdr {
        NvgpuMsgHdr {
            msg_type: u32_at(s, 0),
            handle: u32_at(s, 4),
            status: signed(u32_at(s, 8)),
            padding: u32_at(s, 12),
        }
    }

    /// Reads the structure that `buf` starts with.
    pub fn read(buf: &[u8]) -> (r: Self)
        requires
            buf.len() >= 16,
        ensures
            r == NvgpuMsgHdr::at(buf@),
    {
        NvgpuMsgHdr {
            msg_type: read_u32(buf, 0),
            handle: read_u32(buf, 4),
            status: to_signed(read_u32(buf, 8)),
            padding: read_u32(buf, 12),
        }
    }

    /// What is written is read back, each field from its place, whatever follows it.
    pub proof fn round_trip(self, rest: Seq<u8>)
        ensures
            self.wire().len() == 16,
            NvgpuMsgHdr::at(self.wire() + rest) == self,
            u32_at(self.wire() + rest, 0) == self.msg_type,
            u32_at(self.wire() + rest, 4) == self.handle,
            signed(u32_at(self.wire() + rest, 8)) == self.status,
            u32_at(self.wire() + rest, 12) == self.padding,
    {
        let s = self.wire() + rest;
        assert(s.subrange(0, 4) =~= le32(self.msg_type));
        u32_field(s, 0, self.msg_type);
        assert(s.subrange(4, 8) =~= le32(self.handle));
        u32_field(s, 4, self.handle);
        assert(s.subrange(8, 12) =~= le_i32(self.status));
        u32_field(s, 8, bits_of(self.status));
        signed_round_trip(self.status, 0);
        assert(s.subrange(12, 16) =~= le32(self.padding));
        u32_field(s, 12, self.padding);
    }
}

/// OPEN request.
#[derive(Clone, Copy, Debug, Default)]
pub struct NvgpuOpenReq {
    pub hdr: NvgpuMsgHdr,
    pub device_type: u32,
    pub flags: u32,
}

impl Wire for NvgpuOpenReq {
    open spec fn wire(&self) -> Seq<u8> {
        self.hdr.wire() + le32(self.device_type) + le32(self.flags)
    }

    fn append_to(&self, out: &mut Vec<u8>) {
        self.hdr.append_to(out);
        push_u32(out, self.device_type);
        push_u32(out, self.flags);
        assert(out@ =~= old(out)@ + self.wire());
    }
}

impl NvgpuOpenReq {
    /// The structure that `s` starts with.
    pub open spec fn at(s: Seq<u8>) -> NvgpuOpenReq {
        NvgpuOpenReq {
            hdr: NvgpuMsgHdr::at(s),
            device_type: u32_at(s, 16),
            flags: u32_at(s, 20),
        }
    }

    /// Reads the structure that `buf` starts with.
    pub fn read(buf: &[u8]) -> (r: Self)
        requires
            buf.len() >= 24,
        ensures
            r == NvgpuOpenReq::at(buf@),
    {
        NvgpuOpenReq {
            hdr: NvgpuMsgHdr::read(buf),
            device_type: read_u32(buf, 16),
            flags: read_u32(buf, 20),
        }
    }

    /// What is written is read back, each field from its place, whatever follows it.
    pub proof fn round_trip(self, rest: Seq<u8>)
        ensures
            self.wire().len() == 24,
            NvgpuOpenReq::at(self.wire() + rest) == self,
            u32_at(self.wire() + rest, 16) == self.device_type,
            u32_at(self.wire() + rest, 20) == self.flags,
            NvgpuMsgHdr::at(self.wire() + rest) == self.hdr,
    {
        let s = self.wire() + rest;
        self.hdr.round_trip(s.skip(16));
        assert(s =~= self.hdr.wire() + s.skip(16));
        assert(s.subrange(16, 20) =~= le32(self.device_type));
        u32_field(s, 16, self.device_type);
        assert(s.subrange(20, 24) =~= le32(self.flags));
        u32_field(s, 20, self.flags);
    }
}

/// OPEN response; the new handle is in its header.
#[derive(Clone, Copy, Debug, Default)]
pub struct NvgpuOpenResp {
    pub hdr: NvgpuMsgHdr,
}

impl Wire for NvgpuOpenResp {
    open spec fn wire(&self) -> Seq<u8> {
        self.hdr.wire()
    }

    fn append_to(&self, out: &mut Vec<u8>) {
        self.hdr.append_to(out);
        assert(out@ =~= old(out)@ + self.wire());
    }
}

impl NvgpuOpenResp {
    /// The structure that `s` starts with.
    pub open spec fn at(s: Seq<u8>) -> NvgpuOpenResp {
        NvgpuOpenResp {
            hdr: NvgpuMsgHdr::at(s),
        }
    }

    /// Reads the structure that `buf` starts with.
    pub fn read(buf: &[u8]) -> (r: Self)
        requires
            buf.len() >= 16,
        ensures
            r == NvgpuOpenResp::at(buf@),
    {
        NvgpuOpenResp {
            hdr: NvgpuMsgHdr::read(buf),
        }
    }

    /// What is written is read back, each field from its place, whatever follows it.
    pub proof fn round_trip(self, rest: Seq<u8>)
        ensures
            self.wire().len() == 16,
            NvgpuOpenResp::at(self.wire() + rest) == self,
            NvgpuMsgHdr::at(self.wire() + rest) == self.hdr,
    {
        let s = self.wire() + rest;
        self.hdr.round_trip(s.skip(16));
        assert(s =~= self.hdr.wire() + s.skip(16));
    }
}

/// IOCTL request; `data_len` bytes of parameters follow, and `nested_len` bytes of nested
/// parameters start `nested_offset` bytes after it.
#[derive(Clone, Copy, Debug, Default)]
pub struct NvgpuIoctlReq {
    pub hdr: NvgpuMsgHdr,
    pub cmd: u32,
    pub data_len: u32,
    pub nested_offset: u32,
    pub nested_len: u32,
}

impl Wire for NvgpuIoctlReq {
    open spec fn wire(&self) -> Seq<u8> {
        self.hdr.wire() + le32(self.cmd) + le32(self.data_len) + le32(self.nested_offset)
            + le32(self.nested_len)
    }

    fn append_to(&self, out: &mut Vec<u8>) {
        self.hdr.append_to(out);
        push_u32(out, self.cmd);
        push_u32(out, self.data_len);
        push_u32(out, self.nested_offset);
        push_u32(out, self.nested_len);
        assert(out@ =~= old(out)@ + self.wire());
    }
}

impl NvgpuIoctlReq {
    /// The structure that `s` starts with.
    pub open spec fn at(s: Seq<u8>) -> NvgpuIoctlReq {
        NvgpuIoctlReq {
            hdr: NvgpuMsgHdr::at(s),
            cmd: u32_at(s, 16),
            data_len: u32_at(s, 20),
            nested_offset: u32_at(s, 24),
            nested_len: u32_at(s, 28),
        }
    }

    /// Reads the structure that `buf` starts with.
    pub fn read(buf: &[u8]) -> (r: Self)
        requires
            buf.len() >= 32,
        ensures
            r == NvgpuIoctlReq::at(buf@),
    {
        NvgpuIoctlReq {
            hdr: NvgpuMsgHdr::read(buf),
            cmd: read_u32(buf, 16),
            data_len: read_u32(buf, 20),
            nested_offset: read_u32(buf, 24),
            nested_len: read_u32(buf, 28),
        }
    }

    /// What is written is read back, each field from its place, whatever follows it.
    pub proof fn round_trip(self, rest: Seq<u8>)
        ensures
            self.wire().len() == 32,
            NvgpuIoctlReq::at(self.wire() + rest) == self,
            u32_at(self.wire() + rest, 16) == self.cmd,
            u32_at(self.wire() + rest, 20) == self.data_len,
            u32_at(self.wire() + rest, 24) == self.nested_offset,
            u32_at(self.wire() + rest, 28) == self.nested_len,
            NvgpuMsgHdr::at(self.wire() + rest) == self.hdr,
    {
        let s = self.wire() + rest;
        self.hdr.round_trip(s.skip(16));
        assert(s =~= self.hdr.wire() + s.skip(16));
        assert(s.subrange(16, 20) =~= le32(self.cmd));
        u32_field(s, 16, self.cmd);
        assert(s.subrange(20, 24) =~= le32(self.data_len));
        u32_field(s, 20, self.data_len);
        assert(s.subrange(24, 28) =~= le32(self.nested_offset));
        u32_field(s, 24, self.nested_offset);
        assert(s.subrange(28, 32) =~= le32(self.nested_len));
        u32_field(s, 28, self.nested_len);
    }
}

/// IOCTL response; `data_len` bytes of parameters and `nested_len` bytes of nested parameters
/// follow.
#[derive(Clone, Copy, Debug, Default)]
pub struct NvgpuIoctlResp {
    pub hdr: NvgpuMsgHdr,
    pub data_len: u32,
    pub nested_len: u32,
}

impl Wire for NvgpuIoctlResp {
    open spec fn wire(&self) -> Seq<u8> {
        self.hdr.wire() + le32(self.data_len) + le32(self.nested_len)
    }

    fn append_to(&self, out: &mut Vec<u8>) {
        self.hdr.append_to(out);
        push_u32(out, self.data_len);
        push_u32(out, self.nested_len);
        assert(out@ =~= old(out)@ + self.wire());
    }
}

impl NvgpuIoctlResp {
    /// The structure that `s` starts with.
    pub open spec fn at(s: Seq<u8>) -> NvgpuIoctlResp {
        NvgpuIoctlResp {
            hdr: NvgpuMsgHdr::at(s),
            data_len: u32_at(s, 16),
            nested_len: u32_at(s, 20),
        }
    }

    /// Reads the structure that `buf` starts with.
    pub fn read(buf: &[u8]) -> (r: Self)
        requires
            buf.len() >= 24,
        ensures
            r == NvgpuIoctlResp::at(buf@),
    {
        NvgpuIoctlResp {
            hdr: NvgpuMsgHdr::read(buf),
            data_len: read_u32(buf, 16),
            nested_len: read_u32(buf, 20),
        }
    }

    /// What is written is read back, each field from its place, whatever follows it.
    pub proof fn round_trip(self, rest: Seq<u8>)
        ensures
            self.wire().len() == 24,
            NvgpuIoctlResp::at(self.wire() + rest) == self,
            u32_at(self.wire() + rest, 16) == self.data_len,
            u32_at(self.wire() + rest, 20) == self.nested_len,
            NvgpuMsgHdr::at(self.wire() + rest) == self.hdr,
    {
        let s = self.wire() + rest;
        self.hdr.round_trip(s.skip(16));
        assert(s =~= self.hdr.wire() + s.skip(16));
        assert(s.subrange(16, 20) =~= le32(self.data_len));
        u32_field(s, 16, self.data_len);
        assert(s.subrange(20, 24) =~= le32(self.nested_len));
        u32_field(s, 20, self.nested_len);
    }
}

/// MMAP request.
#[derive(Clone, Copy, Debug, Default)]
pub struct NvgpuMmapReq {
    pub hdr: NvgpuMsgHdr,
    pub size: u64,
    pub offset: u64,
    pub prot: u32,
    pub padding: u32,
}

impl Wire for NvgpuMmapReq {
    open spec fn wire(&self) -> Seq<u8> {
        self.hdr.wire() + le64(self.size) + le64(self.offset) + le32(self.prot)
            + le32(self.padding)
    }

    fn append_to(&self, out: &mut Vec<u8>) {
        self.hdr.append_to(out);
        push_u64(out, self.size);
        push_u64(out, self.offset);
        push_u32(out, self.prot);
        push_u32(out, self.padding);
        assert(out@ =~= old(out)@ + self.wire());
    }
}

impl NvgpuMmapReq {
    /// The structure that `s` starts with.
    pub open spec fn at(s: Seq<u8>) -> NvgpuMmapReq {
        NvgpuMmapReq {
            hdr: NvgpuMsgHdr::at(s),
            size: u64_at(s, 16),
            offset: u64_at(s, 24),
            prot: u32_at(s, 32),
            padding: u32_at(s, 36),
        }
    }

    /// Reads the structure that `buf` starts with.
    pub fn read(buf: &[u8]) -> (r: Self)
        requires
            buf.len() >= 40,
        ensures
            r == NvgpuMmapReq::at(buf@),
    {
        NvgpuMmapReq {
            hdr: NvgpuMsgHdr::read(buf),
            size: read_u64(buf, 16),
            offset: read_u64(buf, 24),
            prot: read_u32(buf, 32),
            padding: read_u32(buf, 36),
        }
    }

    /// What is written is read back, each field from its place, whatever follows it.
    pub proof fn round_trip(self, rest: Seq<u8>)
        ensures
            self.wire().len() == 40,
            NvgpuMmapReq::at(self.wire() + rest) == self,
            u64_at(self.wire() + rest, 16) == self.size,
            u64_at(self.wire() + rest, 24) == self.offset,
            u32_at(self.wire() + rest, 32) == self.prot,
            u32_at(self.wire() + rest, 36) == self.padding,
            NvgpuMsgHdr::at(self.wire() + rest) == self.hdr,
    {
        let s = self.wire() + rest;
        self.hdr.round_trip(s.skip(16));
        assert(s =~= self.hdr.wire() + s.skip(16));
        assert(s.subrange(16, 24) =~= le64(self.size));
        u64_field(s, 16, self.size);
        assert(s.subrange(24, 32) =~= le64(self.offset));
        u64_field(s, 24, self.offset);
        assert(s.subrange(32, 36) =~= le32(self.prot));
        u32_field(s, 32, self.prot);
        assert(s.subrange(36, 40) =~= le32(self.padding));
        u32_field(s, 36, self.padding);
    }
}

/// MMAP response.
#[derive(Clone, Copy, Debug, Default)]
pub struct NvgpuMmapResp {
    pub hdr: NvgpuMsgHdr,
    pub guest_phys_addr: u64,
    pub size: u64,
    pub mapping_id: u32,
    pub padding: u32,
}

impl Wire for NvgpuMmapResp {
    open spec fn wire(&self) -> Seq<u8> {
        self.hdr.wire() + le64(self.guest_phys_addr) + le64(self.size) + le32(self.mapping_id)
            + le32(self.padding)
    }

    fn append_to(&self, out: &mut Vec<u8>) {
        self.hdr.append_to(out);
        push_u64(out, self.guest_phys_addr);
        push_u64(out, self.size);
        push_u32(out, self.mapping_id);
        push_u32(out, self.padding);
        assert(out@ =~= old(out)@ + self.wire());
    }
}

impl NvgpuMmapResp {
    /// The structure that `s` starts with.
    pub open spec fn at(s: Seq<u8>) -> NvgpuMmapResp {
        NvgpuMmapResp {
            hdr: NvgpuMsgHdr::at(s),
            guest_phys_addr: u64_at(s, 16),
            size: u64_at(s, 24),
            mapping_id: u32_at(s, 32),
            padding: u32_at(s, 36),
        }
    }

    /// Reads the structure that `buf` starts with.
    pub fn read(buf: &[u8]) -> (r: Self)
        requires
            buf.len() >= 40,
        ensures
            r == NvgpuMmapResp::at(buf@),
    {
        NvgpuMmapResp {
            hdr: NvgpuMsgHdr::read(buf),
            guest_phys_addr: read_u64(buf, 16),
            size: read_u64(buf, 24),
            mapping_id: read_u32(buf, 32),
            padding: read_u32(buf, 36),
        }
    }

    /// What is written is read back, each field from its place, whatever follows it.
    pub proof fn round_trip(self, rest: Seq<u8>)
        ensures
            self.wire().len() == 40,
            NvgpuMmapResp::at(self.wire() + rest) == self,
            u64_at(self.wire() + rest, 16) == self.guest_phys_addr,
            u64_at(self.wire() + rest, 24) == self.size,
            u32_at(self.wire() + rest, 32) == self.mapping_id,
            u32_at(self.wire() + rest, 36) == self.padding,
            NvgpuMsgHdr::at(self.wire() + rest) == self.hdr,
    {
        let s = self.wire() + rest;
        self.hdr.round_trip(s.skip(16));
        assert(s =~= self.hdr.wire() + s.skip(16));
        assert(s.subrange(16, 24) =~= le64(self.guest_phys_addr));
        u64_field(s, 16, self.guest_phys_addr);
        assert(s.subrange(24, 32) =~= le64(self.size));
        u64_field(s, 24, self.size);
        assert(s.subrange(32, 36) =~= le32(self.mapping_id));
        u32_field(s, 32, self.mapping_id);
        assert(s.subrange(36, 40) =~= le32(self.padding));
        u32_field(s, 36, self.padding);
    }
}

/// MUNMAP request.
#[derive(Clone, Copy, Debug, Default)]
pub struct NvgpuMunmapReq {
    pub hdr: NvgpuMsgHdr,
    pub mapping_id: u32,
    pub padding: u32,
}

impl Wire for NvgpuMunmapReq {
    open spec fn wire(&self) -> Seq<u8> {
        self.hdr.wire() + le32(self.mapping_id) + le32(self.padding)
    }

    fn append_to(&self, out: &mut Vec<u8>) {
        self.hdr.append_to(out);
        push_u32(out, self.mapping_id);
        push_u32(out, self.padding);
        assert(out@ =~= old(out)@ + self.wire());
    }
}

impl NvgpuMunmapReq {
    /// The structure that `s` starts with.
    pub open spec fn at(s: Seq<u8>) -> NvgpuMunmapReq {
        NvgpuMunmapReq {
            hdr: NvgpuMsgHdr::at(s),
            mapping_id: u32_at(s, 16),
            padding: u32_at(s, 20),
        }
    }

    /// Reads the structure that `buf` starts with.
    pub fn read(buf: &[u8]) -> (r: Self)
        requires
            buf.len() >= 24,
        ensures
            r == NvgpuMunmapReq::at(buf@),
    {
        NvgpuMunmapReq {
            hdr: NvgpuMsgHdr::read(buf),
            mapping_id: read_u32(buf, 16),
            padding: read_u32(buf, 20),
        }
    }

    /// What is written is read back, each field from its place, whatever follows it.
    pub proof fn round_trip(self, rest: Seq<u8>)
        ensures
            self.wire().len() == 24,
            NvgpuMunmapReq::at(self.wire() + rest) == self,
            u32_at(self.wire() + rest, 16) == self.mapping_id,
            u32_at(self.wire() + rest, 20) == self.padding,
            NvgpuMsgHdr::at(self.wire() + rest) == self.hdr,
    {
        let s = self.wire() + rest;
        self.hdr.round_trip(s.skip(16));
        assert(s =~= self.hdr.wire() + s.skip(16));
        assert(s.subrange(16, 20) =~= le32(self.mapping_id));
        u32_field(s, 16, self.mapping_id);
        assert(s.subrange(20, 24) =~= le32(self.padding));
        u32_field(s, 20, self.padding);
    }
}

/// The number of a Linux ioctl command word: its lowest byte.
pub open spec fn nr_of(cmd: u32) -> u32 {
    cmd % 256
}

/// The number of a Linux ioctl command word: its lowest byte.
pub fn ioc_nr(cmd: u32) -> (r: u32)
    ensures
        r == nr_of(cmd),
{
    assert(cmd & 0xFF == cmd % 256) by (bit_vector);
    cmd & 0xFF
}

} // verus!
