//! What the bytes of a request ask for, and what the bytes of a response tell.
//!
//! The laws here speak of bytes and numbers alone: of where in a request something stands, of what
//! the host is asked for, and of where in a response the guest finds it.

use vstd::prelude::*;
use vstd::utf8::encode_utf8;

use crate::bytes::{
    bits_of, field_of_part, group_field_lengths, le32, le64, signed, signed_round_trip, u32_at,
    u32_field, u64_at, u64_at_round_trip, u64_field,
};
use crate::gpu_nv::allowlist::first_entry;
use crate::gpu_nv::files::{
    devices_read_back, dri_list, file_list, files_read_back, proc_files, read_dri, read_files,
    sys_files,
};
use crate::gpu_nv::laws::whole_mmap;
use crate::gpu_nv::model::{closed, header_reply, mapped, opened, processed, slotted, WorkerView};
use crate::gpu_nv::step::{
    failure, negatable, GpuMapping, HostAction, IoctlCallView, IoctlPlan, MmapCall, StepView,
};
use crate::gpu_nv::wire::{NvgpuMsgHdr, Wire};
use crate::text::{dec, dec_is_digits, dec_reads_back, number};

verus! {

broadcast use group_field_lengths;

/// The response starts with this type, handle and status, and a zero word: four bytes each.
pub open spec fn starts_with_header(r: Seq<u8>, msg_type: int, handle: int, status: int) -> bool {
    &&& r.len() >= 16
    &&& u32_at(r, 0) == msg_type
    &&& u32_at(r, 4) == handle
    &&& signed(u32_at(r, 8)) == status
    &&& u32_at(r, 12) == 0
}

/// The request is answered with a header alone, and nothing else happens.
pub open spec fn only_answers(step: StepView, msg_type: int, handle: int, status: int) -> bool {
    &&& step is Done
    &&& step->reply.len() == 16
    &&& starts_with_header(step->reply, msg_type, handle, status)
    &&& step->actions.len() == 0
}

/// The bytes of a header are where they belong.
proof fn header_bytes(msg_type: u32, handle: u32, status: i32, rest: Seq<u8>)
    ensures
        ({
            let w = NvgpuMsgHdr { msg_type, handle, status, padding: 0 }.wire();
            &&& w.len() == 16
            &&& header_reply(msg_type, handle, status) == w
            &&& starts_with_header(w, msg_type as int, handle as int, status as int)
            &&& starts_with_header(w + rest, msg_type as int, handle as int, status as int)
        }),
{
    let w = NvgpuMsgHdr { msg_type, handle, status, padding: 0 }.wire();
    signed_round_trip(status, 0);
    assert(w.subrange(0, 4) =~= le32(msg_type));
    assert(w.subrange(4, 8) =~= le32(handle));
    assert(w.subrange(8, 12) =~= le32(bits_of(status)));
    assert(w.subrange(12, 16) =~= le32(0));
    u32_field(w, 0, msg_type);
    u32_field(w, 4, handle);
    u32_field(w, 8, bits_of(status));
    u32_field(w, 12, 0);
    let v = w + rest;
    assert(v.subrange(0, 16) =~= w);
    field_of_part(v, 0, 16, 0);
    field_of_part(v, 0, 16, 4);
    field_of_part(v, 0, 16, 8);
    field_of_part(v, 0, 16, 12);
}

/// A failed call of the host is answered with the negated error number, or with -5 where the host
/// has none.
pub proof fn failures_are_negated_error_numbers(errno: i32)
    requires
        errno > i32::MIN,
    ensures
        failure(Some(errno)) == -errno,
        failure(None) == -5,
{
}

/// Requests that are too short for a header, or of an unknown type (bytes 0 to 3), are refused:
/// the first with -22, the others with -38 and the handle of the request.  Types 1 to 7 are known.
pub proof fn unknown_requests_are_refused(s: WorkerView, req: Seq<u8>)
    requires
        req.len() < 16 || u32_at(req, 0) == 0 || u32_at(req, 0) > 7,
    ensures
        processed(s, req).0 == s,
        req.len() < 16 ==> only_answers(processed(s, req).1, 0, 0, -22),
        req.len() >= 16 ==> only_answers(processed(s, req).1, 0, u32_at(req, 4) as int, -38),
{
    header_bytes(0, 0, -22i32, Seq::empty());
    header_bytes(0, u32_at(req, 4), -38i32, Seq::empty());
}

// OPEN and CLOSE.

/// A text is the decimal form of a number: digits only, no zero before others.
pub open spec fn is_decimal(text: Seq<char>, n: int) -> bool {
    &&& text.len() >= 1
    &&& text.len() > 1 ==> text[0] != '0'
    &&& forall|i: int| 0 <= i < text.len() ==> '0' <= #[trigger] text[i] <= '9'
    &&& number(text, 10) == Some(n as nat)
}

/// Decimal forms have no zero before other digits.
proof fn dec_is_decimal(n: nat)
    ensures
        is_decimal(dec(n), n as int),
        n > 0 ==> dec(n)[0] != '0',
    decreases n,
{
    dec_is_digits(n);
    dec_reads_back(n);
    if n >= 10 {
        dec_is_decimal(n / 10);
        dec_is_digits(n / 10);
    }
}

/// OPEN (type 1) asks the host for the file of the device type at byte 16: types up to 247 are
/// GPUs, 255 to 258 are the control device, unified memory, its tools and mode setting, and types
/// from 512 on are the DRI devices of the configuration, in order.  The guest's word for a type
/// goes with the request.  All other types are refused.
pub proof fn open_opens_the_device_asked_for(s: WorkerView, req: Seq<u8>)
    requires
        req.len() >= 16,
        u32_at(req, 0) == 1,
    ensures
        ({
            let (t, step) = processed(s, req);
            let kind = u32_at(req, 16);
            let path = step->path;
            let dri = s.config.dri_devices@;
            &&& t == s
            &&& if req.len() < 24 {
                only_answers(step, 0, 0, -22)
            } else if 248 <= kind <= 254 || 259 <= kind <= 511 {
                only_answers(step, 0, 0, -22)
            } else if kind >= 512 + dri.len() {
                only_answers(step, 0, 0, -19)
            } else {
                &&& step is Open
                &&& step->Open_device_type == kind
                &&& kind <= 247 ==> "/dev/nvidia"@.is_prefix_of(path) && is_decimal(
                    path.skip(11),
                    kind as int,
                )
                &&& kind == 255 ==> path == "/dev/nvidiactl"@
                &&& kind == 256 ==> path == "/dev/nvidia-uvm"@
                &&& kind == 257 ==> path == "/dev/nvidia-uvm-tools"@
                &&& kind == 258 ==> path == "/dev/nvidia-modeset"@
                &&& kind >= 512 ==> "/dev/dri/"@.is_prefix_of(path) && path.skip(9) == dri[kind
                    - 512].name@
            }
        }),
{
    header_bytes(0, 0, -22i32, Seq::empty());
    header_bytes(0, 0, -19i32, Seq::empty());
    reveal_strlit("/dev/nvidia");
    reveal_strlit("/dev/dri/");
    let kind = u32_at(req, 16);
    let dri = s.config.dri_devices@;
    if kind <= 247 {
        let d = dec(kind as nat);
        dec_is_decimal(kind as nat);
        let path = "/dev/nvidia"@ + d;
        assert(path.skip(11) =~= d);
        assert("/dev/nvidia"@ =~= path.subrange(0, 11));
    } else if kind >= 512 && kind - 512 < dri.len() {
        let name = dri[kind - 512].name@;
        let path = "/dev/dri/"@ + name;
        assert(path.skip(9) =~= name);
        assert("/dev/dri/"@ =~= path.subrange(0, 9));
    }
}

/// A file that the host opened gets the next handle, with the descriptor and the device type, and
/// no other handle changes.  The response (type 1, status zero) tells the handle.  A file that
/// could not be opened changes nothing.
pub proof fn opened_files_get_the_next_handle(
    s: WorkerView,
    device_type: u32,
    fd: i32,
    errno: Option<i32>,
    other: u32,
)
    requires
        s.wf(),
        s.next_handle < u32::MAX,
        other != s.next_handle,
    ensures
        ({
            let (t, step) = opened(s, device_type, Ok(fd));
            &&& only_answers(step, 1, s.next_handle as int, 0)
            &&& t.fds.contains_key(s.next_handle)
            &&& t.fds[s.next_handle].fd == fd
            &&& t.fds[s.next_handle].device_type == device_type
            &&& t.fds[s.next_handle].mapping_ids.len() == 0
            &&& t.fds.contains_key(other) == s.fds.contains_key(other)
            &&& s.fds.contains_key(other) ==> t.fds[other] == s.fds[other]
            &&& t.next_handle == s.next_handle + 1
            &&& t == WorkerView { fds: t.fds, next_handle: t.next_handle, ..s }
        }),
        ({
            let (t, step) = opened(s, device_type, Err(errno));
            &&& t == s
            &&& only_answers(step, 0, 0, failure(errno) as int)
        }),
{
    header_bytes(1, s.next_handle, 0, Seq::empty());
    header_bytes(0, 0, failure(errno), Seq::empty());
}

/// CLOSE (type 2) closes the handle at byte 4, and is answered with type 2, that handle and status
/// zero.
pub proof fn close_closes_the_handle_asked_for(s: WorkerView, req: Seq<u8>)
    requires
        req.len() >= 16,
        u32_at(req, 0) == 2,
    ensures
        processed(s, req) == closed(s, u32_at(req, 4)),
        processed(s, req).1 is Done,
        processed(s, req).1->reply.len() == 16,
        starts_with_header(processed(s, req).1->reply, 2, u32_at(req, 4) as int, 0),
        !processed(s, req).0.fds.contains_key(u32_at(req, 4)),
{
    header_bytes(2, u32_at(req, 4), 0, Seq::empty());
}

/// What ends a mapping: first its slot is set to no memory, where it is in the guest, and then the
/// host's memory is unmapped, all of it.  The slot is the one that was set for it.
pub proof fn release_undoes_the_mapping(m: GpuMapping)
    ensures
        m.release().len() == 2,
        m.release()[0] matches HostAction::SetRegion(r) && {
            &&& r.slot == m.spec_region().slot
            &&& r.guest_phys_addr == m.spec_region().guest_phys_addr
            &&& r.memory_size == 0
            &&& r.userspace_addr == 0
            &&& r.flags == 0
        },
        m.release()[1] == (HostAction::Munmap {
            addr: m.spec_region().userspace_addr,
            size: m.spec_region().memory_size,
        }),
        m.spec_region().slot == m.kvm_slot,
        m.spec_region().flags == 0,
        m.spec_region().guest_phys_addr == m.guest_phys_addr,
        m.spec_region().memory_size == m.size,
        m.spec_region().userspace_addr == m.host_ptr,
{
}

/// MUNMAP (type 5) ends the mapping whose id is at byte 16, and no other, and is answered with type
/// 5, the handle at byte 4 and status zero.
pub proof fn munmap_ends_the_mapping_asked_for(s: WorkerView, req: Seq<u8>, other: u32)
    requires
        req.len() >= 16,
        u32_at(req, 0) == 5,
        other != u32_at(req, 16),
    ensures
        req.len() < 24 ==> processed(s, req).0 == s && only_answers(
            processed(s, req).1,
            0,
            0,
            -22,
        ),
        req.len() >= 24 ==> {
            let (t, step) = processed(s, req);
            let id = u32_at(req, 16);
            &&& !t.mappings.contains_key(id)
            &&& t.mappings.contains_key(other) == s.mappings.contains_key(other)
            &&& s.mappings.contains_key(other) ==> t.mappings[other] == s.mappings[other]
            &&& t == WorkerView { mappings: t.mappings, ..s }
            &&& step is Done
            &&& step->reply.len() == 16
            &&& starts_with_header(step->reply, 5, u32_at(req, 4) as int, 0)
            &&& s.mappings.contains_key(id) ==> step->actions == s.mappings[id].release()
            &&& !s.mappings.contains_key(id) ==> step->actions.len() == 0
        },
{
    header_bytes(0, 0, -22i32, Seq::empty());
    header_bytes(5, u32_at(req, 4), 0, Seq::empty());
}

// MMAP.

/// MMAP (type 4) asks the host to map the file of the handle at byte 4: so many bytes as the eight
/// bytes from byte 16 on state, at exactly the offset that the eight bytes from byte 24 on state.
/// Requests that are too short are refused with -22, handles that are not open with -9.
pub proof fn mmap_maps_what_was_asked_for(s: WorkerView, req: Seq<u8>)
    requires
        req.len() >= 16,
        u32_at(req, 0) == 4,
    ensures
        ({
            let (t, step) = processed(s, req);
            let handle = u32_at(req, 4);
            &&& t == s
            &&& if req.len() < 40 {
                only_answers(step, 0, 0, -22)
            } else if !s.fds.contains_key(handle) {
                only_answers(step, 0, handle as int, -9)
            } else {
                &&& step is Mmap
                &&& step->Mmap_0.handle == handle
                &&& step->Mmap_0.fd == s.fds[handle].fd
                &&& step->Mmap_0.size == u64_at(req, 16)
                &&& step->Mmap_0.offset == u64_at(req, 24)
            }
        }),
{
    header_bytes(0, 0, -22i32, Seq::empty());
    header_bytes(0, u32_at(req, 4), -9i32, Seq::empty());
}

/// Two MMAP requests that differ in the offset alone ask the host for different memory.
pub proof fn different_offsets_map_different_memory(s: WorkerView, a: Seq<u8>, b: Seq<u8>)
    requires
        a.len() >= 40,
        b.len() >= 40,
        u32_at(a, 0) == 4,
        u32_at(b, 0) == 4,
        s.fds.contains_key(u32_at(a, 4)),
        s.fds.contains_key(u32_at(b, 4)),
        u64_at(a, 24) != u64_at(b, 24),
    ensures
        processed(s, a).1 != processed(s, b).1,
{
    mmap_maps_what_was_asked_for(s, a);
    mmap_maps_what_was_asked_for(s, b);
}

/// Memory that the host mapped at `addr` goes to the first page boundary of the window that was not
/// handed out, through the next memory slot: the slot leads from there to `addr`, for as many bytes
/// as were mapped.
pub proof fn mapped_memory_goes_to_the_next_page(
    s: WorkerView,
    call: MmapCall,
    addr: u64,
    page: int,
)
    requires
        s.wf(),
        s.placeable(call.size),
        page % 4096 == 0,
        s.mmio.next <= page < s.mmio.next + 4096,
    ensures
        ({
            let (t, step) = mapped(s, call, Ok(addr));
            if page + call.size > s.mmio.limit {
                &&& t == s
                &&& step is Done
                &&& step->reply.len() == 16
                &&& starts_with_header(step->reply, 0, call.handle as int, -12)
                &&& step->actions == seq![HostAction::Munmap { addr, size: call.size }]
            } else {
                &&& step is SetRegion
                &&& step->SetRegion_0.slot == s.next_kvm_slot
                &&& step->SetRegion_0.flags == 0
                &&& step->SetRegion_0.guest_phys_addr == page
                &&& step->SetRegion_0.memory_size == call.size
                &&& step->SetRegion_0.userspace_addr == addr
                &&& t.mmio.next == page + call.size
                &&& t.mmio.base == s.mmio.base && t.mmio.limit == s.mmio.limit
                &&& t.next_kvm_slot == s.next_kvm_slot + 1
                &&& t.pending is Some
                &&& t.pending->0.host_fd_handle == call.handle
                &&& t.pending->0.spec_region() == step->SetRegion_0
                &&& t == WorkerView {
                    mmio: t.mmio,
                    next_kvm_slot: t.next_kvm_slot,
                    pending: t.pending,
                    ..s
                }
            }
        }),
{
    header_bytes(0, call.handle, -12i32, Seq::empty());
}

/// Memory that the host could not map changes nothing, and is answered with the host's error.
pub proof fn unmapped_memory_is_reported(s: WorkerView, call: MmapCall, errno: Option<i32>)
    ensures
        mapped(s, call, Err(errno)).0 == s,
        only_answers(
            mapped(s, call, Err(errno)).1,
            0,
            call.handle as int,
            failure(errno) as int,
        ),
{
    header_bytes(0, call.handle, failure(errno), Seq::empty());
}

/// The response to an MMAP that went well is 40 bytes: the header (type 4, the handle, status
/// zero), at byte 16 the address in the guest, at byte 24 the size, and at byte 32 the id.  Where
/// the slot could not be set, the response is a header with -5, and the memory is unmapped.
pub proof fn mmap_responses_tell_the_place(s: WorkerView, m: GpuMapping)
    requires
        s.next_mapping_id < u32::MAX,
    ensures
        ({
            let (t, step) = slotted(s, m, true);
            let r = step->reply;
            &&& step is Done
            &&& step->actions.len() == 0
            &&& r.len() == 40
            &&& starts_with_header(r, 4, m.host_fd_handle as int, 0)
            &&& u64_at(r, 16) == m.guest_phys_addr
            &&& u64_at(r, 24) == m.size
            &&& u32_at(r, 32) == s.next_mapping_id
            &&& u32_at(r, 36) == 0
            &&& t.mappings.contains_key(u32_at(r, 32))
            &&& t.mappings[u32_at(r, 32)] == m
            &&& t.next_mapping_id == s.next_mapping_id + 1
            &&& t.fds[m.host_fd_handle].mapping_ids == s.fds[m.host_fd_handle].mapping_ids.push(
                u32_at(r, 32),
            )
            &&& t.pending is None
        }),
        ({
            let (t, step) = slotted(s, m, false);
            &&& step is Done
            &&& step->reply.len() == 16
            &&& starts_with_header(step->reply, 0, m.host_fd_handle as int, -5)
            &&& step->actions == seq![HostAction::Munmap { addr: m.host_ptr, size: m.size }]
            &&& t == WorkerView { pending: None, ..s }
        }),
{
    let r = slotted(s, m, true).1->reply;
    header_bytes(0, m.host_fd_handle, -5i32, Seq::empty());
    header_bytes(4, m.host_fd_handle, 0, r.skip(16));
    let w = NvgpuMsgHdr {
        msg_type: 4,
        handle: m.host_fd_handle,
        status: 0,
        padding: 0,
    }.wire();
    assert(r =~= w + r.skip(16));
    assert(r.subrange(16, 24) =~= le64(m.guest_phys_addr));
    assert(r.subrange(24, 32) =~= le64(m.size));
    assert(r.subrange(32, 36) =~= le32(s.next_mapping_id));
    assert(r.subrange(36, 40) =~= le32(0));
    u64_field(r, 16, m.guest_phys_addr);
    u64_field(r, 24, m.size);
    u32_field(r, 32, s.next_mapping_id);
    u32_field(r, 36, 0);
}

/// All of an MMAP that goes well, from the request's bytes to the response's: the guest learns the
/// address, the size that it asked for, and the id.
pub proof fn mmap_answers_what_was_asked_for(s: WorkerView, req: Seq<u8>, addr: u64)
    requires
        s.wf(),
        s.pending is None,
        req.len() >= 40,
        s.fds.contains_key(u32_at(req, 4)),
        s.placeable(u64_at(req, 16)),
        s.mmio.has_room(u64_at(req, 16)),
        s.next_mapping_id < u32::MAX,
    ensures
        ({
            let (t, step) = whole_mmap(s, req, Ok(addr), true);
            let r = step->reply;
            let id = u32_at(r, 32);
            &&& r.len() == 40
            &&& starts_with_header(r, 4, u32_at(req, 4) as int, 0)
            &&& u64_at(r, 24) == u64_at(req, 16)
            &&& t.mappings.contains_key(id)
            &&& t.mappings[id].guest_phys_addr == u64_at(r, 16)
            &&& t.mappings[id].host_ptr == addr
            &&& t.mappings[id].size == u64_at(req, 16)
        }),
{
    let call = MmapCall {
        handle: u32_at(req, 4),
        fd: s.fds[u32_at(req, 4)].fd,
        size: u64_at(req, 16),
        offset: u64_at(req, 24),
    };
    let mid = mapped(s, call, Ok(addr)).0;
    mmap_responses_tell_the_place(mid, mid.pending->0);
}

// IOCTL.

/// An IOCTL request (type 3): the handle is at byte 4, the command at byte 16, the number of
/// parameter bytes at byte 20, where nested parameters start at byte 24 and how many there are at
/// byte 28.  The parameters start at byte 32, and nested parameters are counted from there.
pub open spec fn is_ioctl(req: Seq<u8>) -> bool {
    req.len() >= 32 && u32_at(req, 0) == 3
}

/// All that the request states lies within it.
pub open spec fn ioctl_fits(req: Seq<u8>) -> bool {
    &&& 32 + u32_at(req, 20) <= req.len()
    &&& 32 + u32_at(req, 24) + u32_at(req, 28) <= req.len()
}

/// The number of the command, its lowest byte, is allowed on the device of the handle: unified
/// memory (device type 256) has a list of its own.
pub open spec fn ioctl_allowed(s: WorkerView, req: Seq<u8>) -> bool {
    let handle = u32_at(req, 4);
    let nr = (u32_at(req, 16) % 256) as u32;
    if s.fds.contains_key(handle) && s.fds[handle].device_type == 256 {
        s.uvm.contains(nr)
    } else {
        s.allowed.contains(nr)
    }
}

/// The host makes the guest's command on the file of the guest's handle.
pub open spec fn forwards(s: WorkerView, req: Seq<u8>, step: StepView) -> bool {
    &&& step is Ioctl
    &&& step->Ioctl_0.handle == u32_at(req, 4)
    &&& step->Ioctl_0.fd == s.fds[u32_at(req, 4)].fd
    &&& step->Ioctl_0.cmd == u32_at(req, 16)
}

/// An ioctl is refused, in this order: with -22 if it is too short, with -25 if it is not allowed,
/// with -22 if its lengths do not fit, and with -9 if its handle is not open and its number has no
/// handle in its parameters.
pub proof fn ioctls_are_refused_in_order(s: WorkerView, req: Seq<u8>)
    requires
        req.len() >= 16,
        u32_at(req, 0) == 3,
    ensures
        ({
            let (t, step) = processed(s, req);
            let handle = u32_at(req, 4);
            &&& t == s
            &&& req.len() < 32 ==> only_answers(step, 0, 0, -22)
            &&& req.len() >= 32 && !ioctl_allowed(s, req) ==> only_answers(
                step,
                0,
                handle as int,
                -25,
            )
            &&& req.len() >= 32 && ioctl_allowed(s, req) && !ioctl_fits(req) ==> only_answers(
                step,
                0,
                handle as int,
                -22,
            )
            &&& req.len() >= 32 && ioctl_allowed(s, req) && ioctl_fits(req) && !s.fds.contains_key(
                handle,
            ) && u32_at(req, 16) % 256 != 0xc9 ==> only_answers(step, 0, handle as int, -9)
        }),
{
    let handle = u32_at(req, 4);
    reveal_with_fuel(first_entry, 2);
    header_bytes(0, 0, -22i32, Seq::empty());
    header_bytes(0, handle, -25i32, Seq::empty());
    header_bytes(0, handle, -22i32, Seq::empty());
    header_bytes(0, handle, -9i32, Seq::empty());
}

/// An allowed ioctl that fits, on an open handle, and whose number is none of 0x2A, 0x2B and 0xC9,
/// reaches the host with exactly the parameters that the guest sent.
pub proof fn plain_parameters_are_forwarded_verbatim(s: WorkerView, req: Seq<u8>)
    requires
        is_ioctl(req),
        ioctl_allowed(s, req),
        ioctl_fits(req),
        s.fds.contains_key(u32_at(req, 4)),
        ({
            let nr = u32_at(req, 16) % 256;
            nr != 0x2A && nr != 0x2B && nr != 0xC9
        }),
    ensures
        ({
            let step = processed(s, req).1;
            &&& forwards(s, req, step)
            &&& step->Ioctl_0.data == req.subrange(32, 32 + u32_at(req, 20))
            &&& step->Ioctl_0.nested.len() == 0
            &&& step->Ioctl_0.plan is Simple
        }),
{
    reveal_with_fuel(first_entry, 2);
}

/// Number 0xC9 has the handle of another file in its first four parameter bytes.  With fewer bytes
/// it is refused with -22, and where that handle, or its own, is not open, with -9.  Otherwise the
/// host finds its own descriptor there, and all other bytes as the guest sent them.
pub proof fn registered_handles_are_translated(s: WorkerView, req: Seq<u8>)
    requires
        is_ioctl(req),
        ioctl_allowed(s, req),
        ioctl_fits(req),
        u32_at(req, 16) % 256 == 0xC9,
    ensures
        ({
            let step = processed(s, req).1;
            let handle = u32_at(req, 4);
            let n = u32_at(req, 20);
            let other = u32_at(req, 32);
            if n < 4 {
                only_answers(step, 0, handle as int, -22)
            } else if !s.fds.contains_key(other) || !s.fds.contains_key(handle) {
                only_answers(step, 0, handle as int, -9)
            } else {
                let data = step->Ioctl_0.data;
                &&& forwards(s, req, step)
                &&& data.len() == n
                &&& signed(u32_at(data, 0)) == s.fds[other].fd
                &&& forall|i: int| 4 <= i < n ==> data[i] == req[32 + i]
                &&& step->Ioctl_0.nested.len() == 0
                &&& step->Ioctl_0.plan is Simple
            }
        }),
{
    reveal_with_fuel(first_entry, 2);
    let handle = u32_at(req, 4);
    let n = u32_at(req, 20);
    header_bytes(0, handle, -22i32, Seq::empty());
    header_bytes(0, handle, -9i32, Seq::empty());
    if n >= 4 {
        field_of_part(req, 32, 32 + n, 0);
        let other = u32_at(req, 32);
        if s.fds.contains_key(other) && s.fds.contains_key(handle) {
            let data = processed(s, req).1->Ioctl_0.data;
            let bits = bits_of(s.fds[other].fd);
            assert(data.subrange(0, 4) =~= le32(bits));
            u32_field(data, 0, bits);
            signed_round_trip(s.fds[other].fd, 0);
        }
    }
}

/// Numbers 0x2A and 0x2B point at nested parameters, from byte 16 of their own on.  With fewer than
/// 24 bytes they are refused with -22.  Otherwise the host gets the guest's bytes, with zero in
/// place of that pointer, and for 0x2B also of the eight bytes after it, if there are so many; and
/// exactly the nested bytes that the guest sent.
pub proof fn nested_parameters_reach_the_host(s: WorkerView, req: Seq<u8>)
    requires
        is_ioctl(req),
        ioctl_allowed(s, req),
        ioctl_fits(req),
        u32_at(req, 16) % 256 == 0x2A || u32_at(req, 16) % 256 == 0x2B,
        s.fds.contains_key(u32_at(req, 4)),
    ensures
        ({
            let step = processed(s, req).1;
            let n = u32_at(req, 20);
            let from = 32 + u32_at(req, 24);
            let rights = u32_at(req, 16) % 256 == 0x2B && n >= 32;
            if n < 24 {
                only_answers(step, 0, u32_at(req, 4) as int, -22)
            } else {
                let data = step->Ioctl_0.data;
                &&& forwards(s, req, step)
                &&& data.len() == n
                &&& forall|i: int| 0 <= i < 16 ==> data[i] == req[32 + i]
                &&& forall|i: int| 16 <= i < 24 ==> data[i] == 0
                &&& forall|i: int|
                    24 <= i < 32 && i < n ==> data[i] == if rights {
                        0
                    } else {
                        req[32 + i]
                    }
                &&& forall|i: int| 32 <= i < n ==> data[i] == req[32 + i]
                &&& step->Ioctl_0.nested == req.subrange(from, from + u32_at(req, 28))
                &&& step->Ioctl_0.plan == (IoctlPlan::Complex { guest_ptr: u64_at(req, 48) })
            }
        }),
{
    let n = u32_at(req, 20);
    let from = 32 + u32_at(req, 24);
    header_bytes(0, u32_at(req, 4), -22i32, Seq::empty());
    assert(u32_at(req, 28) == 0 ==> req.subrange(from, from + u32_at(req, 28))
        =~= Seq::<u8>::empty());
    if n >= 24 {
        field_of_part(req, 32, 32 + n, 16);
    }
}

/// Before the host makes an ioctl with nested parameters, it finds their address at byte 16 of its
/// argument; all other bytes stay.
pub proof fn nested_address_is_at_byte_16(call: IoctlCallView, addr: u64, i: int)
    requires
        call.wf(),
        0 <= i < call.data.len(),
    ensures
        ({
            let there = call.pointed_at(addr);
            let points = call.plan is Complex && call.nested.len() > 0;
            &&& points ==> u64_at(there.data, 16) == addr
            &&& !points || !(16 <= i < 24) ==> there.data[i] == call.data[i]
            &&& there.data.len() == call.data.len()
            &&& there == IoctlCallView { data: there.data, ..call }
        }),
{
    let there = call.pointed_at(addr);
    if call.plan is Complex && call.nested.len() > 0 {
        assert(there.data.subrange(16, 24) =~= le64(addr));
        u64_field(there.data, 16, addr);
    }
}

/// The response to an ioctl: type 3, the handle, and as status what the host returned, or its
/// negated error where that is negative; at byte 16 the number of parameter bytes, at byte 20 that
/// of nested ones; then both.
///
/// A plain ioctl for which the host returned zero or more gives back all of its parameters as the
/// host left them, and none if the host returned less.  One with nested parameters gives back both
/// buffers as the host left them, whatever it returned, with the guest's pointer at byte 16.
pub proof fn ioctl_responses_carry_what_the_host_left(
    call: IoctlCallView,
    ret: i32,
    errno: Option<i32>,
)
    requires
        call.wf(),
    ensures
        ({
            let r = call.reply(ret, errno);
            let back = u32_at(r, 16) as int;
            &&& starts_with_header(
                r,
                3,
                call.handle as int,
                if ret >= 0 {
                    ret as int
                } else if errno is Some {
                    failure(errno) as int
                } else {
                    -5
                },
            )
            &&& u32_at(r, 20) == call.nested.len()
            &&& r.len() == 24 + back + call.nested.len()
            &&& r.subrange(24 + back, r.len() as int) == call.nested
            &&& call.plan is Simple && ret < 0 ==> back == 0
            &&& call.plan is Simple && ret >= 0 ==> {
                &&& back == call.data.len()
                &&& r.subrange(24, 24 + back) == call.data
            }
            &&& call.plan is Complex ==> {
                &&& back == call.data.len()
                &&& u64_at(r, 40) == call.plan->guest_ptr
                &&& forall|i: int|
                    0 <= i < back && !(16 <= i < 24) ==> r[24 + i] == call.data[i]
            }
        }),
{
    let r = call.reply(ret, errno);
    let status = if ret >= 0 {
        ret
    } else {
        failure(errno)
    };
    let data = call.returned(ret);
    let w = NvgpuMsgHdr { msg_type: 3, handle: call.handle, status, padding: 0 }.wire();
    header_bytes(3, call.handle, status, r.skip(16));
    assert(r =~= w + r.skip(16));
    assert(r.subrange(16, 20) =~= le32(data.len() as u32));
    assert(r.subrange(20, 24) =~= le32(call.nested.len() as u32));
    u32_field(r, 16, data.len() as u32);
    u32_field(r, 20, call.nested.len() as u32);
    let back = data.len() as int;
    assert(r.subrange(24, 24 + back) =~= data);
    assert(r.subrange(24 + back, r.len() as int) =~= call.nested);
    match call.plan {
        IoctlPlan::Simple => {},
        IoctlPlan::Complex { guest_ptr } => {
            assert(r.subrange(40, 48) =~= le64(guest_ptr));
            u64_field(r, 40, guest_ptr);
        },
    }
}

/// All of an ioctl with nested parameters: whatever the host writes, bytes 40 to 47 of the response
/// are bytes 48 to 55 of the request, which is the guest's pointer in both.
pub proof fn pointers_come_back_to_the_guest(
    s: WorkerView,
    req: Seq<u8>,
    addr: u64,
    after: IoctlCallView,
    ret: i32,
    errno: Option<i32>,
)
    requires
        is_ioctl(req),
        ioctl_allowed(s, req),
        ioctl_fits(req),
        u32_at(req, 16) % 256 == 0x2A || u32_at(req, 16) % 256 == 0x2B,
        s.fds.contains_key(u32_at(req, 4)),
        u32_at(req, 20) >= 24,
        after.wf(),
        processed(s, req).1->Ioctl_0.pointed_at(addr).served(after),
    ensures
        after.reply(ret, errno).subrange(40, 48) == req.subrange(48, 56),
{
    nested_parameters_reach_the_host(s, req);
    ioctl_responses_carry_what_the_host_left(after, ret, errno);
    let r = after.reply(ret, errno);
    u64_at_round_trip(r, 40);
    u64_at_round_trip(req, 48);
}

// Files.

/// The guest reads the response to GET_PROC_FILES (type 6) as exactly as many files as the
/// configuration has, each with its path and content.
pub proof fn proc_files_are_all_sent(s: WorkerView, req: Seq<u8>)
    requires
        req.len() >= 16,
        u32_at(req, 0) == 6,
        forall|i: int|
            0 <= i < s.config.extra_proc@.len() ==> {
                let f = #[trigger] s.config.extra_proc@[i];
                &&& encode_utf8(f.guest_path@).len() < 0x1_0000_0000
                &&& encode_utf8(f.content@).len() < 0x1_0000_0000
                &&& encode_utf8(f.guest_path@).len() + encode_utf8(f.content@).len() > 0
            },
    ensures
        ({
            let (t, step) = processed(s, req);
            let files = s.config.extra_proc@;
            let got = read_files(step->reply);
            &&& t == s
            &&& step is Done
            &&& step->actions.len() == 0
            &&& got is Some
            &&& (got->0).1.len() == 0
            &&& (got->0).0.len() == files.len()
            &&& forall|i: int|
                0 <= i < files.len() ==> {
                    &&& (#[trigger] (got->0).0[i]).0 == encode_utf8(files[i].guest_path@)
                    &&& (got->0).0[i].1 == encode_utf8(files[i].content@)
                }
        }),
{
    let files = proc_files(s.config.extra_proc@);
    assert forall|i: int| 0 <= i < files.len() implies {
        let f = #[trigger] files[i];
        &&& f.0.len() <= u32::MAX
        &&& f.1.len() <= u32::MAX
        &&& f.0.len() + f.1.len() > 0
    } by {
        let f = s.config.extra_proc@[i];
        assert(files[i].0 == encode_utf8(f.guest_path@));
    }
    files_read_back(files, Seq::empty());
    assert(file_list(files) + Seq::<u8>::empty() =~= file_list(files));
}

/// The guest reads the response to GET_SYS_FILES (type 7) as exactly the sysfs files of the
/// configuration, then a count, and then exactly its DRI devices.
pub proof fn sys_files_and_devices_are_all_sent(s: WorkerView, req: Seq<u8>)
    requires
        req.len() >= 16,
        u32_at(req, 0) == 7,
        s.config.dri_devices@.len() < 0x1_0000_0000,
        forall|i: int|
            0 <= i < s.config.dri_devices@.len() ==> encode_utf8(
                (#[trigger] s.config.dri_devices@[i]).name@,
            ).len() < 0x1_0000_0000,
        forall|i: int|
            0 <= i < s.config.sys_files@.len() ==> {
                let f = #[trigger] s.config.sys_files@[i];
                &&& encode_utf8(f.path@).len() < 0x1_0000_0000
                &&& f.content@.len() < 0x1_0000_0000
                &&& encode_utf8(f.path@).len() + f.content@.len() > 0
            },
    ensures
        ({
            let (t, step) = processed(s, req);
            let files = s.config.sys_files@;
            let devices = s.config.dri_devices@;
            let got = read_files(step->reply);
            let rest = (got->0).1;
            let found = read_dri(rest.skip(4), devices.len());
            &&& t == s
            &&& step is Done
            &&& step->actions.len() == 0
            &&& got is Some
            &&& (got->0).0.len() == files.len()
            &&& forall|i: int|
                0 <= i < files.len() ==> {
                    &&& (#[trigger] (got->0).0[i]).0 == encode_utf8(files[i].path@)
                    &&& (got->0).0[i].1 == files[i].content@
                }
            &&& u32_at(rest, 0) == devices.len()
            &&& found is Some
            &&& (found->0).1.len() == 0
            &&& (found->0).0.len() == devices.len()
            &&& forall|i: int|
                0 <= i < devices.len() ==> {
                    &&& (#[trigger] (found->0).0[i]).0 == encode_utf8(devices[i].name@)
                    &&& (found->0).0[i].1 == devices[i].major
                    &&& (found->0).0[i].2 == devices[i].minor
                    &&& (found->0).0[i].3 == devices[i].gpu_id
                }
        }),
{
    let files = sys_files(s.config.sys_files@);
    let devices = s.config.dri_devices@;
    assert forall|i: int| 0 <= i < files.len() implies {
        let f = #[trigger] files[i];
        &&& f.0.len() <= u32::MAX
        &&& f.1.len() <= u32::MAX
        &&& f.0.len() + f.1.len() > 0
    } by {
        let f = s.config.sys_files@[i];
        assert(files[i].0 == encode_utf8(f.path@));
    }
    files_read_back(files, dri_list(devices));
    devices_read_back(devices, Seq::empty());
    assert(dri_list(devices) + Seq::<u8>::empty() =~= dri_list(devices));
}

// What can be served.

/// Memory can be placed exactly if the next page boundary is a machine number and, where the memory
/// fits into the window, a slot is left.  Every error number but the least can be negated.  The
/// outcome of an ioctl can be taken if its lengths are 32-bit numbers and its pointer has a place.
pub proof fn outcomes_that_can_be_taken(
    s: WorkerView,
    size: u64,
    page: int,
    errno: i32,
    call: IoctlCallView,
)
    requires
        page % 4096 == 0,
        s.mmio.next <= page < s.mmio.next + 4096,
    ensures
        s.placeable(size) <==> s.mmio.next + 4095 <= u64::MAX && (page + size <= s.mmio.limit
            ==> s.next_kvm_slot < u32::MAX),
        negatable(None),
        errno != i32::MIN ==> negatable(Some(errno)),
        call.wf() <==> {
            &&& call.data.len() < 0x1_0000_0000
            &&& call.nested.len() < 0x1_0000_0000
            &&& call.plan is Simple ==> call.nested.len() == 0
            &&& call.plan is Complex ==> call.data.len() >= 24
        },
{
}

} // verus!
