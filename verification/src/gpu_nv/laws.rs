//! What holds of a device at work, whatever the guest asks for and the host answers.

use vstd::prelude::*;

use crate::bytes::{u64_at, zeros};
use crate::errno::{EBADF, EINVAL, EIO, ENOMEM, ENOTTY};
use crate::gpu_nv::allowlist::{fd_translations, first_entry};
use crate::gpu_nv::mmio::region_is_new;
use crate::gpu_nv::model::{
    cleared, closed, decide_mmap, decide_translated, error_reply, is_uvm, just, mapped,
    mapped_keeps_wf, opened, processed, refused, release_all, release_of, separate, slotted,
    slotted_keeps_wf, unmapped, with_mapping, within, WorkerView, NV_ESC_RM_ALLOC,
    NV_ESC_RM_CONTROL,
};
use crate::gpu_nv::step::{
    failure, GpuMapping, HostAction, IoctlPlan, MmapCall, StepView, PTR_OFFSET,
};
use crate::gpu_nv::wire::{
    nr_of, NvgpuIoctlReq, NvgpuMmapReq, NvgpuMmapResp, NvgpuMsgHdr, NvgpuMunmapReq, Wire,
    NVGPU_DEV_UVM, NVGPU_MSG_CLOSE, NVGPU_MSG_IOCTL, NVGPU_MSG_MMAP,
};

verus! {

/// An ioctl that is not allowed on the device of its handle is refused with ENOTTY, however the
/// rest of the request looks.
pub proof fn unknown_ioctls_are_refused(s: WorkerView, req: Seq<u8>)
    requires
        req.len() >= 32,
        NvgpuMsgHdr::at(req).msg_type == NVGPU_MSG_IOCTL,
        is_uvm(s.fds, NvgpuIoctlReq::at(req).hdr.handle) ==> !s.uvm.contains(
            nr_of(NvgpuIoctlReq::at(req).cmd),
        ),
        !is_uvm(s.fds, NvgpuIoctlReq::at(req).hdr.handle) ==> !s.allowed.contains(
            nr_of(NvgpuIoctlReq::at(req).cmd),
        ),
    ensures
        processed(s, req) == (s, refused(NvgpuIoctlReq::at(req).hdr.handle, ENOTTY)),
{
}

/// Whatever the request, an ioctl that reaches the host is allowed on the device that it goes
/// to, is the command that the guest sent, and goes to a file that the guest opened.
pub proof fn only_allowed_ioctls_reach_the_host(s: WorkerView, req: Seq<u8>)
    ensures
        processed(s, req).1 matches StepView::Ioctl(call) ==> {
            &&& s.fds.contains_key(call.handle)
            &&& call.fd == s.fds[call.handle].fd
            &&& s.fds[call.handle].device_type == NVGPU_DEV_UVM ==> s.uvm.contains(
                nr_of(call.cmd),
            )
            &&& s.fds[call.handle].device_type != NVGPU_DEV_UVM ==> s.allowed.contains(
                nr_of(call.cmd),
            )
            &&& call.cmd == NvgpuIoctlReq::at(req).cmd
            &&& call.handle == NvgpuIoctlReq::at(req).hdr.handle
        },
{
    let r = NvgpuIoctlReq::at(req);
    if NvgpuMsgHdr::at(req).msg_type == NVGPU_MSG_IOCTL && req.len() >= 32 {
        let data = req.subrange(32, 32 + r.data_len);
        match first_entry(fd_translations(), nr_of(r.cmd)) {
            Some(entry) => {
                assert(decide_translated(s.fds, r, data, entry.payload_offset) is Ioctl
                    ==> s.fds.contains_key(r.hdr.handle));
            },
            None => {},
        }
    }
}

/// An ioctl on /dev/nvidia-uvm that is allowed there and whose lengths fit reaches the host, as
/// the command that the guest sent and on the file that it opened.  Its parameters are the
/// guest's.  The two numbers whose parameters have a pointer are treated as on any other device:
/// the parameters have to be long enough to hold it, and it does not reach the host.
pub proof fn uvm_ioctls_are_forwarded(s: WorkerView, req: Seq<u8>)
    requires
        req.len() >= 32,
        NvgpuMsgHdr::at(req).msg_type == NVGPU_MSG_IOCTL,
        is_uvm(s.fds, NvgpuIoctlReq::at(req).hdr.handle),
        s.uvm.contains(nr_of(NvgpuIoctlReq::at(req).cmd)),
        nr_of(NvgpuIoctlReq::at(req).cmd) <= 0x4f,
        within(NvgpuIoctlReq::at(req), req.len()),
        has_pointer(nr_of(NvgpuIoctlReq::at(req).cmd)) ==> NvgpuIoctlReq::at(req).data_len
            >= PTR_OFFSET + 8,
    ensures
        ({
            let r = NvgpuIoctlReq::at(req);
            let data = req.subrange(32, 32 + r.data_len);
            let (t, step) = processed(s, req);
            let call = step->Ioctl_0;
            &&& t == s
            &&& step is Ioctl
            &&& call.handle == r.hdr.handle
            &&& call.fd == s.fds[r.hdr.handle].fd
            &&& call.cmd == r.cmd
            &&& if has_pointer(nr_of(r.cmd)) {
                call.data == cleared(r.cmd, data) && call.plan == (IoctlPlan::Complex {
                    guest_ptr: u64_at(data, PTR_OFFSET as int),
                })
            } else {
                call.data == data && call.plan == IoctlPlan::Simple
            }
        }),
{
    reveal_with_fuel(first_entry, 2);
}

/// Ioctls with this number have parameters that point at further parameters.
pub open spec fn has_pointer(nr: u32) -> bool {
    nr == NV_ESC_RM_CONTROL || nr == NV_ESC_RM_ALLOC
}

/// What an ioctl with nested parameters hands to the host: no pointer of the guest, nor, for
/// NV_ESC_RM_ALLOC, one to requested rights.  All other bytes are the guest's.
pub proof fn guest_pointers_do_not_reach_the_host(cmd: u32, data: Seq<u8>)
    requires
        data.len() >= PTR_OFFSET + 8,
    ensures
        cleared(cmd, data).len() == data.len(),
        cleared(cmd, data).subrange(16, 24) == zeros(8),
        nr_of(cmd) == NV_ESC_RM_ALLOC && data.len() >= 32 ==> cleared(cmd, data).subrange(24, 32)
            == zeros(8),
        nr_of(cmd) == NV_ESC_RM_CONTROL ==> cleared(cmd, data).skip(24) == data.skip(24),
        cleared(cmd, data).take(16) == data.take(16),
{
    let c = cleared(cmd, data);
    assert(c.subrange(16, 24) =~= zeros(8));
    assert(c.take(16) =~= data.take(16));
    if nr_of(cmd) == NV_ESC_RM_ALLOC && data.len() >= 32 {
        assert(c.subrange(24, 32) =~= zeros(8));
    }
    if nr_of(cmd) == NV_ESC_RM_CONTROL {
        assert(c.skip(24) =~= data.skip(24));
    }
}

/// A refusal can be told from success: its header has no type, the handle of the request, and
/// the status.
pub proof fn refusals_read_back(handle: u32, status: i32)
    ensures
        error_reply(handle, status).len() == 16,
        NvgpuMsgHdr::at(error_reply(handle, status)) == (NvgpuMsgHdr {
            msg_type: 0,
            handle,
            status,
            padding: 0,
        }),
{
    let hdr = NvgpuMsgHdr { msg_type: 0, handle, status, padding: 0 };
    hdr.round_trip(Seq::empty());
    assert(hdr.wire() + Seq::<u8>::empty() =~= hdr.wire());
}

/// `t` can come after `s`: numbers are only given out, never taken back; what is still there is
/// what it was; the configuration stays.
pub open spec fn follows(s: WorkerView, t: WorkerView) -> bool {
    &&& t.config == s.config
    &&& t.allowed == s.allowed
    &&& t.uvm == s.uvm
    &&& t.next_handle >= s.next_handle
    &&& t.next_mapping_id >= s.next_mapping_id
    &&& t.next_kvm_slot >= s.next_kvm_slot
    &&& t.mmio.base == s.mmio.base
    &&& t.mmio.limit == s.mmio.limit
    &&& t.mmio.next >= s.mmio.next
    &&& forall|h: u32|
        h < s.next_handle && #[trigger] t.fds.contains_key(h) ==> {
            &&& s.fds.contains_key(h)
            &&& t.fds[h].fd == s.fds[h].fd
            &&& t.fds[h].device_type == s.fds[h].device_type
        }
    &&& forall|id: u32|
        id < s.next_mapping_id && #[trigger] t.mappings.contains_key(id) ==> {
            &&& s.mappings.contains_key(id)
            &&& t.mappings[id] == s.mappings[id]
        }
}

/// Every request leads to a state that can come after the one before.
pub proof fn requests_only_go_forward(s: WorkerView, req: Seq<u8>)
    requires
        s.wf(),
    ensures
        follows(s, processed(s, req).0),
{
}

/// So does every outcome that the host reports.
pub proof fn outcomes_only_go_forward(
    s: WorkerView,
    device_type: u32,
    opening: Result<i32, Option<i32>>,
    call: MmapCall,
    mapping: Result<u64, Option<i32>>,
    ok: bool,
)
    requires
        s.wf(),
        s.next_handle < u32::MAX,
        s.placeable(call.size),
        s.next_mapping_id < u32::MAX,
    ensures
        follows(s, opened(s, device_type, opening).0),
        follows(s, mapped(s, call, mapping).0),
        s.pending matches Some(m) ==> follows(s, slotted(s, m, ok).0),
{
    if s.mmio.has_room(call.size) {
        region_is_new(s.mmio, call.size);
    }
}

/// Handles, ids and memory slots are never reused: through any number of steps, a handle or id
/// that was given out and is gone stays gone, and one that is still there means the same.
pub proof fn numbers_are_never_reused(history: Seq<WorkerView>)
    requires
        history.len() > 0,
        forall|i: int|
            0 <= i && i + 1 < history.len() ==> #[trigger] follows(history[i], history[i + 1]),
    ensures
        follows(history[0], history.last()),
    decreases history.len(),
{
    if history.len() > 1 {
        let shorter = history.drop_last();
        assert forall|i: int| 0 <= i && i + 1 < shorter.len() implies #[trigger] follows(
            shorter[i],
            shorter[i + 1],
        ) by {
            assert(follows(history[i], history[i + 1]));
        }
        numbers_are_never_reused(shorter);
        let n = history.len() - 2;
        let (s, m, t) = (history[0], history[n], history[n + 1]);
        assert(shorter.last() == m);
        assert(follows(s, m) && follows(m, t));
    }
}

/// CLOSE always succeeds.  The handle is then not open, exactly its mappings are gone, every other
/// handle and mapping is what it was, no number is taken back, and to close again changes nothing
/// more and succeeds as well.
pub proof fn close_ends_exactly_its_mappings(s: WorkerView, handle: u32)
    requires
        s.wf(),
    ensures
        ({
            let (t, step) = closed(s, handle);
            &&& step is Done
            &&& step->reply.len() == 16
            &&& NvgpuMsgHdr::at(step->reply) == (NvgpuMsgHdr {
                msg_type: NVGPU_MSG_CLOSE,
                handle,
                status: 0,
                padding: 0,
            })
            &&& t.fds == s.fds.remove(handle)
            &&& !t.fds.contains_key(handle)
            &&& forall|id: u32|
                #![trigger t.mappings.contains_key(id)]
                t.mappings.contains_key(id) <==> s.mappings.contains_key(id)
                    && s.mappings[id].host_fd_handle != handle
            &&& forall|id: u32| #[trigger]
                t.mappings.contains_key(id) ==> t.mappings[id] == s.mappings[id]
            &&& t == WorkerView { fds: t.fds, mappings: t.mappings, ..s }
            &&& closed(t, handle) == (t, just(step->reply))
        }),
{
    let (t, step) = closed(s, handle);
    let hdr = NvgpuMsgHdr { msg_type: NVGPU_MSG_CLOSE, handle, status: 0, padding: 0 };
    hdr.round_trip(Seq::empty());
    assert(hdr.wire() + Seq::<u8>::empty() =~= hdr.wire());
    assert(t.fds =~= s.fds.remove(handle));
    if s.fds.contains_key(handle) {
        let ids = s.fds[handle].mapping_ids;
        assert(s.lists(handle));
        assert forall|id: u32|
            #![trigger t.mappings.contains_key(id)]
            t.mappings.contains_key(id) <==> s.mappings.contains_key(id)
                && s.mappings[id].host_fd_handle != handle by {
            if s.mappings.contains_key(id) && ids.contains(id) {
                let i = choose|i: int| 0 <= i < ids.len() && ids[i] == id;
                assert(s.mappings[ids[i]].host_fd_handle == handle);
            }
        }
    }
}

/// The host is told to remove the slot and to unmap the memory of every mapping of a file that
/// is closed.
pub proof fn close_releases_its_mappings(s: WorkerView, handle: u32, id: u32)
    requires
        s.wf(),
        s.fds.contains_key(handle),
        s.mappings.contains_key(id),
        s.mappings[id].host_fd_handle == handle,
    ensures
        closed(s, handle).1 matches StepView::Done { reply, actions } && {
            &&& actions.contains(s.mappings[id].release()[0])
            &&& actions.contains(s.mappings[id].release()[1])
            &&& actions.last() == HostAction::CloseFd(s.fds[handle].fd)
        },
{
    let ids = s.fds[handle].mapping_ids;
    let releases = ids.map_values(|id: u32| release_of(s.mappings, id));
    let i = choose|i: int| 0 <= i < ids.len() && ids[i] == id;
    let r = s.mappings[id].release();
    assert(releases[i] == r);
    let k = flattened_at(releases, i);
    let all = releases.flatten();
    let actions = all.push(HostAction::CloseFd(s.fds[handle].fd));
    assert(all[k] == all.subrange(k, k + 2)[0]);
    assert(all[k + 1] == all.subrange(k, k + 2)[1]);
    assert(actions[k] == r[0]);
    assert(actions[k + 1] == r[1]);
}

/// Where the part `i` starts once the parts are put together.
proof fn flattened_at(parts: Seq<Seq<HostAction>>, i: int) -> (k: int)
    requires
        0 <= i < parts.len(),
    ensures
        0 <= k,
        k + parts[i].len() <= parts.flatten().len(),
        parts.flatten().subrange(k, k + parts[i].len()) == parts[i],
    decreases parts.len(),
{
    let all = parts.flatten();
    assert(all =~= parts.first() + parts.drop_first().flatten());
    if i == 0 {
        assert(all.subrange(0, parts[0].len() as int) =~= parts[0]);
        0
    } else {
        let k = flattened_at(parts.drop_first(), i - 1);
        let at = parts.first().len() + k;
        assert(parts.drop_first()[i - 1] == parts[i]);
        assert(all.subrange(at, at + parts[i].len()) =~= parts.drop_first().flatten().subrange(
            k,
            k + parts[i].len(),
        ));
        at
    }
}

/// A file that is closed right after it was opened leaves nothing behind but its number.
pub proof fn open_then_close_is_nothing(s: WorkerView, device_type: u32, fd: i32)
    requires
        s.wf(),
        s.next_handle < u32::MAX,
    ensures
        ({
            let t = opened(s, device_type, Ok(fd)).0;
            let u = closed(t, s.next_handle).0;
            u == WorkerView { next_handle: (s.next_handle + 1) as u32, ..s }
        }),
{
    let t = opened(s, device_type, Ok(fd)).0;
    let u = closed(t, s.next_handle).0;
    assert(u.fds =~= s.fds);
    assert(u.mappings =~= s.mappings);
}

/// Closing or unmapping a second time does nothing more.
pub proof fn ending_twice_is_ending_once(s: WorkerView, handle: u32, req: Seq<u8>)
    requires
        req.len() >= 24,
    ensures
        ({
            let t = closed(s, handle).0;
            &&& closed(t, handle).0 == t
            &&& closed(t, handle).1->actions == Seq::<HostAction>::empty()
        }),
        ({
            let t = unmapped(s, req).0;
            &&& unmapped(t, req).0 == t
            &&& unmapped(t, req).1->actions == Seq::<HostAction>::empty()
        }),
{
    let t = unmapped(s, req).0;
    assert(unmapped(t, req).0.mappings =~= t.mappings);
}

/// A mapping that the guest learns of lies where the response says, in memory that no other
/// mapping has, and MUNMAP of its id ends it.
pub proof fn mapping_can_be_unmapped(s: WorkerView, m: GpuMapping, req: Seq<u8>)
    requires
        s.wf(),
        s.pending == Some(m),
        s.next_mapping_id < u32::MAX,
        req.len() >= 24,
        NvgpuMunmapReq::at(req).mapping_id == NvgpuMmapResp::at(
            slotted(s, m, true).1->reply,
        ).mapping_id,
    ensures
        ({
            let resp = NvgpuMmapResp::at(slotted(s, m, true).1->reply);
            let t = slotted(s, m, true).0;
            &&& resp.guest_phys_addr == m.guest_phys_addr
            &&& resp.size == m.size
            &&& t.mappings[resp.mapping_id] == m
            &&& forall|id: u32| #[trigger]
                t.mappings.contains_key(id) && id != resp.mapping_id ==> separate(
                    m,
                    t.mappings[id],
                )
            &&& unmapped(t, req).0.mappings == s.mappings
            &&& unmapped(t, req).1->actions == m.release()
        }),
{
    let id = s.next_mapping_id;
    let resp = NvgpuMmapResp {
        hdr: NvgpuMsgHdr {
            msg_type: NVGPU_MSG_MMAP,
            handle: m.host_fd_handle,
            status: 0,
            padding: 0,
        },
        guest_phys_addr: m.guest_phys_addr,
        size: m.size,
        mapping_id: id,
        padding: 0,
    };
    resp.round_trip(Seq::empty());
    assert(resp.wire() + Seq::<u8>::empty() =~= resp.wire());
    let t = slotted(s, m, true).0;
    assert(!s.mappings.contains_key(id));
    assert forall|jd: u32| #[trigger] t.mappings.contains_key(jd) && jd != id implies separate(
        m,
        t.mappings[jd],
    ) by {
        assert(s.mappings.contains_key(jd));
    }
    assert(unmapped(t, req).0.mappings =~= s.mappings);
}

/// All of an MMAP request: `host` is what comes of mapping the file and `slot_ok` of setting the
/// memory slot, where the request gets so far.
pub open spec fn whole_mmap(
    s: WorkerView,
    req: Seq<u8>,
    host: Result<u64, Option<i32>>,
    slot_ok: bool,
) -> (WorkerView, StepView) {
    match decide_mmap(s.fds, req) {
        StepView::Mmap(call) => {
            let (t, step) = mapped(s, call, host);
            if step is SetRegion {
                slotted(t, t.pending->0, slot_ok)
            } else {
                (t, step)
            }
        },
        step => (s, step),
    }
}

/// An MMAP request whose every part goes well.
pub open spec fn mmap_goes_well(
    s: WorkerView,
    req: Seq<u8>,
    host: Result<u64, Option<i32>>,
    slot_ok: bool,
) -> bool {
    &&& req.len() >= 40
    &&& s.fds.contains_key(NvgpuMmapReq::at(req).hdr.handle)
    &&& host is Ok
    &&& s.mmio.has_room(NvgpuMmapReq::at(req).size)
    &&& slot_ok
}

/// The numbers that an MMAP request takes are machine numbers, and an error number of the host is
/// positive.
pub open spec fn mmap_in_range(
    s: WorkerView,
    req: Seq<u8>,
    host: Result<u64, Option<i32>>,
) -> bool {
    &&& req.len() >= 40 ==> s.placeable(NvgpuMmapReq::at(req).size)
    &&& s.next_mapping_id < u32::MAX
    &&& host matches Err(Some(errno)) ==> errno > 0
}

/// An MMAP request that goes well makes one mapping.  Its id is one that no mapping of any earlier
/// state `past` had.  It starts at a page boundary, lies in the window, and shares neither its
/// slot nor a guest address with any mapping of an earlier state, whether that has ended or not.
/// It is recorded under the handle, the guest learns where it is, and nothing else changes.
pub proof fn mmap_makes_one_new_mapping(
    past: WorkerView,
    s: WorkerView,
    req: Seq<u8>,
    addr: u64,
)
    requires
        past.wf(),
        s.wf(),
        follows(past, s),
        s.pending is None,
        mmap_in_range(s, req, Ok(addr)),
        mmap_goes_well(s, req, Ok(addr), true),
    ensures
        ({
            let r = NvgpuMmapReq::at(req);
            let handle = r.hdr.handle;
            let id = s.next_mapping_id;
            let (t, step) = whole_mmap(s, req, Ok(addr), true);
            let m = t.mappings[id];
            &&& step == just(
                NvgpuMmapResp {
                    hdr: NvgpuMsgHdr {
                        msg_type: NVGPU_MSG_MMAP,
                        handle,
                        status: 0,
                        padding: 0,
                    },
                    guest_phys_addr: m.guest_phys_addr,
                    size: r.size,
                    mapping_id: id,
                    padding: 0,
                }.wire(),
            )
            &&& !s.mappings.contains_key(id)
            &&& !past.mappings.contains_key(id) && id >= past.next_mapping_id
            &&& m.guest_phys_addr % 0x1000 == 0
            &&& s.mmio.base <= m.guest_phys_addr
            &&& m.guest_phys_addr + m.size <= s.mmio.limit
            &&& m.size == r.size
            &&& m.host_ptr == addr
            &&& m.host_fd_handle == handle
            &&& forall|jd: u32| #[trigger]
                past.mappings.contains_key(jd) ==> separate(past.mappings[jd], m)
            &&& t.mappings == s.mappings.insert(id, m)
            &&& t.fds == s.fds.insert(handle, with_mapping(s.fds[handle], id))
            &&& t.wf() && t.pending is None && follows(s, t)
        }),
{
    let r = NvgpuMmapReq::at(req);
    let call = decide_mmap(s.fds, req)->Mmap_0;
    let mid = mapped(s, call, Ok(addr)).0;
    let m = mid.pending->0;
    region_is_new(s.mmio, r.size);
    mapped_keeps_wf(s, call, Ok(addr));
    slotted_keeps_wf(mid, m, true);
    let t = slotted(mid, m, true).0;
    assert(t.mappings[s.next_mapping_id] == m);
    assert forall|jd: u32| #[trigger] past.mappings.contains_key(jd) implies separate(
        past.mappings[jd],
        m,
    ) by {
        assert(past.placed(past.mappings[jd]));
    }
}

/// An MMAP request that does not go well is answered with an error.  Mappings, their ids, and what
/// files list stay as they were, and memory that the host mapped is unmapped again.
pub proof fn failed_mmap_leaves_nothing(
    s: WorkerView,
    req: Seq<u8>,
    host: Result<u64, Option<i32>>,
    slot_ok: bool,
)
    requires
        s.wf(),
        s.pending is None,
        mmap_in_range(s, req, host),
        !mmap_goes_well(s, req, host, slot_ok),
    ensures
        ({
            let (t, step) = whole_mmap(s, req, host, slot_ok);
            let asked = decide_mmap(s.fds, req) is Mmap;
            &&& step is Done
            &&& NvgpuMsgHdr::at(step->reply).status < 0
            &&& t.mappings == s.mappings
            &&& t.next_mapping_id == s.next_mapping_id
            &&& t.fds == s.fds
            &&& t.next_handle == s.next_handle
            &&& t.wf() && t.pending is None && follows(s, t)
            &&& step->actions == if asked && host is Ok {
                seq![
                    HostAction::Munmap { addr: host->Ok_0, size: NvgpuMmapReq::at(req).size },
                ]
            } else {
                Seq::empty()
            }
        }),
{
    let r = NvgpuMmapReq::at(req);
    refusals_read_back(0, (-EINVAL) as i32);
    refusals_read_back(r.hdr.handle, (-EBADF) as i32);
    refusals_read_back(r.hdr.handle, (-ENOMEM) as i32);
    refusals_read_back(r.hdr.handle, (-EIO) as i32);
    if let StepView::Mmap(call) = decide_mmap(s.fds, req) {
        mapped_keeps_wf(s, call, host);
        let (mid, step) = mapped(s, call, host);
        match host {
            Err(errno) => {
                refusals_read_back(r.hdr.handle, failure(errno));
            },
            Ok(addr) => {
                if s.mmio.has_room(r.size) {
                    region_is_new(s.mmio, r.size);
                    slotted_keeps_wf(mid, mid.pending->0, false);
                }
            },
        }
    }
}

/// What the host does when a file is closed, in order: for each of its mappings, from the oldest
/// on, what ends it, if it has not ended yet; and at last the file is closed.
pub proof fn close_works_in_order(s: WorkerView, handle: u32, ids: Seq<u32>, id: u32)
    ensures
        release_all(s.mappings, Seq::<u32>::empty()).len() == 0,
        s.mappings.contains_key(id) ==> release_all(s.mappings, ids.push(id)) == release_all(
            s.mappings,
            ids,
        ) + s.mappings[id].release(),
        !s.mappings.contains_key(id) ==> release_all(s.mappings, ids.push(id)) == release_all(
            s.mappings,
            ids,
        ),
        s.fds.contains_key(handle) ==> closed(s, handle).1->actions == release_all(
            s.mappings,
            s.fds[handle].mapping_ids,
        ).push(HostAction::CloseFd(s.fds[handle].fd)),
        !s.fds.contains_key(handle) ==> closed(s, handle).1->actions.len() == 0,
{
    let none = Seq::<u32>::empty().map_values(|id: u32| release_of(s.mappings, id));
    assert(none.flatten() =~= Seq::empty());
    let before = ids.map_values(|id: u32| release_of(s.mappings, id));
    let after = ids.push(id).map_values(|id: u32| release_of(s.mappings, id));
    assert(after =~= before.push(release_of(s.mappings, id)));
    before.lemma_flatten_push(release_of(s.mappings, id));
    assert(release_all(s.mappings, ids) + Seq::<HostAction>::empty() =~= release_all(
        s.mappings,
        ids,
    ));
}

} // verus!
