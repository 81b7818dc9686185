//! What the host has to do for a request.

use vstd::prelude::*;

use crate::bytes::{group_field_lengths, le64, overlay, push_bytes, put_u64, u64_at, u64_field};
use crate::errno::EIO;
use crate::gpu_nv::wire::{bytes_of, NvgpuIoctlResp, NvgpuMsgHdr, Wire, NVGPU_MSG_IOCTL};

verus! {

broadcast use group_field_lengths;

/// A memory slot of the virtual machine, to be set or, with a size of zero, removed.
#[derive(Clone, Copy, Debug, PartialEq, Eq, Structural)]
pub struct MemoryRegion {
    pub slot: u32,
    pub flags: u32,
    pub guest_phys_addr: u64,
    pub memory_size: u64,
    pub userspace_addr: u64,
}

/// GPU memory that the guest can reach through a memory slot.
#[derive(Clone, Copy, Debug, PartialEq, Eq, Structural)]
pub struct GpuMapping {
    /// Address in the host process.
    pub host_ptr: u64,
    /// Size in bytes.
    pub size: u64,
    /// Address in the guest.
    pub guest_phys_addr: u64,
    /// Memory slot.
    pub kvm_slot: u32,
    /// Handle of the file that was mapped.
    pub host_fd_handle: u32,
}

impl GpuMapping {
    /// The slot that makes the mapping visible to the guest.
    pub open spec fn spec_region(self) -> MemoryRegion {
        MemoryRegion {
            slot: self.kvm_slot,
            flags: 0,
            guest_phys_addr: self.guest_phys_addr,
            memory_size: self.size,
            userspace_addr: self.host_ptr,
        }
    }

    /// The slot that makes the mapping visible to the guest.
    pub fn region(&self) -> (r: MemoryRegion)
        ensures
            r == self.spec_region(),
    {
        MemoryRegion {
            slot: self.kvm_slot,
            flags: 0,
            guest_phys_addr: self.guest_phys_addr,
            memory_size: self.size,
            userspace_addr: self.host_ptr,
        }
    }

    /// What ends the mapping: its slot is removed, and then the host's memory is unmapped.
    pub open spec fn release(self) -> Seq<HostAction> {
        seq![
            HostAction::SetRegion(
                MemoryRegion {
                    slot: self.kvm_slot,
                    flags: 0,
                    guest_phys_addr: self.guest_phys_addr,
                    memory_size: 0,
                    userspace_addr: 0,
                },
            ),
            HostAction::Munmap { addr: self.host_ptr, size: self.size },
        ]
    }

    /// Appends what ends the mapping.
    pub fn push_release(&self, actions: &mut Vec<HostAction>)
        ensures
            final(actions)@ == old(actions)@ + self.release(),
    {
        actions.push(
            HostAction::SetRegion(
                MemoryRegion {
                    slot: self.kvm_slot,
                    flags: 0,
                    guest_phys_addr: self.guest_phys_addr,
                    memory_size: 0,
                    userspace_addr: 0,
                },
            ),
        );
        actions.push(HostAction::Munmap { addr: self.host_ptr, size: self.size });
        assert(actions@ =~= old(actions)@ + self.release());
    }
}

/// Something that the host does whose outcome does not matter.
#[derive(Clone, Copy, Debug, PartialEq, Eq, Structural)]
pub enum HostAction {
    /// Sets a memory slot.
    SetRegion(MemoryRegion),
    /// Unmaps memory of the host process.
    Munmap { addr: u64, size: u64 },
    /// Closes a descriptor.
    CloseFd(i32),
}

/// A file that the host has to open for reading and writing.
#[derive(Debug)]
pub struct OpenCall {
    pub path: String,
    pub device_type: u32,
}

/// Memory that the host has to map, shared, for reading and writing.
#[derive(Clone, Copy, Debug, PartialEq, Eq, Structural)]
pub struct MmapCall {
    pub handle: u32,
    pub fd: i32,
    pub size: u64,
    /// What the driver is to map; only the driver knows what it means.
    pub offset: u64,
}

/// What happens to the parameters of an ioctl once the host has served it.
#[derive(Clone, Copy, Debug, PartialEq, Eq, Structural)]
pub enum IoctlPlan {
    /// They go back to the guest if the ioctl succeeded.
    Simple,
    /// They go back to the guest with the pointer that it sent, at [`PTR_OFFSET`].
    Complex { guest_ptr: u64 },
}

/// Where ioctls with nested parameters have their pointer.
pub const PTR_OFFSET: usize = 16;

/// An ioctl that the host has to make on `fd`, with `data` as its argument.
///
/// The host may overwrite both buffers; their lengths stay.
#[derive(Debug)]
pub struct IoctlCall {
    pub handle: u32,
    pub fd: i32,
    pub cmd: u32,
    pub data: Vec<u8>,
    /// Where this is not empty, `data` has to hold its address: see [`IoctlCall::point_at`].
    pub nested: Vec<u8>,
    pub plan: IoctlPlan,
}

/// An [`IoctlCall`] with its buffers as sequences.
pub ghost struct IoctlCallView {
    pub handle: u32,
    pub fd: i32,
    pub cmd: u32,
    pub data: Seq<u8>,
    pub nested: Seq<u8>,
    pub plan: IoctlPlan,
}

impl View for IoctlCall {
    type V = IoctlCallView;

    open spec fn view(&self) -> IoctlCallView {
        IoctlCallView {
            handle: self.handle,
            fd: self.fd,
            cmd: self.cmd,
            data: self.data@,
            nested: self.nested@,
            plan: self.plan,
        }
    }
}

/// The status that stands for a failed call: the negated error number, or that of an
/// input/output error where there is none.
pub open spec fn failure(errno: Option<i32>) -> i32 {
    match errno {
        Some(e) => (-e) as i32,
        None => (-EIO) as i32,
    }
}

/// The error number has a negation.
pub open spec fn negatable(errno: Option<i32>) -> bool {
    errno != Some(i32::MIN)
}

/// The status that stands for a failed call.
pub fn failure_status(errno: Option<i32>) -> (r: i32)
    requires
        negatable(errno),
    ensures
        r == failure(errno),
{
    match errno {
        Some(e) => -e,
        None => -EIO,
    }
}

impl IoctlCallView {
    /// The lengths fit the fields that state them, and the pointer has its place.
    pub open spec fn wf(self) -> bool {
        &&& self.data.len() <= u32::MAX
        &&& self.nested.len() <= u32::MAX
        &&& match self.plan {
            IoctlPlan::Simple => self.nested.len() == 0,
            IoctlPlan::Complex { guest_ptr } => self.data.len() >= PTR_OFFSET + 8,
        }
    }

    /// The call with the address of the nested parameters in its place.
    pub open spec fn pointed_at(self, addr: u64) -> IoctlCallView {
        if self.plan is Complex && self.nested.len() > 0 {
            IoctlCallView { data: overlay(self.data, PTR_OFFSET as int, le64(addr)), ..self }
        } else {
            self
        }
    }

    /// The same call after the host wrote to its buffers.
    pub open spec fn served(self, after: IoctlCallView) -> bool {
        after == IoctlCallView { data: after.data, nested: after.nested, ..self }
            && after.data.len() == self.data.len() && after.nested.len() == self.nested.len()
    }

    /// The parameters that go back to the guest after the host returned `ret`.
    pub open spec fn returned(self, ret: i32) -> Seq<u8> {
        match self.plan {
            IoctlPlan::Simple => if ret < 0 {
                Seq::empty()
            } else {
                self.data
            },
            IoctlPlan::Complex { guest_ptr } => overlay(
                self.data,
                PTR_OFFSET as int,
                le64(guest_ptr),
            ),
        }
    }

    /// The response after the host returned `ret`, with `errno` set where that is negative.
    pub open spec fn reply(self, ret: i32, errno: Option<i32>) -> Seq<u8> {
        let data = self.returned(ret);
        NvgpuIoctlResp {
            hdr: NvgpuMsgHdr {
                msg_type: NVGPU_MSG_IOCTL,
                handle: self.handle,
                status: if ret < 0 {
                    failure(errno)
                } else {
                    ret
                },
                padding: 0,
            },
            data_len: data.len() as u32,
            nested_len: self.nested.len() as u32,
        }.wire() + data + self.nested
    }
}

impl IoctlCall {
    /// Writes the address of the nested parameters to where the host looks for it.  Without
    /// nested parameters nothing changes: the pointer is null.
    pub fn point_at(&mut self, addr: u64)
        requires
            old(self)@.wf(),
        ensures
            final(self)@ == old(self)@.pointed_at(addr),
            final(self)@.wf(),
    {
        if let IoctlPlan::Complex { guest_ptr } = self.plan {
            if self.nested.len() > 0 {
                put_u64(&mut self.data, PTR_OFFSET, addr);
            }
        }
    }

    /// The response to the guest, once the host has made the ioctl: it returned `ret`, and
    /// where that is negative set `errno`.
    pub fn finish(self, ret: i32, errno: Option<i32>) -> (r: Vec<u8>)
        requires
            self@.wf(),
            ret < 0 ==> negatable(errno),
        ensures
            r@ == self@.reply(ret, errno),
    {
        let status = if ret < 0 {
            failure_status(errno)
        } else {
            ret
        };
        let mut data: Vec<u8> = Vec::new();
        match self.plan {
            IoctlPlan::Simple => {
                if ret >= 0 {
                    push_bytes(&mut data, self.data.as_slice());
                }
            },
            IoctlPlan::Complex { guest_ptr } => {
                push_bytes(&mut data, self.data.as_slice());
                assert(data@ =~= self.data@);
                put_u64(&mut data, PTR_OFFSET, guest_ptr);
            },
        }
        assert(data@ =~= self@.returned(ret));
        let hdr = NvgpuMsgHdr {
            msg_type: NVGPU_MSG_IOCTL,
            handle: self.handle,
            status,
            padding: 0,
        };
        let mut out = bytes_of(
            &NvgpuIoctlResp {
                hdr,
                data_len: data.len() as u32,
                nested_len: self.nested.len() as u32,
            },
        );
        push_bytes(&mut out, data.as_slice());
        push_bytes(&mut out, self.nested.as_slice());
        out
    }
}

/// A response, and what the host does besides.
#[derive(Debug)]
pub struct Reply {
    pub bytes: Vec<u8>,
    /// In this order, before the response is sent.
    pub actions: Vec<HostAction>,
}

/// The next step of a request.
#[derive(Debug)]
pub enum Step {
    /// The request is served.
    Done(Reply),
    /// The host opens a file; the outcome goes to `finish_open` of the worker.
    Open(OpenCall),
    /// The host makes an ioctl; the outcome goes to [`IoctlCall::finish`].
    Ioctl(IoctlCall),
    /// The host maps memory; the outcome goes to `mmap_done` of the worker.
    Mmap(MmapCall),
    /// The host sets a memory slot; the outcome goes to `slot_done` of the worker.
    SetRegion(MemoryRegion),
}

/// A [`Step`] with its buffers as sequences.
pub ghost enum StepView {
    Done { reply: Seq<u8>, actions: Seq<HostAction> },
    Open { path: Seq<char>, device_type: u32 },
    Ioctl(IoctlCallView),
    Mmap(MmapCall),
    SetRegion(MemoryRegion),
}

impl View for Step {
    type V = StepView;

    open spec fn view(&self) -> StepView {
        match *self {
            Step::Done(reply) => StepView::Done {
                reply: reply.bytes@,
                actions: reply.actions@,
            },
            Step::Open(call) => StepView::Open {
                path: call.path@,
                device_type: call.device_type,
            },
            Step::Ioctl(call) => StepView::Ioctl(call@),
            Step::Mmap(call) => StepView::Mmap(call),
            Step::SetRegion(region) => StepView::SetRegion(region),
        }
    }
}

/// Whatever the host writes and wherever its buffer is, the guest finds its own pointer where it
/// put it, and all other bytes as the host left them.
pub proof fn guest_pointer_comes_back(
    call: IoctlCallView,
    addr: u64,
    after: IoctlCallView,
    ret: i32,
)
    requires
        call.wf(),
        call.plan is Complex,
        call.pointed_at(addr).served(after),
    ensures
        after.returned(ret).len() == call.data.len(),
        u64_at(after.returned(ret), PTR_OFFSET as int) == call.plan->guest_ptr,
        forall|i: int|
            0 <= i < call.data.len() && !(PTR_OFFSET <= i < PTR_OFFSET + 8) ==> after.returned(
                ret,
            )[i] == after.data[i],
{
    let ptr = call.plan->guest_ptr;
    assert(after.returned(ret).subrange(16, 24) =~= le64(ptr));
    u64_field(after.returned(ret), 16, ptr);
}

/// The guest can read the response to an ioctl: the status, and the parameters after it.
pub proof fn ioctl_reply_reads_back(call: IoctlCallView, ret: i32, errno: Option<i32>)
    requires
        call.wf(),
    ensures
        ({
            let reply = call.reply(ret, errno);
            let resp = NvgpuIoctlResp::at(reply);
            &&& resp.hdr.msg_type == NVGPU_MSG_IOCTL
            &&& resp.hdr.handle == call.handle
            &&& resp.hdr.status == if ret < 0 {
                failure(errno)
            } else {
                ret
            }
            &&& reply.subrange(24, 24 + resp.data_len) == call.returned(ret)
            &&& reply.skip(24 + resp.data_len) == call.nested
        }),
{
    let data = call.returned(ret);
    let resp = NvgpuIoctlResp {
        hdr: NvgpuMsgHdr {
            msg_type: NVGPU_MSG_IOCTL,
            handle: call.handle,
            status: if ret < 0 {
                failure(errno)
            } else {
                ret
            },
            padding: 0,
        },
        data_len: data.len() as u32,
        nested_len: call.nested.len() as u32,
    };
    let reply = call.reply(ret, errno);
    resp.round_trip(data + call.nested);
    assert(reply =~= resp.wire() + (data + call.nested));
    assert(reply.subrange(24, 24 + data.len() as int) =~= data);
    assert(reply.skip(24 + data.len() as int) =~= call.nested);
}

/// Whatever the host writes to the buffers of an ioctl, its outcome can still be taken.
pub proof fn served_calls_stay_well_formed(call: IoctlCallView, addr: u64, after: IoctlCallView)
    requires
        call.wf(),
        call.pointed_at(addr).served(after),
    ensures
        after.wf(),
{
}

/// A step shows all that it holds: the response and the actions, the file to open, the ioctl, the
/// memory to map, or the slot to set.
pub proof fn steps_show_what_they_hold(step: Step)
    ensures
        step matches Step::Done(r) ==> step@ is Done && step@->reply == r.bytes@ && step@->actions
            == r.actions@,
        step matches Step::Open(c) ==> step@ is Open && step@->path == c.path@
            && step@->Open_device_type == c.device_type,
        step matches Step::Ioctl(c) ==> step@ is Ioctl && {
            let v = step@->Ioctl_0;
            &&& v.handle == c.handle
            &&& v.fd == c.fd
            &&& v.cmd == c.cmd
            &&& v.data == c.data@
            &&& v.nested == c.nested@
            &&& v.plan == c.plan
        },
        step matches Step::Mmap(c) ==> step@ == StepView::Mmap(c),
        step matches Step::SetRegion(r) ==> step@ == StepView::SetRegion(r),
{
}

} // verus!
