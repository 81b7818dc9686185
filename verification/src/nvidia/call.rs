//! Calls that the host has to make.

use vstd::prelude::*;

use crate::bytes::{group_field_lengths, le32, le64, overlay, put_u64, u32_at, u64_at, zeros};
use crate::nvidia::reply::Placement;
use crate::shm::{HostMap, PgprotKind, ShmAllocator};

verus! {

broadcast use group_field_lengths;

/// A device file that the host has to open.
#[derive(Debug)]
pub struct OpenCall {
    pub cookie: u64,
    pub path: String,
}

/// What happens to the parameters of an ioctl once the host has served it.
#[derive(Clone, Copy, Debug)]
pub enum IoctlPlan {
    /// They go back to the guest as they are.
    Simple,
    /// The guest's handle goes back to its place.
    FdCarrying { fd_offset: usize, guest: u32 },
    /// The pointer is cleared, and the handle, where one was translated, goes back to its place
    /// in the nested parameters.
    Nested { ptr_offset: usize, saved: Option<(usize, u32)> },
    /// The guest's handle goes back to its place, and the memory is mapped into the window.
    MapMemory { map_fd: i32, guest: u32 },
}

/// An ioctl that the host has to make on `fd`, with `params` as its argument.
///
/// The host may overwrite both buffers; their lengths stay.
#[derive(Debug)]
pub struct IoctlCall {
    pub cookie: u64,
    pub fd: i32,
    pub request: u64,
    pub params: Vec<u8>,
    /// Where this is not empty, `params` has to hold its address: see [`IoctlCall::point_at`].
    pub nested: Vec<u8>,
    pub plan: IoctlPlan,
}

/// An [`IoctlCall`] with its buffers as sequences.
pub ghost struct IoctlCallView {
    pub cookie: u64,
    pub fd: i32,
    pub request: u64,
    pub params: Seq<u8>,
    pub nested: Seq<u8>,
    pub plan: IoctlPlan,
}

impl View for IoctlCall {
    type V = IoctlCallView;

    open spec fn view(&self) -> IoctlCallView {
        IoctlCallView {
            cookie: self.cookie,
            fd: self.fd,
            request: self.request,
            params: self.params@,
            nested: self.nested@,
            plan: self.plan,
        }
    }
}

impl IoctlCallView {
    /// The places that the plan names lie within the buffers, and the response can state the
    /// size of both.
    pub open spec fn wf(self) -> bool {
        &&& self.params.len() + self.nested.len() <= u32::MAX
        &&& match self.plan {
            IoctlPlan::Simple => self.nested.len() == 0,
            IoctlPlan::FdCarrying { fd_offset, guest } => {
                &&& self.nested.len() == 0
                &&& fd_offset + 4 <= self.params.len()
            },
            IoctlPlan::Nested { ptr_offset, saved } => {
                &&& ptr_offset + 8 <= self.params.len()
                &&& saved matches Some((offset, guest)) ==> offset + 4 <= self.nested.len()
            },
            IoctlPlan::MapMemory { map_fd, guest } => {
                &&& self.nested.len() == 0
                &&& self.params.len() >= 56
            },
        }
    }

    /// The parameters that go back to the guest.
    pub open spec fn returned(self) -> Seq<u8> {
        match self.plan {
            IoctlPlan::Simple => self.params,
            IoctlPlan::FdCarrying { fd_offset, guest } => overlay(
                self.params,
                fd_offset as int,
                le32(guest),
            ),
            IoctlPlan::Nested { ptr_offset, saved } => {
                overlay(self.params, ptr_offset as int, zeros(8)) + match saved {
                    Some((offset, guest)) => overlay(self.nested, offset as int, le32(guest)),
                    None => self.nested,
                }
            },
            IoctlPlan::MapMemory { map_fd, guest } => overlay(self.params, 48, le32(guest)),
        }
    }

    /// The call with the address of the nested parameters in its place.
    pub open spec fn pointed_at(self, addr: u64) -> IoctlCallView {
        match self.plan {
            IoctlPlan::Nested { ptr_offset, saved } if self.nested.len() > 0 => IoctlCallView {
                params: overlay(self.params, ptr_offset as int, le64(addr)),
                ..self
            },
            _ => self,
        }
    }

    /// The same call after the host wrote to its buffers.
    pub open spec fn served(self, after: IoctlCallView) -> bool {
        after == IoctlCallView { params: after.params, nested: after.nested, ..self }
            && after.params.len() == self.params.len()
            && after.nested.len() == self.nested.len()
    }
}

impl IoctlCall {
    /// Writes the address of the nested parameters to where the host looks for it.  Without
    /// nested parameters nothing changes.
    pub fn point_at(&mut self, addr: u64)
        requires
            old(self)@.wf(),
        ensures
            final(self)@ == old(self)@.pointed_at(addr),
            final(self)@.wf(),
    {
        if let IoctlPlan::Nested { ptr_offset, saved } = self.plan {
            if self.nested.len() > 0 {
                put_u64(&mut self.params, ptr_offset, addr);
            }
        }
    }
}

/// The caching mode that the flags of a mapping ask for.
pub open spec fn pgprot_of(flags: u32) -> PgprotKind {
    let caching = flags / 0x80_0000 % 8;
    if caching == CACHING_TYPE_CACHED || caching == CACHING_TYPE_WRITEBACK {
        PgprotKind::WriteBack
    } else if caching == CACHING_TYPE_WRITECOMBINED || caching == CACHING_TYPE_DEFAULT {
        PgprotKind::WriteCombine
    } else {
        PgprotKind::Uncached
    }
}

pub const CACHING_TYPE_CACHED: u32 = 0;

pub const CACHING_TYPE_WRITECOMBINED: u32 = 2;

pub const CACHING_TYPE_WRITEBACK: u32 = 5;

pub const CACHING_TYPE_DEFAULT: u32 = 6;

/// The caching mode that the flags of a mapping ask for.  Modes without a zone of their own
/// count as uncached.
pub fn pgprot_from_flags(flags: u32) -> (r: PgprotKind)
    ensures
        r == pgprot_of(flags),
{
    let caching = (flags >> 23u32) & 0x7;
    assert((flags >> 23u32) & 0x7 == flags / 0x80_0000 % 8) by (bit_vector);
    match caching {
        CACHING_TYPE_CACHED | CACHING_TYPE_WRITEBACK => PgprotKind::WriteBack,
        CACHING_TYPE_WRITECOMBINED | CACHING_TYPE_DEFAULT => PgprotKind::WriteCombine,
        _ => PgprotKind::Uncached,
    }
}

/// Memory that the host has to map into the window.
#[derive(Debug)]
pub struct MapCall {
    pub cookie: u64,
    pub map: HostMap,
    pub placement: Placement,
    /// The parameters that go back to the guest.
    pub params: Vec<u8>,
}

impl IoctlCallView {
    /// The host's answer asks for a mapping into the window: the resource manager reports no
    /// error.
    pub open spec fn wants_map(self) -> bool {
        self.plan is MapMemory && u32_at(self.params, 40) == 0
    }

    /// Bytes to map.
    pub open spec fn map_length(self) -> u64 {
        u64_at(self.params, 24)
    }

    /// Caching mode of the mapping.
    pub open spec fn map_pgprot(self) -> PgprotKind {
        pgprot_of(u32_at(self.params, 44))
    }

    /// The sum of what the zone holds and the length to map is a machine number.
    pub open spec fn map_measurable(self, shm: ShmAllocator) -> bool {
        self.wants_map() ==> shm.zone(self.map_pgprot()).measurable(self.map_length())
    }
}

} // verus!
