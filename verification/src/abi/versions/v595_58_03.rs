//! Table of ioctls of driver version 595.58.03.

use vstd::prelude::*;

use crate::abi::ioctl::{
    ioc, ioc_keeps_its_fields, low_byte, NV_ESC_ALLOC_OS_EVENT, NV_ESC_CARD_INFO,
    NV_ESC_CHECK_VERSION_STR, NV_ESC_FREE_OS_EVENT, NV_ESC_REGISTER_FD, NV_ESC_RM_ALLOC,
    NV_ESC_RM_CONTROL, NV_ESC_RM_FREE, NV_ESC_RM_MAP_MEMORY, NV_ESC_RM_UNMAP_MEMORY, NV_IOCTL_MAGIC,
    _IOWR,
};

pub use crate::abi::versions::v535_129_03::{IoctlEntry, IoctlKind};

verus! {

/// The entry of an ioctl with `size` bytes of parameters, which the driver reads and writes.
pub open spec fn entry_of(escape: u32, size: u32, kind: IoctlKind) -> IoctlEntry {
    IoctlEntry { number: ioc(3, NV_IOCTL_MAGIC, escape, size), escape, kind }
}

/// The ioctls of the driver: escape, size of the parameters, kind.
pub open spec fn entries() -> Seq<IoctlEntry> {
    seq![
        entry_of(NV_ESC_CHECK_VERSION_STR, 4096, IoctlKind::Simple),
        entry_of(NV_ESC_CARD_INFO, 4096, IoctlKind::Simple),
        entry_of(NV_ESC_REGISTER_FD, 8, IoctlKind::FdCarrying),
        entry_of(NV_ESC_RM_ALLOC, 48, IoctlKind::RmAlloc),
        entry_of(NV_ESC_RM_CONTROL, 56, IoctlKind::RmControl),
        entry_of(NV_ESC_RM_FREE, 16, IoctlKind::Simple),
        entry_of(NV_ESC_RM_MAP_MEMORY, 40, IoctlKind::Mapping),
        entry_of(NV_ESC_RM_UNMAP_MEMORY, 40, IoctlKind::Simple),
        entry_of(NV_ESC_ALLOC_OS_EVENT, 16, IoctlKind::FdCarrying),
        entry_of(NV_ESC_FREE_OS_EVENT, 16, IoctlKind::FdCarrying),
    ]
}

/// The entry of an ioctl that the driver reads and writes.
fn entry(escape: u32, size: u32, kind: IoctlKind) -> (r: IoctlEntry)
    ensures
        r == entry_of(escape, size, kind),
{
    IoctlEntry { number: _IOWR(escape, size), escape, kind }
}

/// The ioctls of the driver.
pub fn table() -> (r: Vec<IoctlEntry>)
    ensures
        r@ == entries(),
{
    let table = vec![
        entry(NV_ESC_CHECK_VERSION_STR, 4096, IoctlKind::Simple),
        entry(NV_ESC_CARD_INFO, 4096, IoctlKind::Simple),
        entry(NV_ESC_REGISTER_FD, 8, IoctlKind::FdCarrying),
        entry(NV_ESC_RM_ALLOC, 48, IoctlKind::RmAlloc),
        entry(NV_ESC_RM_CONTROL, 56, IoctlKind::RmControl),
        entry(NV_ESC_RM_FREE, 16, IoctlKind::Simple),
        entry(NV_ESC_RM_MAP_MEMORY, 40, IoctlKind::Mapping),
        entry(NV_ESC_RM_UNMAP_MEMORY, 40, IoctlKind::Simple),
        entry(NV_ESC_ALLOC_OS_EVENT, 16, IoctlKind::FdCarrying),
        entry(NV_ESC_FREE_OS_EVENT, 16, IoctlKind::FdCarrying),
    ];
    assert(table@ =~= entries());
    table
}

/// Each entry can be found by the lowest byte of its number, and no two have the same.
pub proof fn entries_are_found_by_escape(i: int, j: int)
    requires
        0 <= i < entries().len(),
        0 <= j < entries().len(),
    ensures
        low_byte(entries()[i].number) == entries()[i].escape,
        entries()[i].escape == entries()[j].escape ==> i == j,
{
    ioc_keeps_its_fields(3, NV_IOCTL_MAGIC, NV_ESC_CHECK_VERSION_STR, 4096);
    ioc_keeps_its_fields(3, NV_IOCTL_MAGIC, NV_ESC_CARD_INFO, 4096);
    ioc_keeps_its_fields(3, NV_IOCTL_MAGIC, NV_ESC_REGISTER_FD, 8);
    ioc_keeps_its_fields(3, NV_IOCTL_MAGIC, NV_ESC_RM_ALLOC, 48);
    ioc_keeps_its_fields(3, NV_IOCTL_MAGIC, NV_ESC_RM_CONTROL, 56);
    ioc_keeps_its_fields(3, NV_IOCTL_MAGIC, NV_ESC_RM_FREE, 16);
    ioc_keeps_its_fields(3, NV_IOCTL_MAGIC, NV_ESC_RM_MAP_MEMORY, 40);
    ioc_keeps_its_fields(3, NV_IOCTL_MAGIC, NV_ESC_RM_UNMAP_MEMORY, 40);
    ioc_keeps_its_fields(3, NV_IOCTL_MAGIC, NV_ESC_ALLOC_OS_EVENT, 16);
    ioc_keeps_its_fields(3, NV_IOCTL_MAGIC, NV_ESC_FREE_OS_EVENT, 16);
}

/// Every entry is a number that the driver reads and writes (direction 3) of type 'F', with its
/// escape and the size of its parameters: these ten, each of its kind.
pub proof fn entries_state_escape_size_and_kind(i: int)
    requires
        0 <= i < entries().len(),
    ensures
        entries().len() == 10,
        ({
            let e = entries()[i];
            let size = e.number / 0x1_0000 % 0x4000;
            &&& e.number / 0x4000_0000 == 3
            &&& e.number / 0x100 % 0x100 == 0x46
            &&& e.number % 0x100 == e.escape
            &&& (e.escape == 0x25 || e.escape == 0x01) ==> size == 4096 && e.kind
                == IoctlKind::Simple
            &&& e.escape == 0x2A ==> size == 8 && e.kind == IoctlKind::FdCarrying
            &&& e.escape == 0x55 ==> size == 48 && e.kind == IoctlKind::RmAlloc
            &&& e.escape == 0x54 ==> size == 56 && e.kind == IoctlKind::RmControl
            &&& e.escape == 0x53 ==> size == 16 && e.kind == IoctlKind::Simple
            &&& e.escape == 0x4E ==> size == 40 && e.kind == IoctlKind::Mapping
            &&& e.escape == 0x4F ==> size == 40 && e.kind == IoctlKind::Simple
            &&& (e.escape == 0x2C || e.escape == 0x2D) ==> size == 16 && e.kind
                == IoctlKind::FdCarrying
            &&& e.escape == 0x25 || e.escape == 0x01 || e.escape == 0x2A || e.escape == 0x55
                || e.escape == 0x54 || e.escape == 0x53 || e.escape == 0x4E || e.escape == 0x4F
                || e.escape == 0x2C || e.escape == 0x2D
        }),
{
    ioc_keeps_its_fields(3, NV_IOCTL_MAGIC, NV_ESC_CHECK_VERSION_STR, 4096);
    ioc_keeps_its_fields(3, NV_IOCTL_MAGIC, NV_ESC_CARD_INFO, 4096);
    ioc_keeps_its_fields(3, NV_IOCTL_MAGIC, NV_ESC_REGISTER_FD, 8);
    ioc_keeps_its_fields(3, NV_IOCTL_MAGIC, NV_ESC_RM_ALLOC, 48);
    ioc_keeps_its_fields(3, NV_IOCTL_MAGIC, NV_ESC_RM_CONTROL, 56);
    ioc_keeps_its_fields(3, NV_IOCTL_MAGIC, NV_ESC_RM_FREE, 16);
    ioc_keeps_its_fields(3, NV_IOCTL_MAGIC, NV_ESC_RM_MAP_MEMORY, 40);
    ioc_keeps_its_fields(3, NV_IOCTL_MAGIC, NV_ESC_RM_UNMAP_MEMORY, 40);
    ioc_keeps_its_fields(3, NV_IOCTL_MAGIC, NV_ESC_ALLOC_OS_EVENT, 16);
    ioc_keeps_its_fields(3, NV_IOCTL_MAGIC, NV_ESC_FREE_OS_EVENT, 16);
}

} // verus!
