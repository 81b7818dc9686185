//! What a table of ioctls holds, as of driver version 535.129.03.

use vstd::prelude::*;

verus! {

/// How the parameters of an ioctl reach the host.
#[derive(Clone, Copy, Debug, PartialEq, Eq, Structural)]
pub enum IoctlKind {
    /// As they are.
    Simple,
    /// With a translated descriptor.
    FdCarrying,
    /// With the parameters of an allocation behind a pointer.
    RmAlloc,
    /// With the parameters of a control command behind a pointer.
    RmControl,
    /// With a translated descriptor, and a mapping to be made afterwards.
    Mapping,
}

/// One ioctl of the driver.
#[derive(Clone, Copy, Debug, PartialEq, Eq, Structural)]
pub struct IoctlEntry {
    /// The number that the guest passes.
    pub number: u64,
    /// The lowest byte of the number.
    pub escape: u32,
    pub kind: IoctlKind,
}

} // verus!
