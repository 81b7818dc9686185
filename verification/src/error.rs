//! What can go wrong inside the backend.

use vstd::prelude::*;

use crate::shm::PgprotKind;

verus! {

/// A failure that the backend finds itself, before or after it asks the host.
#[derive(Clone, Copy, Debug)]
pub enum DeviceError {
    /// The guest named a handle that is not open.
    BadHandle(u64),
    /// The guest asked for a GPU beyond the last one.
    GpuIndexOutOfRange(u8),
    /// The guest asked for a kind of device that does not exist.
    InvalidDeviceKind(u8),
    /// A zone of the shared memory has too little room left.
    ZoneFull { pgprot: PgprotKind, free: u64, requested: u64 },
}

} // verus!
