//! Error numbers of the Linux system-call interface, as the guest sees them.

use vstd::prelude::*;

verus! {

/// Input/output error.
pub const EIO: i32 = 5;

/// Bad file descriptor.
pub const EBADF: i32 = 9;

/// Cannot allocate memory.
pub const ENOMEM: i32 = 12;

/// No such device.
pub const ENODEV: i32 = 19;

/// Invalid argument.
pub const EINVAL: i32 = 22;

/// Inappropriate ioctl for device.
pub const ENOTTY: i32 = 25;

/// Function not implemented.
pub const ENOSYS: i32 = 38;

} // verus!
