//! Escape numbers of the driver's ioctls, and the encoding of Linux ioctl numbers.

use vstd::prelude::*;

verus! {

// Escapes of /dev/nvidiactl and /dev/nvidia#.
pub const NV_ESC_CARD_INFO: u32 = 0x01;

pub const NV_ESC_CHECK_VERSION_STR: u32 = 0x25;

pub const NV_ESC_REGISTER_FD: u32 = 0x2A;

pub const NV_ESC_ALLOC_OS_EVENT: u32 = 0x2C;

pub const NV_ESC_FREE_OS_EVENT: u32 = 0x2D;

pub const NV_ESC_STATUS_CODE: u32 = 0x30;

pub const NV_ESC_RM_ALLOC_MEMORY: u32 = 0x52;

pub const NV_ESC_RM_FREE: u32 = 0x53;

pub const NV_ESC_RM_CONTROL: u32 = 0x54;

pub const NV_ESC_RM_ALLOC: u32 = 0x55;

pub const NV_ESC_RM_DUP_OBJECT: u32 = 0x56;

pub const NV_ESC_RM_SHARE: u32 = 0x57;

pub const NV_ESC_RM_MAP_MEMORY: u32 = 0x4E;

pub const NV_ESC_RM_UNMAP_MEMORY: u32 = 0x4F;

pub const NV_ESC_RM_UPDATE_DEVICE_MAPPING_INFO: u32 = 0x5E;

// Escapes of /dev/nvidia-uvm.
pub const UVM_INITIALIZE: u32 = 0x01;

pub const UVM_DEINITIALIZE: u32 = 0x02;

/// The type byte of the driver's ioctls: 'F'.
pub const NV_IOCTL_MAGIC: u32 = 0x46;

/// The fields of an ioctl number are within their widths: two bits of direction, fourteen of
/// size, eight each of type and number.
pub open spec fn fields_fit(dir: u32, ty: u32, nr: u32, size: u32) -> bool {
    &&& dir < 4
    &&& size < 0x4000
    &&& ty < 0x100
    &&& nr < 0x100
}

/// An ioctl number: direction in bits 31-30, size in 29-16, type in 15-8, number in 7-0.
pub open spec fn ioc(dir: u32, ty: u32, nr: u32, size: u32) -> u64 {
    ((dir << 30u32) | (size << 16u32) | (ty << 8u32) | nr) as u64
}

/// The lowest byte of an ioctl number.
pub open spec fn low_byte(request: u64) -> u32 {
    (request % 256) as u32
}

/// Fields that are within their widths can be read back from the ioctl number, which is their
/// sum.
pub proof fn ioc_keeps_its_fields(dir: u32, ty: u32, nr: u32, size: u32)
    requires
        fields_fit(dir, ty, nr, size),
    ensures
        ioc(dir, ty, nr, size) == dir * 0x4000_0000 + size * 0x1_0000 + ty * 0x100 + nr,
        low_byte(ioc(dir, ty, nr, size)) == nr,
        ioc(dir, ty, nr, size) / 0x100 % 0x100 == ty,
        ioc(dir, ty, nr, size) / 0x1_0000 % 0x4000 == size,
        ioc(dir, ty, nr, size) / 0x4000_0000 == dir,
{
    assert(((dir << 30u32) | (size << 16u32) | (ty << 8u32) | nr) == dir * 0x4000_0000 + size
        * 0x1_0000 + ty * 0x100 + nr) by (bit_vector)
        requires
            dir < 4,
            size < 0x4000,
            ty < 0x100,
            nr < 0x100,
    ;
}

/// Encodes an ioctl number.
#[allow(non_snake_case)]
pub fn _IOC(dir: u32, ty: u32, nr: u32, size: u32) -> (r: u64)
    ensures
        r == ioc(dir, ty, nr, size),
{
    ((dir << 30u32) | (size << 16u32) | (ty << 8u32) | nr) as u64
}

/// An ioctl without argument.
#[allow(non_snake_case)]
pub fn _IO(nr: u32) -> (r: u64)
    ensures
        r == ioc(0, NV_IOCTL_MAGIC, nr, 0),
{
    _IOC(0, NV_IOCTL_MAGIC, nr, 0)
}

/// An ioctl whose argument the driver reads.
#[allow(non_snake_case)]
pub fn _IOW(nr: u32, size: u32) -> (r: u64)
    ensures
        r == ioc(1, NV_IOCTL_MAGIC, nr, size),
{
    _IOC(1, NV_IOCTL_MAGIC, nr, size)
}

/// An ioctl whose argument the driver writes.
#[allow(non_snake_case)]
pub fn _IOR(nr: u32, size: u32) -> (r: u64)
    ensures
        r == ioc(2, NV_IOCTL_MAGIC, nr, size),
{
    _IOC(2, NV_IOCTL_MAGIC, nr, size)
}

/// An ioctl whose argument the driver reads and writes.
#[allow(non_snake_case)]
pub fn _IOWR(nr: u32, size: u32) -> (r: u64)
    ensures
        r == ioc(3, NV_IOCTL_MAGIC, nr, size),
{
    _IOC(3, NV_IOCTL_MAGIC, nr, size)
}

/// The escape of an ioctl number: its lowest byte.
pub fn escape_of(request: u64) -> (r: u32)
    ensures
        r == low_byte(request),
{
    assert(request & 0xFF == request % 256) by (bit_vector);
    (request & 0xFF) as u32
}

/// Whatever the fields are, each is moved to its place and all are put together bit by bit; what
/// goes beyond 32 bits is lost.
pub proof fn fields_are_put_together(dir: u32, ty: u32, nr: u32, size: u32)
    ensures
        ioc(dir, ty, nr, size) == ioc(dir, 0, 0, 0) | ioc(0, ty, 0, 0) | ioc(0, 0, nr, 0) | ioc(
            0,
            0,
            0,
            size,
        ),
        ioc(0, 0, nr, 0) == nr,
        ioc(0, ty, 0, 0) == ty * 0x100 % 0x1_0000_0000,
        ioc(0, 0, 0, size) == size * 0x1_0000 % 0x1_0000_0000,
        ioc(dir, 0, 0, 0) == dir * 0x4000_0000 % 0x1_0000_0000,
{
    assert({
        &&& (((dir << 30u32) | (size << 16u32) | (ty << 8u32) | nr) as u64) == ((((dir << 30u32) | (
        0u32 << 16u32) | (0u32 << 8u32) | 0u32) as u64) | (((0u32 << 30u32) | (0u32 << 16u32) | (ty
            << 8u32) | 0u32) as u64) | (((0u32 << 30u32) | (0u32 << 16u32) | (0u32 << 8u32) | nr)
            as u64) | (((0u32 << 30u32) | (size << 16u32) | (0u32 << 8u32) | 0u32) as u64))
        &&& ((0u32 << 30u32) | (0u32 << 16u32) | (0u32 << 8u32) | nr) == nr
        &&& (((0u32 << 30u32) | (0u32 << 16u32) | (ty << 8u32) | 0u32) as u64) == (ty as u64)
            * 0x100 % 0x1_0000_0000
        &&& (((0u32 << 30u32) | (size << 16u32) | (0u32 << 8u32) | 0u32) as u64) == (size as u64)
            * 0x1_0000 % 0x1_0000_0000
        &&& (((dir << 30u32) | (0u32 << 16u32) | (0u32 << 8u32) | 0u32) as u64) == (dir as u64)
            * 0x4000_0000 % 0x1_0000_0000
    }) by (bit_vector);
}

} // verus!
