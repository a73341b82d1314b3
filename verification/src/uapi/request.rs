//! Ioctl request numbers.

use vstd::prelude::*;

verus! {

/// The request hands data to the kernel.
pub const IOC_WRITE: usize = 1;

/// The request gets data from the kernel.
pub const IOC_READ: usize = 2;

/// Request kind of DRM devices, `d`.
pub const DRM_KIND: usize = 0x64;

/// Request kind of evdev devices, `E`.
pub const EVDEV_KIND: usize = 0x45;

/// The number of a request: direction, argument size, kind and ordinal, from
/// the top down.
pub open spec fn request_number(direction: int, kind: int, number: int, size: int) -> int {
    direction * 0x4000_0000 + size * 0x1_0000 + kind * 0x100 + number
}

/// Builds a request number.
pub fn ioc(direction: usize, kind: usize, number: usize, size: usize) -> (result: usize)
    requires
        direction < 4,
        kind < 0x100,
        number < 0x100,
        size < 0x4000,
    ensures
        result == request_number(direction as int, kind as int, number as int, size as int),
{
    direction * 0x4000_0000 + size * 0x1_0000 + kind * 0x100 + number
}

/// Builds the number of a DRM request that goes both ways.
pub fn drm_iowr(number: usize, size: usize) -> (result: usize)
    requires
        number < 0x100,
        size < 0x4000,
    ensures
        result == request_number(3, DRM_KIND as int, number as int, size as int),
{
    ioc(3, DRM_KIND, number, size)
}

/// The request that gives up the master role of a DRM device.
pub const DRM_IOCTL_DROP_MASTER: usize = 0x641f;

/// Different requests have different numbers: every part can be read back.
pub proof fn request_parts(direction: int, kind: int, number: int, size: int)
    requires
        0 <= direction < 4,
        0 <= kind < 0x100,
        0 <= number < 0x100,
        0 <= size < 0x4000,
    ensures
        ({
            let request = request_number(direction, kind, number, size);
            &&& request / 0x4000_0000 == direction
            &&& request / 0x1_0000 % 0x4000 == size
            &&& request / 0x100 % 0x100 == kind
            &&& request % 0x100 == number
        }),
        request_number(0, DRM_KIND as int, 0x1f, 0) == DRM_IOCTL_DROP_MASTER,
{
}

} // verus!
