//! Evdev records.

use vstd::prelude::*;
use crate::uapi::bytes::{as_signed, read_i32, read_u32, read_u64, u32_at};
use crate::uapi::request::{ioc, request_number, EVDEV_KIND, IOC_READ};
use crate::uapi::{invalid_data, says, Error, ErrorKind};

verus! {

/// Bytes of one event record.
pub const EVENT_BYTES: usize = 24;

/// One input event.
#[derive(Clone, Copy, Debug, PartialEq, Eq, Structural)]
pub struct InputEvent {
    seconds: u64,
    microseconds: u64,
    kind: u16,
    code: u16,
    value: i32,
}

impl InputEvent {
    /// Event type.
    pub closed spec fn spec_kind(self) -> u16 {
        self.kind
    }

    /// Event code.
    pub closed spec fn spec_code(self) -> u16 {
        self.code
    }

    /// Event value.
    pub closed spec fn spec_value(self) -> i32 {
        self.value
    }

    /// An event of all zeros.
    pub fn empty() -> (result: Self)
        ensures
            result.spec_kind() == 0,
            result.spec_code() == 0,
            result.spec_value() == 0,
    {
        InputEvent { seconds: 0, microseconds: 0, kind: 0, code: 0, value: 0 }
    }

    /// Event type.
    pub fn kind(self) -> (result: u16)
        ensures
            result == self.spec_kind(),
    {
        self.kind
    }

    /// Event code.
    pub fn code(self) -> (result: u16)
        ensures
            result == self.spec_code(),
    {
        self.code
    }

    /// Event value.
    pub fn value(self) -> (result: i32)
        ensures
            result == self.spec_value(),
    {
        self.value
    }

    /// Reads one record: two 64-bit time fields, type and code of 16 bits each,
    /// and the signed value.
    pub fn decode(bytes: &[u8], offset: usize) -> (result: Self)
        requires
            offset + EVENT_BYTES <= bytes@.len(),
        ensures
            result.spec_kind() == u32_at(bytes@, offset + 16) % 0x1_0000,
            result.spec_code() == u32_at(bytes@, offset + 16) / 0x1_0000,
            result.spec_value() == as_signed(u32_at(bytes@, offset + 20)),
    {
        assert(bytes.len() == bytes@.len());
        let pair: u32 = read_u32(bytes, offset + 16);
        InputEvent {
            seconds: read_u64(bytes, offset),
            microseconds: read_u64(bytes, offset + 8),
            kind: (pair % 0x1_0000) as u16,
            code: (pair / 0x1_0000) as u16,
            value: read_i32(bytes, offset + 20),
        }
    }
}

/// The range of an absolute axis.
#[derive(Clone, Copy, Debug, PartialEq, Eq, Structural)]
pub struct AbsoluteRange {
    pub minimum: i32,
    pub maximum: i32,
}

impl AbsoluteRange {
    /// Reads the kernel's description of an axis: the current value, the bounds,
    /// and three numbers more.
    pub fn decode(info: &[u8]) -> (result: Self)
        requires
            info@.len() == 24,
        ensures
            result.minimum == as_signed(u32_at(info@, 4)),
            result.maximum == as_signed(u32_at(info@, 8)),
    {
        AbsoluteRange { minimum: read_i32(info, 4), maximum: read_i32(info, 8) }
    }
}

/// An absolute axis.
#[derive(Clone, Copy, Debug, PartialEq, Eq, Structural)]
pub enum AbsoluteAxis {
    X,
    Y,
}

impl AbsoluteAxis {
    /// The request that reads the axis.
    pub fn request(self) -> (result: usize)
        ensures
            result == request_number(
                IOC_READ as int,
                EVDEV_KIND as int,
                if self == AbsoluteAxis::X {
                    0x40
                } else {
                    0x41
                },
                24,
            ),
    {
        match self {
            AbsoluteAxis::X => ioc(IOC_READ, EVDEV_KIND, 0x40, 24),
            AbsoluteAxis::Y => ioc(IOC_READ, EVDEV_KIND, 0x41, 24),
        }
    }
}

/// Number of events in a read of so many bytes; a partial record is rejected.
pub fn event_count(bytes: usize) -> (result: Result<usize, Error>)
    ensures
        match result {
            Ok(count) => bytes % 24 == 0 && count == bytes / 24,
            Err(error) => bytes % 24 != 0 && says(
                error,
                ErrorKind::InvalidData,
                "evdev returned a partial event"@,
            ),
        },
{
    if bytes % 24 != 0 {
        return Err(invalid_data("evdev returned a partial event"));
    }
    Ok(bytes / 24)
}

/// Length of a device name: up to the first zero byte.
pub fn name_length(name: &[u8]) -> (result: usize)
    ensures
        result <= name@.len(),
        forall|i: int| 0 <= i < result ==> name@[i] != 0,
        result < name@.len() ==> name@[result as int] == 0,
{
    let mut i: usize = 0;
    while i < name.len()
        invariant
            i <= name@.len(),
            forall|k: int| 0 <= k < i ==> name@[k] != 0,
        decreases name@.len() - i,
    {
        if name[i] == 0 {
            return i;
        }
        i = i + 1;
    }
    i
}

} // verus!
