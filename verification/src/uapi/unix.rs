//! Polling, ancillary data and shared memory rules.

use vstd::prelude::*;
use vstd::string::*;
use crate::uapi::bytes::{
    as_signed, read_i32, read_u64, u32_at, u64_at, with_u32, with_u64, write_u32, write_u64, zeros,
};
use crate::uapi::{invalid_data, invalid_input, says, Error, ErrorKind};

verus! {

/// The identity of a connected peer.
#[derive(Clone, Copy, Debug, PartialEq, Eq, Structural)]
pub struct PeerCredentials {
    pub pid: i32,
    pub uid: u32,
    pub gid: u32,
}

/// Bytes of a credential record.
pub const CREDENTIAL_BYTES: u32 = 12;

/// Checks the record that the kernel gave: it is complete and names a process.
pub fn check_credentials(credentials: PeerCredentials, length: u32) -> (result: Result<
    PeerCredentials,
    Error,
>)
    ensures
        match result {
            Ok(checked) => length == CREDENTIAL_BYTES && credentials.pid > 0 && checked
                == credentials,
            Err(error) => (length != CREDENTIAL_BYTES || credentials.pid <= 0) && says(
                error,
                ErrorKind::InvalidData,
                "SO_PEERCRED returned an invalid credential record"@,
            ),
        },
{
    if length != CREDENTIAL_BYTES || credentials.pid <= 0 {
        return Err(invalid_data("SO_PEERCRED returned an invalid credential record"));
    }
    Ok(credentials)
}

/// Events asked of or returned by a poll.
#[derive(Clone, Copy, Debug, PartialEq, Eq, Structural)]
pub struct PollEvents(u16);

impl PollEvents {
    /// The event bits.
    pub closed spec fn bits(self) -> u16 {
        self.0
    }

    /// Data can be read.
    pub fn read() -> (result: Self)
        ensures
            result.bits() == 1,
    {
        PollEvents(1)
    }

    /// Data can be written.
    pub fn write() -> (result: Self)
        ensures
            result.bits() == 4,
    {
        PollEvents(4)
    }

    /// The descriptor has failed.
    pub fn error() -> (result: Self)
        ensures
            result.bits() == 8,
    {
        PollEvents(8)
    }

    /// The peer has hung up.
    pub fn hangup() -> (result: Self)
        ensures
            result.bits() == 16,
    {
        PollEvents(16)
    }

    /// No event.
    pub fn empty() -> (result: Self)
        ensures
            result.bits() == 0,
    {
        PollEvents(0)
    }

    /// Events by their bits.
    pub fn from_bits(bits: u16) -> (result: Self)
        ensures
            result.bits() == bits,
    {
        PollEvents(bits)
    }

    /// The event bits.
    pub fn get(self) -> (result: u16)
        ensures
            result == self.bits(),
    {
        self.0
    }

    /// Whether any of the other events is among these.
    pub fn contains(self, other: Self) -> (result: bool)
        ensures
            result == (self.bits() & other.bits() != 0),
    {
        self.0 & other.0 != 0
    }

    /// The events of both.
    pub fn union(self, other: Self) -> (result: Self)
        ensures
            result.bits() == self.bits() | other.bits(),
    {
        PollEvents(self.0 | other.0)
    }
}

/// A union contains what either part contains.
pub proof fn union_contains_both(a: u16, b: u16, wanted: u16)
    ensures
        (a | b) & wanted != 0 <==> (a & wanted != 0 || b & wanted != 0),
{
    assert((a | b) & wanted != 0 <==> (a & wanted != 0 || b & wanted != 0)) by (bit_vector);
}

/// The timeout of a poll in milliseconds: none waits forever, and one too long
/// to state is cut.
pub fn poll_timeout(millis: Option<u128>) -> (result: i32)
    ensures
        result == (match millis {
            None => -1int,
            Some(wait) => if wait <= i32::MAX {
                wait as int
            } else {
                i32::MAX as int
            },
        }),
{
    match millis {
        None => -1,
        Some(wait) => if wait <= 0x7fff_ffff {
            wait as i32
        } else {
            0x7fff_ffff
        },
    }
}

/// Bytes of a control message header.
pub const HEADER_BYTES: usize = 16;

/// Socket-level control data.
pub const SOL_SOCKET: i32 = 1;

/// Control data that passes descriptors.
pub const SCM_RIGHTS: i32 = 1;

/// The kernel cut control data off.
pub const MSG_CTRUNC: u32 = 8;

/// Length of the control message for one descriptor.
pub const CMSG_FD_LEN: usize = 20;

/// Space of the control message for one descriptor.
pub const CMSG_FD_SPACE: usize = 24;

/// Rounds a message length up to the alignment of the next message.
pub open spec fn aligned(length: int) -> int {
    (length + 7) / 8 * 8
}

/// The numbers of `count` descriptors from a position on.
pub open spec fn descriptors_at(bytes: Seq<u8>, at: int, count: int) -> Seq<i32>
    decreases count,
{
    if count <= 0 {
        Seq::empty()
    } else {
        let before = descriptors_at(bytes, at, count - 1);
        let number = as_signed(u32_at(bytes, at + 4 * (count - 1)));
        if number < 0 {
            before
        } else {
            before.push(number as i32)
        }
    }
}

/// One of `count` descriptors is negative.
pub open spec fn any_negative(bytes: Seq<u8>, at: int, count: int) -> bool
    decreases count,
{
    if count <= 0 {
        false
    } else {
        any_negative(bytes, at, count - 1) || as_signed(u32_at(bytes, at + 4 * (count - 1))) < 0
    }
}

/// The message at a position passes descriptors.
pub open spec fn passes_rights(bytes: Seq<u8>, at: int, message: int) -> bool {
    &&& as_signed(u32_at(bytes, at + 8)) == SOL_SOCKET
    &&& as_signed(u32_at(bytes, at + 12)) == SCM_RIGHTS
    &&& message > HEADER_BYTES
    &&& (message - HEADER_BYTES) % 4 == 0
}

/// The descriptors in the control data from `at` on, and whether any of it is
/// malformed. A message of impossible length ends the walk.
pub open spec fn scan(bytes: Seq<u8>, length: int, at: int) -> (Seq<i32>, bool)
    decreases length + 8 - at,
{
    if at + HEADER_BYTES > length {
        (Seq::empty(), false)
    } else {
        let message = u64_at(bytes, at);
        if message < HEADER_BYTES || message > length - at {
            (Seq::empty(), true)
        } else {
            let (rest, bad) = scan(bytes, length, at + aligned(message));
            if passes_rights(bytes, at, message) {
                let count = (message - HEADER_BYTES) / 4;
                (
                    descriptors_at(bytes, at + HEADER_BYTES, count) + rest,
                    bad || any_negative(bytes, at + HEADER_BYTES, count),
                )
            } else {
                (rest, true)
            }
        }
    }
}

/// Why control data was rejected.
#[derive(Clone, Copy, Debug, PartialEq, Eq, Structural)]
pub enum ControlError {
    /// The kernel claims more control data than there is room for.
    LengthExceedsStorage,
    /// There is not zero or exactly one descriptor.
    NotOneDescriptor,
    /// The kernel cut control data off.
    TruncatedControl,
}

/// What received control data holds. Every listed descriptor is open in this
/// process; on an error all of them are to be closed.
pub struct ReceivedControl {
    pub descriptors: Vec<i32>,
    pub error: Option<ControlError>,
}

/// Walks the control data of a received message. Descriptors that arrived with
/// malformed data are listed too, so that none is leaked.
pub fn parse_received_control(bytes: &[u8], length: usize) -> (result: ReceivedControl)
    ensures
        length > bytes@.len() ==> result.descriptors@ == Seq::<i32>::empty() && result.error == Some(
            ControlError::LengthExceedsStorage,
        ),
        length <= bytes@.len() ==> {
            let (descriptors, bad) = scan(bytes@, length as int, 0);
            &&& result.descriptors@ == descriptors
            &&& result.error == (if bad || descriptors.len() > 1 {
                Some(ControlError::NotOneDescriptor)
            } else {
                None
            })
        },
{
    let mut descriptors: Vec<i32> = Vec::new();
    if length > bytes.len() {
        assert(descriptors@ =~= Seq::<i32>::empty());
        return ReceivedControl {
            descriptors,
            error: Some(ControlError::LengthExceedsStorage),
        };
    }
    let total: usize = bytes.len();
    let mut offset: usize = 0;
    let mut invalid: bool = false;
    let ghost all = scan(bytes@, length as int, 0);
    assert(descriptors@ + scan(bytes@, length as int, 0).0 =~= all.0);
    while offset <= length && length - offset >= HEADER_BYTES
        invariant_except_break
            descriptors@ + scan(bytes@, length as int, offset as int).0 == all.0,
            (invalid || scan(bytes@, length as int, offset as int).1) == all.1,
        invariant
            length <= total,
            total == bytes@.len(),
            all == scan(bytes@, length as int, 0),
        ensures
            descriptors@ == all.0,
            invalid == all.1,
        decreases length + 8 - offset,
    {
        let message: u64 = read_u64(bytes, offset);
        if message < 16 || message > (length - offset) as u64 {
            assert(descriptors@ + Seq::<i32>::empty() =~= descriptors@);
            invalid = true;
            break ;
        }
        let size: usize = message as usize;
        let level: i32 = read_i32(bytes, offset + 8);
        let kind: i32 = read_i32(bytes, offset + 12);
        let payload: usize = size - HEADER_BYTES;
        let ghost before = descriptors@;
        let ghost rest = scan(bytes@, length as int, offset + aligned(message as int));
        if level != SOL_SOCKET || kind != SCM_RIGHTS || payload == 0 || payload % 4 != 0 {
            invalid = true;
        } else {
            let count: usize = payload / 4;
            let start: usize = offset + HEADER_BYTES;
            let ghost was = invalid;
            let mut i: usize = 0;
            assert(before + descriptors_at(bytes@, start as int, 0) =~= before);
            while i < count
                invariant
                    total == bytes@.len(),
                    i <= count,
                    start + 4 * count <= total,
                    descriptors@ == before + descriptors_at(bytes@, start as int, i as int),
                    invalid == (was || any_negative(bytes@, start as int, i as int)),
                decreases count - i,
            {
                let descriptor: i32 = read_i32(bytes, start + 4 * i);
                if descriptor < 0 {
                    invalid = true;
                } else {
                    descriptors.push(descriptor);
                    assert(descriptors@ =~= before + descriptors_at(
                        bytes@,
                        start as int,
                        i + 1,
                    ));
                }
                i = i + 1;
            }
            assert((before + descriptors_at(bytes@, start as int, count as int)) + rest.0 =~= before
                + (descriptors_at(bytes@, start as int, count as int) + rest.0));
        }
        let step: u128 = (size as u128 + 7) / 8 * 8;
        if step > (length - offset) as u128 {
            assert(scan(bytes@, length as int, offset + step) == (Seq::<i32>::empty(), false));
            assert(descriptors@ + Seq::<i32>::empty() =~= descriptors@);
            break ;
        }
        offset = offset + step as usize;
        proof {
            if offset + HEADER_BYTES > length {
                assert(descriptors@ + Seq::<i32>::empty() =~= descriptors@);
            }
        }
    }
    let many = descriptors.len() > 1;
    ReceivedControl {
        descriptors,
        error: if invalid || many {
            Some(ControlError::NotOneDescriptor)
        } else {
            None
        },
    }
}

/// The outcome of a receive: its descriptor, where there is one. Control data
/// that the kernel cut off is rejected even if what is left is well-formed.
pub fn received_descriptor(control: &ReceivedControl, flags: u32) -> (result: Result<
    Option<i32>,
    ControlError,
>)
    ensures
        result == (match control.error {
            Some(error) => Err::<Option<i32>, ControlError>(error),
            None => if flags & MSG_CTRUNC != 0 {
                Err(ControlError::TruncatedControl)
            } else if control.descriptors@.len() == 1 {
                Ok(Some(control.descriptors@[0]))
            } else {
                Ok(None)
            },
        }),
{
    if let Some(error) = control.error {
        return Err(error);
    }
    if flags & MSG_CTRUNC != 0 {
        return Err(ControlError::TruncatedControl);
    }
    if control.descriptors.len() == 1 {
        Ok(Some(control.descriptors[0]))
    } else {
        Ok(None)
    }
}

/// The control data that passes one descriptor.
pub open spec fn rights_message(descriptor: int) -> Seq<u8> {
    with_u32(
        with_u32(
            with_u32(
                with_u64(zeros(CMSG_FD_SPACE as nat), 0, CMSG_FD_LEN as int),
                8,
                SOL_SOCKET as int,
            ),
            12,
            SCM_RIGHTS as int,
        ),
        16,
        descriptor,
    )
}

/// Builds the control data that passes one descriptor.
pub fn fd_control(descriptor: i32) -> (result: Vec<u8>)
    requires
        descriptor >= 0,
    ensures
        result@ == rights_message(descriptor as int),
        result@.len() == CMSG_FD_SPACE,
{
    let mut bytes: Vec<u8> = Vec::new();
    let mut i: usize = 0;
    while i < CMSG_FD_SPACE
        invariant
            i <= CMSG_FD_SPACE,
            bytes@ == zeros(i as nat),
        decreases CMSG_FD_SPACE - i,
    {
        bytes.push(0);
        assert(bytes@ =~= zeros((i + 1) as nat));
        i = i + 1;
    }
    write_u64(bytes.as_mut_slice(), 0, CMSG_FD_LEN as u64);
    write_u32(bytes.as_mut_slice(), 8, SOL_SOCKET as u32);
    write_u32(bytes.as_mut_slice(), 12, SCM_RIGHTS as u32);
    write_u32(bytes.as_mut_slice(), 16, descriptor as u32);
    bytes
}

/// A descriptor that was passed is the one received.
pub proof fn passed_descriptor_is_received(descriptor: int)
    requires
        0 <= descriptor <= i32::MAX,
    ensures
        scan(rights_message(descriptor), CMSG_FD_SPACE as int, 0) == (
            seq![descriptor as i32],
            false,
        ),
{
    let a = with_u64(zeros(CMSG_FD_SPACE as nat), 0, CMSG_FD_LEN as int);
    crate::uapi::bytes::written_u64_is_read_back(
        zeros(CMSG_FD_SPACE as nat),
        0,
        CMSG_FD_LEN as int,
        0,
    );
    let b = with_u32(a, 8, SOL_SOCKET as int);
    let c = with_u32(b, 12, SCM_RIGHTS as int);
    let d = with_u32(c, 16, descriptor);
    crate::uapi::bytes::written_u32_is_read_back(a, 8, SOL_SOCKET as int, 0);
    crate::uapi::bytes::written_u32_is_read_back(b, 12, SCM_RIGHTS as int, 0);
    crate::uapi::bytes::written_u32_is_read_back(c, 16, descriptor, 0);
    assert(forall|i: int| 0 <= i < 8 ==> d[i] == a[i]);
    assert(forall|i: int| 8 <= i < 12 ==> d[i] == b[i]);
    assert(forall|i: int| 12 <= i < 16 ==> d[i] == c[i]);
    assert(d == rights_message(descriptor));
    assert(d[0] == a[0] && d[1] == a[1] && d[2] == a[2] && d[3] == a[3] && d[4] == a[4] && d[5]
        == a[5] && d[6] == a[6] && d[7] == a[7]);
    assert(u64_at(d, 0) == CMSG_FD_LEN);
    assert(d[8] == b[8] && d[9] == b[9] && d[10] == b[10] && d[11] == b[11]);
    assert(d[12] == c[12] && d[13] == c[13] && d[14] == c[14] && d[15] == c[15]);
    assert(u32_at(d, 16) == descriptor);
    reveal_with_fuel(descriptors_at, 2);
    reveal_with_fuel(any_negative, 2);
    assert(descriptors_at(d, 16, 1) =~= seq![descriptor as i32]);
    assert(scan(d, CMSG_FD_SPACE as int, 24) == (Seq::<i32>::empty(), false));
    assert(aligned(20) == 24);
    assert(descriptors_at(d, 16, 1) + Seq::<i32>::empty() =~= seq![descriptor as i32]);
}

/// Checks the size and name of a new shared memory file.
pub fn check_memfd(name: &str, length: usize) -> (result: Result<(), Error>)
    ensures
        match result {
            Ok(_) => 0 < length <= i64::MAX && !name@.contains('\0'),
            Err(error) => if length == 0 || length > i64::MAX {
                says(
                    error,
                    ErrorKind::InvalidInput,
                    "shared mapping length must fit off_t"@,
                )
            } else {
                name@.contains('\0') && says(
                    error,
                    ErrorKind::InvalidInput,
                    "memfd name contains an interior NUL"@,
                )
            },
        },
{
    if length == 0 || length as u64 > 0x7fff_ffff_ffff_ffff {
        return Err(invalid_input("shared mapping length must fit off_t"));
    }
    if crate::host::filesystem::has_nul(name) {
        return Err(invalid_input("memfd name contains an interior NUL"));
    }
    Ok(())
}

/// The extent of a shared mapping, which is never empty.
#[derive(Clone, Copy, Debug, PartialEq, Eq, Structural)]
pub struct SharedMapping {
    len: usize,
}

impl SharedMapping {
    /// The mapping has at least one byte.
    #[verifier::type_invariant]
    pub closed spec fn not_empty(self) -> bool {
        self.len > 0
    }

    /// Mapped bytes.
    pub closed spec fn extent(self) -> usize {
        self.len
    }

    /// The extent of a mapping to be made.
    pub fn new(len: usize) -> (result: Result<Self, Error>)
        ensures
            match result {
                Ok(mapping) => len > 0 && mapping.extent() == len,
                Err(error) => len == 0 && says(
                    error,
                    ErrorKind::InvalidInput,
                    "shared mapping cannot be empty"@,
                ),
            },
    {
        if len == 0 {
            return Err(invalid_input("shared mapping cannot be empty"));
        }
        Ok(SharedMapping { len })
    }

    /// Mapped bytes.
    pub fn len(&self) -> (result: usize)
        ensures
            result == self.extent(),
            result > 0,
    {
        proof {
            use_type_invariant(self);
        }
        self.len
    }

    /// A mapping is never empty.
    pub fn is_empty(&self) -> (result: bool)
        ensures
            result == (self.extent() == 0),
    {
        proof {
            use_type_invariant(self);
        }
        false
    }
}

} // verus!
