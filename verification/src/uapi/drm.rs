//! DRM dumb buffers and modesetting: request layouts and reply rules.

use vstd::prelude::*;
use crate::uapi::bytes::{
    pack_words, packed, read_u16, read_u32, read_u64, u16_at, u32_at, u64_at,
};
use crate::uapi::{invalid_data, invalid_input, says, Error, ErrorKind};

verus! {

/// Bytes of a display mode.
pub const MODE_BYTES: usize = 68;

/// A display mode, as the kernel describes it.
#[derive(Clone, Copy)]
pub struct Mode {
    bytes: [u8; 68],
}

impl Mode {
    /// The kernel's description.
    pub closed spec fn description(self) -> Seq<u8> {
        self.bytes@
    }

    /// The visible width.
    pub open spec fn spec_width(self) -> int {
        u16_at(self.description(), 4)
    }

    /// The visible height.
    pub open spec fn spec_height(self) -> int {
        u16_at(self.description(), 14)
    }

    /// A mode by its description.
    pub fn from_bytes(bytes: [u8; 68]) -> (result: Self)
        ensures
            result.description() == bytes@,
    {
        Mode { bytes }
    }

    /// The kernel's description.
    pub fn to_bytes(self) -> (result: [u8; 68])
        ensures
            result@ == self.description(),
    {
        self.bytes
    }

    /// The visible width.
    pub fn width(self) -> (result: u16)
        ensures
            result == self.spec_width(),
    {
        read_u16(self.bytes.as_slice(), 4)
    }

    /// The visible height.
    pub fn height(self) -> (result: u16)
        ensures
            result == self.spec_height(),
    {
        read_u16(self.bytes.as_slice(), 14)
    }
}

impl Default for Mode {
    fn default() -> (result: Self)
        ensures
            result.description() == crate::uapi::bytes::zeros(MODE_BYTES as nat),
    {
        let result = Mode { bytes: [0u8; 68] };
        assert(result.bytes@ =~= crate::uapi::bytes::zeros(MODE_BYTES as nat));
        result
    }
}

/// The selected output path.
pub struct Topology {
    pub crtc_id: u32,
    pub connector_id: u32,
    pub mode: Mode,
}

/// Checks the counts of a resource reply: there has to be a controller and a
/// connector.
pub fn check_resources(crtc_count: u32, connector_count: u32) -> (result: Result<(), Error>)
    ensures
        match result {
            Ok(_) => crtc_count != 0 && connector_count != 0,
            Err(error) => (crtc_count == 0 || connector_count == 0) && says(
                error,
                ErrorKind::NotFound,
                "DRM topology is empty"@,
            ),
        },
{
    if crtc_count == 0 || connector_count == 0 {
        return Err(Error { kind: ErrorKind::NotFound, message: "DRM topology is empty" });
    }
    Ok(())
}

impl Topology {
    /// Takes the first mode of a connector; there has to be one, and it has to
    /// show something.
    pub fn select(
        crtc_id: u32,
        connector_id: u32,
        mode_count: u32,
        mode: Mode,
    ) -> (result: Result<Self, Error>)
        ensures
            ({
                let usable = mode_count != 0 && mode.spec_width() != 0 && mode.spec_height() != 0;
                match result {
                    Ok(topology) => usable && topology.crtc_id == crtc_id && topology.connector_id
                        == connector_id && topology.mode == mode,
                    Err(error) => !usable && says(
                        error,
                        ErrorKind::NotFound,
                        "DRM connector has no mode"@,
                    ),
                }
            }),
    {
        if mode_count == 0 || mode.width() == 0 || mode.height() == 0 {
            return Err(Error { kind: ErrorKind::NotFound, message: "DRM connector has no mode" });
        }
        Ok(Topology { crtc_id, connector_id, mode })
    }
}

/// One completed page flip.
#[derive(Clone, Copy, Debug, PartialEq, Eq, Structural)]
pub struct FlipEvent {
    /// The sequence given with the flip.
    pub user_data: u64,
    /// Kernel monotonic seconds at completion.
    pub seconds: u32,
    /// Remaining monotonic microseconds at completion.
    pub microseconds: u32,
    /// Device presentation sequence.
    pub sequence: u32,
}

/// Bytes of a flip event.
pub const FLIP_EVENT_BYTES: usize = 32;

/// The bytes are a flip event: its type and its length say so.
pub open spec fn is_flip(bytes: Seq<u8>) -> bool {
    u32_at(bytes, 0) == 2 && u32_at(bytes, 4) == FLIP_EVENT_BYTES
}

impl FlipEvent {
    /// Reads one event.
    pub fn decode(bytes: &[u8]) -> (result: Result<Self, Error>)
        requires
            bytes@.len() == FLIP_EVENT_BYTES,
        ensures
            match result {
                Ok(event) => {
                    &&& is_flip(bytes@)
                    &&& event.user_data == u64_at(bytes@, 8)
                    &&& event.seconds == u32_at(bytes@, 16)
                    &&& event.microseconds == u32_at(bytes@, 20)
                    &&& event.sequence == u32_at(bytes@, 24)
                },
                Err(error) => !is_flip(bytes@) && says(
                    error,
                    ErrorKind::InvalidData,
                    "DRM returned a non-flip event"@,
                ),
            },
    {
        if read_u32(bytes, 0) != 2 || read_u32(bytes, 4) != 32 {
            return Err(invalid_data("DRM returned a non-flip event"));
        }
        Ok(
            FlipEvent {
                user_data: read_u64(bytes, 8),
                seconds: read_u32(bytes, 16),
                microseconds: read_u32(bytes, 20),
                sequence: read_u32(bytes, 24),
            },
        )
    }
}

/// A buffer object of an open device; never zero.
#[derive(Clone, Copy, Debug, PartialEq, Eq, Structural)]
pub struct GemHandle(u32);

impl GemHandle {
    /// The handle is not zero.
    #[verifier::type_invariant]
    pub closed spec fn not_zero(self) -> bool {
        self.0 != 0
    }

    /// The number.
    pub closed spec fn number(self) -> u32 {
        self.0
    }

    /// A number other than zero as a handle.
    pub fn new(raw: u32) -> (result: Option<Self>)
        ensures
            match result {
                Some(handle) => raw != 0 && handle.number() == raw,
                None => raw == 0,
            },
    {
        if raw != 0 {
            Some(GemHandle(raw))
        } else {
            None
        }
    }

    /// The number, which is not zero.
    pub fn get(self) -> (result: u32)
        ensures
            result == self.number(),
            result != 0,
    {
        proof {
            use_type_invariant(self);
        }
        self.0
    }
}

/// A damaged rectangle of a framebuffer.
#[derive(Clone, Copy, Debug, PartialEq, Eq, Structural)]
pub struct Clip {
    pub x1: u16,
    pub y1: u16,
    pub x2: u16,
    pub y2: u16,
}

/// The smaller of a number and the largest index.
pub open spec fn saturated(value: int) -> int {
    if value <= usize::MAX {
        value
    } else {
        usize::MAX as int
    }
}

/// Rows of four-byte pixels fit in the pitch, and all rows in the mapping.
pub open spec fn geometry_fits(width: int, height: int, pitch: int, size: int) -> bool {
    pitch >= saturated(width * 4) && saturated(pitch * height) <= size
}

fn saturating_product(a: usize, b: usize) -> (result: usize)
    ensures
        result == saturated(a * b),
{
    match a.checked_mul(b) {
        Some(product) => product,
        None => usize::MAX,
    }
}

/// Checks the geometry of a mapping.
pub fn fits(width: usize, height: usize, pitch: usize, size: usize) -> (result: bool)
    ensures
        result == geometry_fits(width as int, height as int, pitch as int, size as int),
{
    let row: usize = saturating_product(width, 4);
    let rows: usize = saturating_product(pitch, height);
    pitch >= row && rows <= size
}

/// The handle of a new dumb buffer.
pub fn dumb_handle(raw: u32) -> (result: Result<GemHandle, Error>)
    ensures
        match result {
            Ok(handle) => raw != 0 && handle.number() == raw,
            Err(error) => raw == 0 && says(
                error,
                ErrorKind::InvalidData,
                "DRM returned handle zero"@,
            ),
        },
{
    match GemHandle::new(raw) {
        Some(handle) => Ok(handle),
        None => Err(invalid_data("DRM returned handle zero")),
    }
}

/// The size and pitch of a new dumb buffer as indices.
pub fn dumb_extent(size: u64, pitch: u32) -> (result: Result<(usize, usize), Error>)
    ensures
        match result {
            Ok(extent) => extent.0 == size && extent.1 == pitch,
            Err(error) => if size > usize::MAX {
                says(error, ErrorKind::InvalidData, "DRM size overflows usize"@)
            } else {
                pitch > usize::MAX && says(
                    error,
                    ErrorKind::InvalidData,
                    "DRM pitch overflows usize"@,
                )
            },
        },
{
    let limit: usize = usize::MAX;
    if size > limit as u64 {
        return Err(invalid_data("DRM size overflows usize"));
    }
    Ok((size as usize, pitch as usize))
}

/// Checks the geometry of a new dumb buffer.
pub fn check_dumb_geometry(
    width: usize,
    height: usize,
    pitch: usize,
    size: usize,
) -> (result: Result<(), Error>)
    ensures
        match result {
            Ok(_) => geometry_fits(width as int, height as int, pitch as int, size as int),
            Err(error) => !geometry_fits(width as int, height as int, pitch as int, size as int)
                && says(error, ErrorKind::InvalidData, "invalid DRM dumb geometry"@),
        },
{
    if !fits(width, height, pitch, size) {
        return Err(invalid_data("invalid DRM dumb geometry"));
    }
    Ok(())
}

/// Bytes of a transferred buffer, whose rows are not padded.
pub fn transferred_size(width: usize, height: usize) -> (result: Result<usize, Error>)
    ensures
        match result {
            Ok(size) => size == width * 4 * height && width * 4 <= usize::MAX,
            Err(error) => (width * 4 > usize::MAX || width * 4 * height > usize::MAX) && says(
                error,
                ErrorKind::InvalidInput,
                "DRM size overflow"@,
            ),
        },
{
    match width.checked_mul(4) {
        None => Err(invalid_input("DRM size overflow")),
        Some(pitch) => match pitch.checked_mul(height) {
            None => Err(invalid_input("DRM size overflow")),
            Some(size) => Ok(size),
        },
    }
}

/// Checks what a compositor published about a shared dumb buffer.
pub fn check_shared_dumb(
    raw_handle: u32,
    width: usize,
    height: usize,
    pitch: usize,
    byte_len: usize,
) -> (result: Result<GemHandle, Error>)
    ensures
        match result {
            Ok(handle) => {
                &&& raw_handle != 0
                &&& geometry_fits(width as int, height as int, pitch as int, byte_len as int)
                &&& handle.number() == raw_handle
            },
            Err(error) => if raw_handle == 0 {
                says(error, ErrorKind::InvalidInput, "GEM handle is zero"@)
            } else {
                !geometry_fits(width as int, height as int, pitch as int, byte_len as int) && says(
                    error,
                    ErrorKind::InvalidInput,
                    "shared dumb-buffer geometry is inconsistent"@,
                )
            },
        },
{
    match GemHandle::new(raw_handle) {
        None => Err(invalid_input("GEM handle is zero")),
        Some(handle) => {
            if !fits(width, height, pitch, byte_len) {
                Err(invalid_input("shared dumb-buffer geometry is inconsistent"))
            } else {
                Ok(handle)
            }
        },
    }
}

/// The geometry of a mapped buffer, whoever owns it.
#[derive(Clone, Copy, Debug, PartialEq, Eq, Structural)]
pub struct SharedDumbBuffer {
    size: usize,
    pitch: usize,
    width: usize,
    height: usize,
}

impl SharedDumbBuffer {
    /// All rows lie in the mapping.
    #[verifier::type_invariant]
    pub closed spec fn wf(self) -> bool {
        &&& self.pitch * self.height <= self.size
        &&& self.height > 0 ==> self.width * 4 <= self.pitch
    }

    /// Mapped bytes.
    pub closed spec fn spec_size(self) -> int {
        self.size as int
    }

    /// Bytes between rows.
    pub closed spec fn spec_pitch(self) -> int {
        self.pitch as int
    }

    /// Pixels in a row.
    pub closed spec fn spec_width(self) -> int {
        self.width as int
    }

    /// Rows.
    pub closed spec fn spec_height(self) -> int {
        self.height as int
    }

    /// A checked mapping. No mapping takes up the whole address space.
    pub fn new(size: usize, pitch: usize, width: usize, height: usize) -> (result: Self)
        requires
            geometry_fits(width as int, height as int, pitch as int, size as int),
            size < usize::MAX,
        ensures
            result.spec_size() == size,
            result.spec_pitch() == pitch,
            result.spec_width() == width,
            result.spec_height() == height,
    {
        proof {
            if height > 0 {
                assert(pitch * height >= pitch) by (nonlinear_arith)
                    requires
                        height > 0,
                ;
            }
        }
        SharedDumbBuffer { size, pitch, width, height }
    }

    /// Pixels in a row.
    pub fn width(&self) -> (result: usize)
        ensures
            result == self.spec_width(),
    {
        self.width
    }

    /// Rows.
    pub fn height(&self) -> (result: usize)
        ensures
            result == self.spec_height(),
    {
        self.height
    }

    /// Bytes between rows.
    pub fn pitch(&self) -> (result: usize)
        ensures
            result == self.spec_pitch(),
    {
        self.pitch
    }

    /// Mapped bytes.
    pub fn size(&self) -> (result: usize)
        ensures
            result == self.spec_size(),
    {
        self.size
    }

    /// Where a row starts in the mapping. The visible pixels of the row lie in
    /// the mapping, and before the next row.
    pub fn row_offset(&self, row: usize) -> (result: usize)
        requires
            row < self.spec_height(),
        ensures
            result == row * self.spec_pitch(),
            result + self.spec_width() * 4 <= self.spec_size(),
            self.spec_width() * 4 <= self.spec_pitch(),
    {
        proof {
            use_type_invariant(self);
            assert((row + 1) * self.pitch <= self.pitch * self.height) by (nonlinear_arith)
                requires
                    row < self.height,
            ;
            assert((row + 1) * self.pitch == row * self.pitch + self.pitch) by (nonlinear_arith);
        }
        row * self.pitch
    }
}

/// A buffer that owns its object until the object is handed on.
pub struct DumbBuffer {
    pub gem: Option<GemHandle>,
    pub mapping: SharedDumbBuffer,
}

impl DumbBuffer {
    /// The object, while it is owned.
    pub fn handle(&self) -> (result: GemHandle)
        requires
            self.gem is Some,
        ensures
            Some(result) == self.gem,
    {
        self.gem.unwrap()
    }

    /// Hands the object on; the mapping stays.
    pub fn transfer_handle(&mut self) -> (result: GemHandle)
        requires
            old(self).gem is Some,
        ensures
            Some(result) == old(self).gem,
            final(self).gem is None,
            final(self).mapping == old(self).mapping,
    {
        let handle = self.gem.unwrap();
        self.gem = None;
        handle
    }
}

/// The low half of a 64-bit number.
pub open spec fn low_word(value: u64) -> u32 {
    (value % 0x1_0000_0000) as u32
}

/// The high half of a 64-bit number.
pub open spec fn high_word(value: u64) -> u32 {
    (value / 0x1_0000_0000) as u32
}

/// The request for a new dumb buffer of four-byte pixels.
pub fn create_dumb_request(width: u32, height: u32) -> (result: Vec<u8>)
    ensures
        result@ == packed(seq![height, width, 32u32, 0u32, 0u32, 0u32, 0u32, 0u32]),
{
    let words: [u32; 8] = [height, width, 32, 0, 0, 0, 0, 0];
    assert(words@ =~= seq![height, width, 32u32, 0u32, 0u32, 0u32, 0u32, 0u32]);
    pack_words(words.as_slice())
}

/// The reply to a request for a new dumb buffer: handle, pitch and size.
pub fn created_dumb(reply: &[u8]) -> (result: (u32, u32, u64))
    requires
        reply@.len() == 32,
    ensures
        result.0 == u32_at(reply@, 16),
        result.1 == u32_at(reply@, 20),
        result.2 == u64_at(reply@, 24),
{
    (read_u32(reply, 16), read_u32(reply, 20), read_u64(reply, 24))
}

/// The request for the mapping offset of a dumb buffer.
pub fn map_dumb_request(handle: GemHandle) -> (result: Vec<u8>)
    ensures
        result@ == packed(seq![handle.number(), 0u32, 0u32, 0u32]),
{
    let words: [u32; 4] = [handle.get(), 0, 0, 0];
    assert(words@ =~= seq![handle.number(), 0u32, 0u32, 0u32]);
    pack_words(words.as_slice())
}

/// The request for a framebuffer of four-byte pixels.
pub fn add_framebuffer_request(
    width: u32,
    height: u32,
    pitch: u32,
    depth: u32,
    handle: GemHandle,
) -> (result: Vec<u8>)
    ensures
        result@ == packed(seq![0u32, width, height, pitch, 32u32, depth, handle.number()]),
{
    let words: [u32; 7] = [0, width, height, pitch, 32, depth, handle.get()];
    assert(words@ =~= seq![0u32, width, height, pitch, 32u32, depth, handle.number()]);
    pack_words(words.as_slice())
}

/// The request for a page flip that reports its completion.
pub fn page_flip_request(crtc_id: u32, framebuffer_id: u32, user_data: u64) -> (result: Vec<u8>)
    ensures
        result@ == packed(
            seq![crtc_id, framebuffer_id, 1u32, 0u32, low_word(user_data), high_word(user_data)],
        ),
{
    let low: u32 = (user_data % 0x1_0000_0000) as u32;
    let high: u32 = (user_data / 0x1_0000_0000) as u32;
    let words: [u32; 6] = [crtc_id, framebuffer_id, 1, 0, low, high];
    assert(words@ =~= seq![
        crtc_id,
        framebuffer_id,
        1u32,
        0u32,
        low_word(user_data),
        high_word(user_data),
    ]);
    pack_words(words.as_slice())
}

/// The request that shows a framebuffer on the selected output path. The
/// connector's number lies at `connectors`.
pub fn set_crtc_request(topology: &Topology, framebuffer_id: u32, connectors: u64) -> (result: Vec<
    u8,
>)
    ensures
        result@ == packed(
            seq![
                low_word(connectors),
                high_word(connectors),
                1u32,
                topology.crtc_id,
                framebuffer_id,
                0u32,
                0u32,
                0u32,
                1u32,
            ],
        ) + topology.mode.description(),
{
    let low: u32 = (connectors % 0x1_0000_0000) as u32;
    let high: u32 = (connectors / 0x1_0000_0000) as u32;
    let words: [u32; 9] = [low, high, 1, topology.crtc_id, framebuffer_id, 0, 0, 0, 1];
    assert(words@ =~= seq![
        low_word(connectors),
        high_word(connectors),
        1u32,
        topology.crtc_id,
        framebuffer_id,
        0u32,
        0u32,
        0u32,
        1u32,
    ]);
    let mut bytes = pack_words(words.as_slice());
    let mode: [u8; 68] = topology.mode.to_bytes();
    bytes.extend_from_slice(mode.as_slice());
    bytes
}

/// The request that publishes damage. The clips lie at `clips`.
pub fn dirty_request(framebuffer_id: u32, clip_count: u32, clips: u64) -> (result: Vec<u8>)
    ensures
        result@ == packed(
            seq![framebuffer_id, 0u32, 0u32, clip_count, low_word(clips), high_word(clips)],
        ),
{
    let low: u32 = (clips % 0x1_0000_0000) as u32;
    let high: u32 = (clips / 0x1_0000_0000) as u32;
    let words: [u32; 6] = [framebuffer_id, 0, 0, clip_count, low, high];
    assert(words@ =~= seq![
        framebuffer_id,
        0u32,
        0u32,
        clip_count,
        low_word(clips),
        high_word(clips),
    ]);
    pack_words(words.as_slice())
}

/// Rows of a mapped buffer do not overlap: the visible pixels of an earlier row
/// end before a later row starts.
pub proof fn rows_are_separate(pitch: int, width: int, row: int, later: int)
    requires
        0 <= row < later,
        0 <= width * 4 <= pitch,
    ensures
        row * pitch + width * 4 <= later * pitch,
{
    assert((row + 1) * pitch <= later * pitch) by (nonlinear_arith)
        requires
            row < later,
            pitch >= 0,
    ;
    assert((row + 1) * pitch == row * pitch + pitch) by (nonlinear_arith);
}

} // verus!
