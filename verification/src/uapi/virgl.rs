//! VirGL resources: request layouts and reply rules.

pub mod command;

use vstd::prelude::*;
use vstd::string::*;
use vstd::utf8::encode_utf8;
use crate::uapi::bytes::{pack_words, packed, read_u32, u32_at};
use crate::uapi::drm::{fits, geometry_fits, GemHandle};
use crate::uapi::{invalid_data, invalid_input, says, Error, ErrorKind};

verus! {

/// The capability set that is used.
pub const CAPSET_VIRGL2: u32 = 2;

/// Version of the capability set.
pub const CAPSET_VIRGL2_VERSION: u32 = 2;

/// Bytes of a capability reply.
pub const CAPSET_BYTES: usize = 4096;

/// Context parameter that selects a capability set.
pub const CONTEXT_PARAM_CAPSET_ID: u64 = 1;

/// Context parameter that names a context.
pub const CONTEXT_PARAM_DEBUG_NAME: u64 = 4;

/// A wait returns at once.
pub const WAIT_NOWAIT: u32 = 1;

/// Two-dimensional texture target.
pub const PIPE_TEXTURE_2D: u32 = 2;

/// Buffer target.
pub const PIPE_BUFFER: u32 = 0;

/// Premultiplied color with alpha.
pub const FORMAT_B8G8R8A8_UNORM: u32 = 1;

/// Color without alpha.
pub const FORMAT_B8G8R8X8_UNORM: u32 = 2;

/// Single bytes.
pub const FORMAT_R8_UNORM: u32 = 64;

/// The resource can be rendered to.
pub const BIND_RENDER_TARGET: u32 = 0x2;

/// The resource can be sampled.
pub const BIND_SAMPLER_VIEW: u32 = 0x8;

/// The resource can hold vertices.
pub const BIND_VERTEX_BUFFER: u32 = 0x10;

/// The resource can be shown by the host.
pub const BIND_DISPLAY_TARGET: u32 = 0x100;

/// The resource can be scanned out.
pub const BIND_SCANOUT: u32 = 0x4000;

/// The first row is the top row.
pub const RESOURCE_Y_0_TOP: u32 = 1;

/// Host capabilities of the context.
pub struct VirglCapabilities {
    bytes: Vec<u8>,
}

impl VirglCapabilities {
    /// The reply.
    pub closed spec fn reply(self) -> Seq<u8> {
        self.bytes@
    }

    /// The reply has a fixed size.
    #[verifier::type_invariant]
    pub closed spec fn fixed_size(self) -> bool {
        self.bytes@.len() == CAPSET_BYTES
    }

    /// Keeps a reply.
    pub fn new(bytes: Vec<u8>) -> (result: Self)
        requires
            bytes@.len() == CAPSET_BYTES,
        ensures
            result.reply() == bytes@,
    {
        VirglCapabilities { bytes }
    }

    /// The reply, which has a fixed size.
    pub fn as_bytes(&self) -> (result: &[u8])
        ensures
            result@ == self.reply(),
            result@.len() == CAPSET_BYTES,
    {
        proof {
            use_type_invariant(self);
        }
        self.bytes.as_slice()
    }
}

/// What a resource is made as.
#[derive(Clone, Copy, Debug, PartialEq, Eq, Structural)]
pub struct ResourceSpec {
    pub target: u32,
    pub format: u32,
    pub bind: u32,
    pub width: u32,
    pub height: u32,
    pub size: u32,
    pub stride: u32,
    pub flags: u32,
}

/// Bytes of a pixel, for the formats that textures have.
pub open spec fn pixel_bytes(format: u32) -> Option<int> {
    if format == FORMAT_B8G8R8A8_UNORM || format == FORMAT_B8G8R8X8_UNORM {
        Some(4int)
    } else if format == FORMAT_R8_UNORM {
        Some(1int)
    } else {
        None
    }
}

/// The description of a texture, or why there is none.
pub open spec fn texture_spec(width: u32, height: u32, format: u32, bind: u32) -> Result<
    ResourceSpec,
    Seq<char>,
> {
    match pixel_bytes(format) {
        None => Err("unsupported VirGL texture format"@),
        Some(bytes) => if width * bytes > u32::MAX {
            Err("VirGL stride overflow"@)
        } else if width * bytes * height > u32::MAX {
            Err("VirGL resource size overflow"@)
        } else if width * bytes * height == 0 {
            Err("VirGL texture has zero area"@)
        } else {
            Ok(
                ResourceSpec {
                    target: PIPE_TEXTURE_2D,
                    format,
                    bind,
                    width,
                    height,
                    size: (width * bytes * height) as u32,
                    stride: (width * bytes) as u32,
                    flags: RESOURCE_Y_0_TOP,
                },
            )
        },
    }
}

/// The result is what the description says, or its error.
pub open spec fn agrees(
    result: Result<ResourceSpec, Error>,
    expected: Result<ResourceSpec, Seq<char>>,
) -> bool {
    match result {
        Ok(spec) => expected == Ok::<ResourceSpec, Seq<char>>(spec),
        Err(error) => expected is Err && says(error, ErrorKind::InvalidInput, expected->Err_0),
    }
}

impl ResourceSpec {
    /// Describes a texture.
    pub fn texture(width: u32, height: u32, format: u32, bind: u32) -> (result: Result<
        Self,
        Error,
    >)
        ensures
            agrees(result, texture_spec(width, height, format, bind)),
    {
        let bytes_per_pixel: u32 = if format == FORMAT_B8G8R8A8_UNORM || format
            == FORMAT_B8G8R8X8_UNORM {
            4
        } else if format == FORMAT_R8_UNORM {
            1
        } else {
            return Err(invalid_input("unsupported VirGL texture format"));
        };
        let stride: u32 = match width.checked_mul(bytes_per_pixel) {
            Some(stride) => stride,
            None => return Err(invalid_input("VirGL stride overflow")),
        };
        let size: u32 = match stride.checked_mul(height) {
            Some(size) => size,
            None => return Err(invalid_input("VirGL resource size overflow")),
        };
        if size == 0 {
            return Err(invalid_input("VirGL texture has zero area"));
        }
        Ok(
            ResourceSpec {
                target: PIPE_TEXTURE_2D,
                format,
                bind,
                width,
                height,
                size,
                stride,
                flags: RESOURCE_Y_0_TOP,
            },
        )
    }

    /// Describes a resource to render to and scan out.
    pub fn render_target(width: u32, height: u32) -> (result: Result<Self, Error>)
        ensures
            agrees(result, texture_spec(width, height, FORMAT_B8G8R8X8_UNORM, 0x410a)),
    {
        ResourceSpec::texture(width, height, FORMAT_B8G8R8X8_UNORM, 0x410a)
    }

    /// Describes a texture of premultiplied color.
    pub fn color_texture(width: u32, height: u32) -> (result: Result<Self, Error>)
        ensures
            agrees(result, texture_spec(width, height, FORMAT_B8G8R8A8_UNORM, 0xa)),
    {
        ResourceSpec::texture(width, height, FORMAT_B8G8R8A8_UNORM, 0xa)
    }

    /// Describes a texture of coverage.
    pub fn mask_texture(width: u32, height: u32) -> (result: Result<Self, Error>)
        ensures
            agrees(result, texture_spec(width, height, FORMAT_R8_UNORM, BIND_SAMPLER_VIEW)),
    {
        ResourceSpec::texture(width, height, FORMAT_R8_UNORM, BIND_SAMPLER_VIEW)
    }

    /// Describes a vertex buffer.
    pub fn vertex_buffer(byte_len: u32) -> (result: Result<Self, Error>)
        ensures
            agrees(
                result,
                if byte_len == 0 {
                    Err("VirGL vertex buffer is empty"@)
                } else {
                    Ok(
                        ResourceSpec {
                            target: PIPE_BUFFER,
                            format: FORMAT_R8_UNORM,
                            bind: BIND_VERTEX_BUFFER,
                            width: byte_len,
                            height: 1,
                            size: byte_len,
                            stride: 1,
                            flags: 0,
                        },
                    )
                },
            ),
    {
        if byte_len == 0 {
            return Err(invalid_input("VirGL vertex buffer is empty"));
        }
        Ok(
            ResourceSpec {
                target: PIPE_BUFFER,
                format: FORMAT_R8_UNORM,
                bind: BIND_VERTEX_BUFFER,
                width: byte_len,
                height: 1,
                size: byte_len,
                stride: 1,
                flags: 0,
            },
        )
    }

    /// The request that makes the resource.
    pub fn create_request(&self) -> (result: Vec<u8>)
        ensures
            result@ == packed(
                seq![
                    self.target,
                    self.format,
                    self.bind,
                    self.width,
                    self.height,
                    1u32,
                    1u32,
                    0u32,
                    0u32,
                    self.flags,
                    0u32,
                    0u32,
                    self.size,
                    0u32,
                ],
            ),
    {
        let words: [u32; 14] = [
            self.target,
            self.format,
            self.bind,
            self.width,
            self.height,
            1,
            1,
            0,
            0,
            self.flags,
            0,
            0,
            self.size,
            0,
        ];
        assert(words@ =~= seq![
            self.target,
            self.format,
            self.bind,
            self.width,
            self.height,
            1u32,
            1u32,
            0u32,
            0u32,
            self.flags,
            0u32,
            0u32,
            self.size,
            0u32,
        ]);
        pack_words(words.as_slice())
    }

    /// The object and the resource that a reply names; neither is zero.
    pub fn created(reply: &[u8]) -> (result: Result<(GemHandle, u32), Error>)
        requires
            reply@.len() == 56,
        ensures
            ({
                let object = u32_at(reply@, 40);
                let resource = u32_at(reply@, 44);
                match result {
                    Ok(made) => object != 0 && resource != 0 && made.0.number() == object
                        && made.1 == resource,
                    Err(error) => if object == 0 {
                        says(
                            error,
                            ErrorKind::InvalidData,
                            "VirtIO-GPU returned GEM handle zero"@,
                        )
                    } else {
                        resource == 0 && says(
                            error,
                            ErrorKind::InvalidData,
                            "VirtIO-GPU returned resource handle zero"@,
                        )
                    },
                }
            }),
    {
        match GemHandle::new(read_u32(reply, 40)) {
            None => Err(invalid_data("VirtIO-GPU returned GEM handle zero")),
            Some(handle) => {
                let resource: u32 = read_u32(reply, 44);
                if resource == 0 {
                    Err(invalid_data("VirtIO-GPU returned resource handle zero"))
                } else {
                    Ok((handle, resource))
                }
            },
        }
    }

    /// Checks what the device says of the resource it made.
    pub fn check_info(&self, resource: u32, info: &[u8]) -> (result: Result<(), Error>)
        requires
            info@.len() == 16,
        ensures
            ({
                let consistent = u32_at(info@, 4) == resource && u32_at(info@, 8) == self.size
                    && u32_at(info@, 12) == 0;
                match result {
                    Ok(_) => consistent,
                    Err(error) => !consistent && says(
                        error,
                        ErrorKind::InvalidData,
                        "VirtIO-GPU returned inconsistent resource metadata"@,
                    ),
                }
            }),
    {
        if read_u32(info, 4) != resource || read_u32(info, 8) != self.size || read_u32(info, 12)
            != 0 {
            return Err(invalid_data("VirtIO-GPU returned inconsistent resource metadata"));
        }
        Ok(())
    }
}

/// A texture's rows fill its size exactly, and it has at least one pixel.
pub proof fn texture_rows_fill_it(width: u32, height: u32, format: u32, bind: u32)
    ensures
        match texture_spec(width, height, format, bind) {
            Ok(spec) => spec.size == spec.stride * height && spec.width > 0 && spec.height > 0,
            Err(_) => true,
        },
{
    match pixel_bytes(format) {
        None => {},
        Some(bytes) => {
            assert(width == 0 ==> width * bytes == 0) by (nonlinear_arith);
            assert((width * bytes == 0 || height == 0) ==> width * bytes * height == 0)
                by (nonlinear_arith);
            assert((width * bytes) * height == width * bytes * height);
        },
    }
}

/// A made resource and the extent of its mapping.
pub struct VirglResource {
    pub handle: GemHandle,
    pub resource_id: u32,
    pub size: usize,
    pub format: u32,
    pub width: u32,
    pub height: u32,
    pub stride: u32,
}

/// A transfer between the guest's and the host's copy of a resource.
#[derive(Clone, Copy, Debug, PartialEq, Eq, Structural)]
pub struct Transfer {
    pub handle: u32,
    pub x: u32,
    pub y: u32,
    pub width: u32,
    pub height: u32,
    pub offset: u32,
    pub stride: u32,
    pub layer_stride: u32,
}

impl Transfer {
    /// The words of the request.
    pub open spec fn words(self) -> Seq<u32> {
        seq![
            self.handle,
            self.x,
            self.y,
            0u32,
            self.width,
            self.height,
            1u32,
            0u32,
            self.offset,
            self.stride,
            self.layer_stride,
        ]
    }

    /// The request.
    pub fn request(&self) -> (result: Vec<u8>)
        ensures
            result@ == packed(self.words()),
    {
        let words: [u32; 11] = [
            self.handle,
            self.x,
            self.y,
            0,
            self.width,
            self.height,
            1,
            0,
            self.offset,
            self.stride,
            self.layer_stride,
        ];
        assert(words@ =~= self.words());
        pack_words(words.as_slice())
    }
}

impl VirglResource {
    /// The resource that was made to a description.
    pub fn new(handle: GemHandle, resource_id: u32, size: usize, spec: &ResourceSpec) -> (result:
        Self)
        ensures
            result.handle == handle,
            result.resource_id == resource_id,
            result.size == size,
            result.format == spec.format,
            result.width == spec.width,
            result.height == spec.height,
            result.stride == spec.stride,
    {
        VirglResource {
            handle,
            resource_id,
            size,
            format: spec.format,
            width: spec.width,
            height: spec.height,
            stride: spec.stride,
        }
    }

    /// Plans the transfer of a rectangle of four-byte pixels, in either
    /// direction.
    pub fn transfer(&self, x: u32, y: u32, width: u32, height: u32) -> (result: Result<
        Transfer,
        Error,
    >)
        ensures
            ({
                let start = y * self.stride + x * 4;
                let layer = self.stride * self.height;
                match result {
                    Ok(transfer) => {
                        &&& start <= u32::MAX
                        &&& layer <= u32::MAX
                        &&& transfer == (Transfer {
                            handle: self.handle.number(),
                            x,
                            y,
                            width,
                            height,
                            offset: start as u32,
                            stride: self.stride,
                            layer_stride: layer as u32,
                        })
                    },
                    Err(error) => if start > u32::MAX {
                        says(
                            error,
                            ErrorKind::InvalidInput,
                            "VirGL transfer offset overflow"@,
                        )
                    } else {
                        layer > u32::MAX && says(
                            error,
                            ErrorKind::InvalidInput,
                            "VirGL layer stride overflow"@,
                        )
                    },
                }
            }),
    {
        let stride: u32 = self.stride;
        proof {
            assert(0 <= y * stride) by (nonlinear_arith);
            assert(0 <= x * 4) by (nonlinear_arith);
        }
        let rows: u32 = match y.checked_mul(stride) {
            Some(rows) => rows,
            None => return Err(invalid_input("VirGL transfer offset overflow")),
        };
        let columns: u32 = match x.checked_mul(4) {
            Some(columns) => columns,
            None => return Err(invalid_input("VirGL transfer offset overflow")),
        };
        let offset: u32 = match rows.checked_add(columns) {
            Some(offset) => offset,
            None => return Err(invalid_input("VirGL transfer offset overflow")),
        };
        let layer_stride: u32 = match stride.checked_mul(self.height) {
            Some(layer) => layer,
            None => return Err(invalid_input("VirGL layer stride overflow")),
        };
        Ok(
            Transfer { handle: self.handle.get(), x, y, width, height, offset, stride, layer_stride },
        )
    }

    /// Plans the transfer of a whole byte buffer.
    pub fn transfer_buffer(&self) -> (result: Result<Transfer, Error>)
        ensures
            ({
                let is_buffer = self.height == 1 && self.stride == 1 && self.width == self.size;
                match result {
                    Ok(transfer) => is_buffer && transfer == (Transfer {
                        handle: self.handle.number(),
                        x: 0,
                        y: 0,
                        width: self.width,
                        height: 1,
                        offset: 0,
                        stride: 0,
                        layer_stride: 0,
                    }),
                    Err(error) => !is_buffer && says(
                        error,
                        ErrorKind::InvalidInput,
                        "VirGL resource is not a byte buffer"@,
                    ),
                }
            }),
    {
        if self.height != 1 || self.stride != 1 || self.width as usize != self.size {
            return Err(invalid_input("VirGL resource is not a byte buffer"));
        }
        Ok(
            Transfer {
                handle: self.handle.get(),
                x: 0,
                y: 0,
                width: self.width,
                height: 1,
                offset: 0,
                stride: 0,
                layer_stride: 0,
            },
        )
    }
}


/// Checks a command stream before it is handed over: it has a command, its
/// resources are of the same open device, and its bytes can be counted. Returns
/// the bytes.
pub fn check_exec(words: usize, foreign_resource: bool) -> (result: Result<u32, Error>)
    ensures
        match result {
            Ok(bytes) => words != 0 && !foreign_resource && bytes == words * 4,
            Err(error) => if words == 0 {
                says(error, ErrorKind::InvalidInput, "VirGL command stream is empty"@)
            } else if foreign_resource {
                says(
                    error,
                    ErrorKind::InvalidInput,
                    "VirGL resource belongs to another DRM OFD"@,
                )
            } else {
                words * 4 > u32::MAX && says(
                    error,
                    ErrorKind::InvalidInput,
                    "VirGL command stream is too large"@,
                )
            },
        },
{
    if words == 0 {
        return Err(invalid_input("VirGL command stream is empty"));
    }
    if foreign_resource {
        return Err(invalid_input("VirGL resource belongs to another DRM OFD"));
    }
    if words > 0x3fff_ffff {
        return Err(invalid_input("VirGL command stream is too large"));
    }
    Ok((words * 4) as u32)
}

/// Checks the name of a new context: no NUL, and at most 64 bytes.
pub fn check_debug_name(name: &str) -> (result: Result<(), Error>)
    ensures
        match result {
            Ok(_) => !name@.contains('\0') && encode_utf8(name@).len() <= 64,
            Err(error) => if name@.contains('\0') {
                says(error, ErrorKind::InvalidInput, "VirGL debug name contains NUL"@)
            } else {
                encode_utf8(name@).len() > 64 && says(
                    error,
                    ErrorKind::InvalidInput,
                    "VirGL debug name exceeds 64 bytes"@,
                )
            },
        },
{
    if crate::host::filesystem::has_nul(name) {
        return Err(invalid_input("VirGL debug name contains NUL"));
    }
    if name.as_bytes().len() > 64 {
        return Err(invalid_input("VirGL debug name exceeds 64 bytes"));
    }
    Ok(())
}

/// Checks that the device renders in three dimensions.
pub fn check_3d(parameter: u64) -> (result: Result<(), Error>)
    ensures
        match result {
            Ok(_) => parameter != 0,
            Err(error) => parameter == 0 && says(
                error,
                ErrorKind::Unsupported,
                "DRM device does not expose VirGL 3D"@,
            ),
        },
{
    if parameter == 0 {
        return Err(
            Error {
                kind: ErrorKind::Unsupported,
                message: "DRM device does not expose VirGL 3D",
            },
        );
    }
    Ok(())
}

/// Checks that the used capability set is among the supported ones, a bit each.
pub fn check_capset(supported: u64) -> (result: Result<(), Error>)
    ensures
        match result {
            Ok(_) => supported & 4 != 0,
            Err(error) => supported & 4 == 0 && says(
                error,
                ErrorKind::Unsupported,
                "DRM device does not expose VirGL2"@,
            ),
        },
{
    if supported & 4 == 0 {
        return Err(
            Error { kind: ErrorKind::Unsupported, message: "DRM device does not expose VirGL2" },
        );
    }
    Ok(())
}

/// Checks what a compositor published about a shared resource.
pub fn check_shared_virgl(
    raw_handle: u32,
    width: usize,
    height: usize,
    pitch: usize,
    byte_len: usize,
) -> (result: Result<GemHandle, Error>)
    ensures
        match result {
            Ok(handle) => {
                &&& raw_handle != 0
                &&& geometry_fits(width as int, height as int, pitch as int, byte_len as int)
                &&& handle.number() == raw_handle
            },
            Err(error) => if raw_handle == 0 {
                says(error, ErrorKind::InvalidInput, "VirGL GEM handle is zero"@)
            } else {
                !geometry_fits(width as int, height as int, pitch as int, byte_len as int) && says(
                    error,
                    ErrorKind::InvalidInput,
                    "shared VirGL geometry is inconsistent"@,
                )
            },
        },
{
    match GemHandle::new(raw_handle) {
        None => Err(invalid_input("VirGL GEM handle is zero")),
        Some(handle) => {
            if !fits(width, height, pitch, byte_len) {
                Err(invalid_input("shared VirGL geometry is inconsistent"))
            } else {
                Ok(handle)
            }
        },
    }
}

} // verus!
