//! Encoder for the VirGL command stream.

use vstd::prelude::*;
use vstd::string::*;
use vstd::utf8::encode_utf8;
use crate::uapi::virgl::PIPE_TEXTURE_2D;

verus! {

/// Creates a context object.
pub const CREATE_OBJECT: u32 = 1;

/// Binds a context object.
pub const BIND_OBJECT: u32 = 2;

/// Destroys a context object.
pub const DESTROY_OBJECT: u32 = 3;

/// Sets the viewport.
pub const SET_VIEWPORT: u32 = 4;

/// Sets the framebuffer.
pub const SET_FRAMEBUFFER: u32 = 5;

/// Sets the vertex buffers.
pub const SET_VERTEX_BUFFERS: u32 = 6;

/// Clears targets.
pub const CLEAR: u32 = 7;

/// Draws vertices.
pub const DRAW_VBO: u32 = 8;

/// Sets the sampler views.
pub const SET_SAMPLER_VIEWS: u32 = 10;

/// Sets a constant buffer.
pub const SET_CONSTANT_BUFFER: u32 = 12;

/// Binds sampler states.
pub const BIND_SAMPLER_STATES: u32 = 18;

/// Binds a shader.
pub const BIND_SHADER: u32 = 31;

/// Links shaders.
pub const LINK_SHADER: u32 = 52;

/// The bits of the number one.
pub const ONE_BITS: u32 = 0x3f80_0000;

/// The bits of the number one half.
pub const HALF_BITS: u32 = 0x3f00_0000;

/// The type of a context object.
#[derive(Clone, Copy, Debug, PartialEq, Eq, Structural)]
pub enum ObjectKind {
    Blend,
    Rasterizer,
    DepthStencilAlpha,
    Shader,
    VertexElements,
    SamplerView,
    SamplerState,
    Surface,
}

impl ObjectKind {
    /// The number on the wire.
    pub open spec fn number(self) -> u32 {
        match self {
            ObjectKind::Blend => 1,
            ObjectKind::Rasterizer => 2,
            ObjectKind::DepthStencilAlpha => 3,
            ObjectKind::Shader => 4,
            ObjectKind::VertexElements => 5,
            ObjectKind::SamplerView => 6,
            ObjectKind::SamplerState => 7,
            ObjectKind::Surface => 8,
        }
    }

    /// The number on the wire.
    pub fn raw(self) -> (result: u32)
        ensures
            result == self.number(),
    {
        match self {
            ObjectKind::Blend => 1,
            ObjectKind::Rasterizer => 2,
            ObjectKind::DepthStencilAlpha => 3,
            ObjectKind::Shader => 4,
            ObjectKind::VertexElements => 5,
            ObjectKind::SamplerView => 6,
            ObjectKind::SamplerState => 7,
            ObjectKind::Surface => 8,
        }
    }
}

/// A shader stage.
#[derive(Clone, Copy, Debug, PartialEq, Eq, Structural)]
pub enum ShaderStage {
    Vertex,
    Fragment,
}

impl ShaderStage {
    /// The number on the wire.
    pub open spec fn number(self) -> u32 {
        match self {
            ShaderStage::Vertex => 0,
            ShaderStage::Fragment => 1,
        }
    }

    /// The number on the wire.
    pub fn raw(self) -> (result: u32)
        ensures
            result == self.number(),
    {
        match self {
            ShaderStage::Vertex => 0,
            ShaderStage::Fragment => 1,
        }
    }
}

/// How a texture is filtered.
#[derive(Clone, Copy, Debug, PartialEq, Eq, Structural)]
pub enum SamplerFilter {
    Nearest,
    Linear,
}

impl SamplerFilter {
    /// The filter bits: minification, mip levels and magnification.
    pub open spec fn bits(self) -> u32 {
        match self {
            SamplerFilter::Nearest => 0,
            SamplerFilter::Linear => (1u32 << 9) | (1u32 << 11) | (1u32 << 13),
        }
    }
}

/// What lies beyond a texture's edge on one axis.
#[derive(Clone, Copy, Debug, PartialEq, Eq, Structural)]
pub enum SamplerWrap {
    Repeat,
    ClampToEdge,
    ClampToBorder,
}

impl SamplerWrap {
    /// The number on the wire.
    pub open spec fn number(self) -> u32 {
        match self {
            SamplerWrap::Repeat => 0,
            SamplerWrap::ClampToEdge => 2,
            SamplerWrap::ClampToBorder => 3,
        }
    }

    /// The number on the wire.
    pub fn raw(self) -> (result: u32)
        ensures
            result == self.number(),
    {
        match self {
            SamplerWrap::Repeat => 0,
            SamplerWrap::ClampToEdge => 2,
            SamplerWrap::ClampToBorder => 3,
        }
    }
}

/// The first word of a packet: command, object type and body length. The length
/// keeps its low sixteen bits.
pub open spec fn header_word(command: u32, object: u32, length: u32) -> u32 {
    command | (object << 8) | (length << 16)
}

/// A packet.
pub open spec fn packet(command: u32, object: u32, body: Seq<u32>) -> Seq<u32> {
    seq![header_word(command, object, body.len() as u32)] + body
}

/// Two to a power.
pub open spec fn power(exponent: nat) -> nat
    decreases exponent,
{
    if exponent == 0 {
        1
    } else {
        2 * power((exponent - 1) as nat)
    }
}

/// The position of the highest bit of a positive number.
pub open spec fn highest_bit(value: nat) -> nat
    decreases value,
{
    if value < 2 {
        0
    } else {
        1 + highest_bit(value / 2)
    }
}

/// A quotient rounded to the nearest integer, and to the even one of two.
pub open spec fn nearest_even(value: int, divisor: int) -> int {
    let quotient = value / divisor;
    let rest = value % divisor;
    if 2 * rest < divisor || (2 * rest == divisor && quotient % 2 == 0) {
        quotient
    } else {
        quotient + 1
    }
}

/// A positive number scaled to twenty-four bits.
pub open spec fn significand(value: nat) -> int {
    let exponent = highest_bit(value);
    if exponent <= 23 {
        (value * power((23 - exponent) as nat)) as int
    } else {
        nearest_even(value as int, power((exponent - 23) as nat) as int)
    }
}

/// The single-precision bits of half of a number, rounded to the nearest.
pub open spec fn half_bits(value: nat) -> int {
    if value == 0 {
        0
    } else {
        (126 + highest_bit(value)) * 0x80_0000 + significand(value) - 0x80_0000
    }
}

proof fn power_sum(a: nat, b: nat)
    ensures
        power(a + b) == power(a) * power(b),
        power(a) > 0,
    decreases a,
{
    if a > 0 {
        let below = power((a - 1) as nat);
        let factor = power(b);
        power_sum((a - 1) as nat, b);
        assert((a - 1) as nat + b == (a + b - 1) as nat);
        assert((2 * below) * factor == 2 * (below * factor)) by (nonlinear_arith);
        assert(power(a + b) == 2 * power((a + b - 1) as nat));
    } else {
        assert(power(a) * power(b) == power(b)) by (nonlinear_arith)
            requires
                power(a) == 1,
        ;
    }
}

proof fn highest_bit_bounds(value: nat)
    requires
        value > 0,
    ensures
        power(highest_bit(value)) <= value < power(highest_bit(value) + 1),
    decreases value,
{
    if value >= 2 {
        highest_bit_bounds(value / 2);
    }
}

proof fn power_order(a: nat, b: nat)
    requires
        a <= b,
    ensures
        power(a) <= power(b),
    decreases b,
{
    if a < b {
        power_order(a, (b - 1) as nat);
    }
}

proof fn power_of_24()
    ensures
        power(24) == 0x100_0000,
        power(23) == 0x80_0000,
        power(32) == 0x1_0000_0000,
{
    reveal_with_fuel(power, 33);
}

proof fn significand_range(value: nat)
    requires
        0 < value <= u32::MAX,
    ensures
        highest_bit(value) <= 31,
        0x80_0000 <= significand(value) <= 0x100_0000,
{
    let exponent = highest_bit(value);
    highest_bit_bounds(value);
    power_of_24();
    if exponent >= 32 {
        power_order(32, exponent);
    }
    if exponent <= 23 {
        let scale = power((23 - exponent) as nat) as int;
        power_sum((23 - exponent) as nat, exponent);
        power_sum((23 - exponent) as nat, exponent + 1);
        let low = power(exponent) as int;
        let high = power(exponent + 1) as int;
        assert(scale * low <= value * scale < scale * high) by (nonlinear_arith)
            requires
                low <= value < high,
                scale > 0,
        ;
    } else {
        let divisor = power((exponent - 23) as nat) as int;
        power_sum((exponent - 23) as nat, 23);
        power_sum((exponent - 23) as nat, 24);
        let quotient = value as int / divisor;
        assert(0x80_0000 <= quotient < 0x100_0000) by (nonlinear_arith)
            requires
                divisor > 0,
                divisor * 0x80_0000 <= value < divisor * 0x100_0000,
                quotient == value as int / divisor,
        ;
    }
}

fn find_highest_bit(value: u32) -> (result: u32)
    ensures
        result == highest_bit(value as nat),
        result <= 31,
    decreases value,
{
    proof {
        if value > 0 {
            significand_range(value as nat);
        }
    }
    if value < 2 {
        0
    } else {
        1 + find_highest_bit(value / 2)
    }
}

fn power_of_two(exponent: u32) -> (result: u64)
    requires
        exponent <= 32,
    ensures
        result == power(exponent as nat),
        0 < result <= 0x1_0000_0000,
    decreases exponent,
{
    if exponent == 0 {
        1
    } else {
        let half: u64 = power_of_two(exponent - 1);
        proof {
            power_order(exponent as nat, 32);
            power_of_24();
        }
        2 * half
    }
}

/// The single-precision bits of half of a number.
fn half_of(value: u32) -> (result: u32)
    ensures
        result == half_bits(value as nat),
        result < 0x8000_0000,
{
    if value == 0 {
        return 0;
    }
    let exponent: u32 = find_highest_bit(value);
    proof {
        significand_range(value as nat);
    }
    let scaled: u64 = if exponent <= 23 {
        let scale: u64 = power_of_two(23 - exponent);
        proof {
            assert(value * scale <= u64::MAX) by (nonlinear_arith)
                requires
                    scale <= 0x1_0000_0000,
                    value <= 0xffff_ffff,
            ;
        }
        value as u64 * scale
    } else {
        let divisor: u64 = power_of_two(exponent - 23);
        let quotient: u64 = value as u64 / divisor;
        let rest: u64 = value as u64 % divisor;
        if 2 * rest < divisor || (2 * rest == divisor && quotient % 2 == 0) {
            quotient
        } else {
            quotient + 1
        }
    };
    (126 + exponent) * 0x80_0000 + (scaled as u32 - 0x80_0000)
}

/// The bytes of a text with its terminator.
pub open spec fn terminated(source: Seq<u8>) -> Seq<u8> {
    source.push(0u8)
}

/// A byte, or zero beyond the end.
pub open spec fn byte_or_zero(bytes: Seq<u8>, index: int) -> int {
    if 0 <= index < bytes.len() {
        bytes[index] as int
    } else {
        0
    }
}

/// One word of a text: four bytes, filled up with zeros.
pub open spec fn text_word(bytes: Seq<u8>, index: int) -> u32 {
    (byte_or_zero(bytes, 4 * index) + byte_or_zero(bytes, 4 * index + 1) * 0x100 + byte_or_zero(
        bytes,
        4 * index + 2,
    ) * 0x1_0000 + byte_or_zero(bytes, 4 * index + 3) * 0x100_0000) as u32
}

/// The words of a text.
pub open spec fn text_words(bytes: Seq<u8>) -> Seq<u32> {
    Seq::new(((bytes.len() + 3) / 4) as nat, |i: int| text_word(bytes, i))
}

/// The body of a shader packet.
pub open spec fn shader_body(handle: u32, stage: ShaderStage, source: Seq<u8>) -> Seq<u32> {
    seq![
        handle,
        stage.number(),
        ((source.len() + 1) % 0x1_0000_0000) as u32,
        source.len() as u32,
        0u32,
    ] + text_words(terminated(source))
}

/// Appends packets to a command stream.
pub struct CommandEncoder {
    words: Vec<u32>,
}

impl View for CommandEncoder {
    type V = Seq<u32>;

    closed spec fn view(&self) -> Seq<u32> {
        self.words@
    }
}

fn byte_at(bytes: &[u8], index: usize) -> (result: u32)
    ensures
        result == byte_or_zero(bytes@, index as int),
        result < 0x100,
{
    if index < bytes.len() {
        bytes[index] as u32
    } else {
        0
    }
}

impl CommandEncoder {
    /// An empty stream.
    pub fn new() -> (result: Self)
        ensures
            result@ == Seq::<u32>::empty(),
    {
        CommandEncoder { words: Vec::new() }
    }

    /// The encoded words.
    pub fn words(&self) -> (result: &[u32])
        ensures
            result@ == self@,
    {
        self.words.as_slice()
    }

    /// The number of encoded words.
    pub fn len(&self) -> (result: usize)
        ensures
            result == self@.len(),
    {
        self.words.len()
    }

    /// Whether nothing has been encoded.
    pub fn is_empty(&self) -> (result: bool)
        ensures
            result == (self@.len() == 0),
    {
        self.words.len() == 0
    }

    fn append(&mut self, command: u32, object: u32, body: &[u32])
        requires
            body@.len() <= u32::MAX,
        ensures
            final(self)@ == old(self)@ + packet(command, object, body@),
    {
        let length: u32 = body.len() as u32;
        self.words.push(command | (object << 8) | (length << 16));
        self.words.extend_from_slice(body);
        assert(self@ =~= old(self)@ + packet(command, object, body@));
    }

    /// Creates a surface to render to.
    pub fn create_surface(&mut self, handle: u32, resource: u32, format: u32)
        ensures
            final(self)@ == old(self)@ + packet(CREATE_OBJECT, ObjectKind::Surface.number(), seq![handle, resource, format, 0u32, 0u32]),
    {
        let body: [u32; 5] = [handle, resource, format, 0, 0];
        assert(body@ =~= seq![handle, resource, format, 0u32, 0u32]);
        self.append(CREATE_OBJECT, ObjectKind::Surface.raw(), body.as_slice());
    }

    /// Declares vertices of a position and a texture coordinate.
    pub fn create_textured_vertex_elements(&mut self, handle: u32)
        ensures
            final(self)@ == old(self)@ + packet(CREATE_OBJECT, ObjectKind::VertexElements.number(), seq![handle, 0u32, 0u32, 0u32, 29u32, 8u32, 0u32, 0u32, 29u32]),
    {
        let body: [u32; 9] = [handle, 0, 0, 0, 29, 8, 0, 0, 29];
        assert(body@ =~= seq![handle, 0u32, 0u32, 0u32, 29u32, 8u32, 0u32, 0u32, 29u32]);
        self.append(CREATE_OBJECT, ObjectKind::VertexElements.raw(), body.as_slice());
    }

    /// Creates a state without depth, stencil and alpha tests.
    pub fn create_depth_stencil_alpha(&mut self, handle: u32)
        ensures
            final(self)@ == old(self)@ + packet(CREATE_OBJECT, ObjectKind::DepthStencilAlpha.number(), seq![handle, 0u32, 0u32, 0u32, 0u32]),
    {
        let body: [u32; 5] = [handle, 0, 0, 0, 0];
        assert(body@ =~= seq![handle, 0u32, 0u32, 0u32, 0u32]);
        self.append(CREATE_OBJECT, ObjectKind::DepthStencilAlpha.raw(), body.as_slice());
    }

    /// Creates a triangle rasterizer that samples pixel centers.
    pub fn create_rasterizer(&mut self, handle: u32)
        ensures
            final(self)@ == old(self)@ + packet(CREATE_OBJECT, ObjectKind::Rasterizer.number(), seq![handle, (1u32 << 1) | (1u32 << 29) | (1u32 << 30), ONE_BITS, 0u32, 0u32, ONE_BITS, 0u32, 0u32, 0u32]),
    {
        let body: [u32; 9] = [handle, (1u32 << 1) | (1u32 << 29) | (1u32 << 30), ONE_BITS, 0, 0, ONE_BITS, 0, 0, 0];
        assert(body@ =~= seq![handle, (1u32 << 1) | (1u32 << 29) | (1u32 << 30), ONE_BITS, 0u32, 0u32, ONE_BITS, 0u32, 0u32, 0u32]);
        self.append(CREATE_OBJECT, ObjectKind::Rasterizer.raw(), body.as_slice());
    }

    /// Creates blending of premultiplied color over target zero.
    pub fn create_premultiplied_blend(&mut self, handle: u32)
        ensures
            final(self)@ == old(self)@ + packet(CREATE_OBJECT, ObjectKind::Blend.number(), seq![handle, 0u32, 0u32, 1u32 | (1u32 << 4) | (0x13u32 << 9) | (1u32 << 17) | (0x13u32 << 22) | (0xfu32 << 27), 0xfu32 << 27, 0xfu32 << 27, 0xfu32 << 27, 0xfu32 << 27, 0xfu32 << 27, 0xfu32 << 27, 0xfu32 << 27]),
    {
        let body: [u32; 11] = [handle, 0, 0, 1u32 | (1u32 << 4) | (0x13u32 << 9) | (1u32 << 17) | (0x13u32 << 22) | (0xfu32 << 27), 0xfu32 << 27, 0xfu32 << 27, 0xfu32 << 27, 0xfu32 << 27, 0xfu32 << 27, 0xfu32 << 27, 0xfu32 << 27];
        assert(body@ =~= seq![handle, 0u32, 0u32, 1u32 | (1u32 << 4) | (0x13u32 << 9) | (1u32 << 17) | (0x13u32 << 22) | (0xfu32 << 27), 0xfu32 << 27, 0xfu32 << 27, 0xfu32 << 27, 0xfu32 << 27, 0xfu32 << 27, 0xfu32 << 27, 0xfu32 << 27]);
        self.append(CREATE_OBJECT, ObjectKind::Blend.raw(), body.as_slice());
    }

    /// Creates a view of a two-dimensional texture with its channels in order.
    pub fn create_sampler_view(&mut self, handle: u32, resource: u32, format: u32)
        ensures
            final(self)@ == old(self)@ + packet(CREATE_OBJECT, ObjectKind::SamplerView.number(), seq![handle, resource, format | (PIPE_TEXTURE_2D << 24), 0u32, 0u32, (1u32 << 3) | (2u32 << 6) | (3u32 << 9)]),
    {
        let body: [u32; 6] = [handle, resource, format | (PIPE_TEXTURE_2D << 24), 0, 0, (1u32 << 3) | (2u32 << 6) | (3u32 << 9)];
        assert(body@ =~= seq![handle, resource, format | (PIPE_TEXTURE_2D << 24), 0u32, 0u32, (1u32 << 3) | (2u32 << 6) | (3u32 << 9)]);
        self.append(CREATE_OBJECT, ObjectKind::SamplerView.raw(), body.as_slice());
    }

    /// Binds the shader of a stage.
    pub fn bind_shader(&mut self, stage: ShaderStage, handle: u32)
        ensures
            final(self)@ == old(self)@ + packet(BIND_SHADER, 0, seq![handle, stage.number()]),
    {
        let body: [u32; 2] = [handle, stage.raw()];
        assert(body@ =~= seq![handle, stage.number()]);
        self.append(BIND_SHADER, 0, body.as_slice());
    }

    /// Links a vertex and a fragment shader.
    pub fn link_shaders(&mut self, vertex: u32, fragment: u32)
        ensures
            final(self)@ == old(self)@ + packet(LINK_SHADER, 0, seq![vertex, fragment, 0u32, 0u32, 0u32, 0u32]),
    {
        let body: [u32; 6] = [vertex, fragment, 0, 0, 0, 0];
        assert(body@ =~= seq![vertex, fragment, 0u32, 0u32, 0u32, 0u32]);
        self.append(LINK_SHADER, 0, body.as_slice());
    }

    /// Selects one surface as the framebuffer.
    pub fn set_framebuffer(&mut self, surface: u32)
        ensures
            final(self)@ == old(self)@ + packet(SET_FRAMEBUFFER, 0, seq![1u32, 0u32, surface]),
    {
        let body: [u32; 3] = [1, 0, surface];
        assert(body@ =~= seq![1u32, 0u32, surface]);
        self.append(SET_FRAMEBUFFER, 0, body.as_slice());
    }

    /// Selects one buffer of interleaved positions and texture coordinates.
    pub fn set_vertex_buffer(&mut self, resource: u32)
        ensures
            final(self)@ == old(self)@ + packet(SET_VERTEX_BUFFERS, 0, seq![16u32, 0u32, resource]),
    {
        let body: [u32; 3] = [16, 0, resource];
        assert(body@ =~= seq![16u32, 0u32, resource]);
        self.append(SET_VERTEX_BUFFERS, 0, body.as_slice());
    }

    /// Clears color target zero to a color, whose channels are given as
    /// single-precision bits.
    pub fn clear(&mut self, color: [u32; 4])
        ensures
            final(self)@ == old(self)@ + packet(CLEAR, 0, seq![1u32 << 2, color[0], color[1], color[2], color[3], 0u32, 0u32, 0u32]),
    {
        let body: [u32; 8] = [1u32 << 2, color[0], color[1], color[2], color[3], 0, 0, 0];
        assert(body@ =~= seq![1u32 << 2, color[0], color[1], color[2], color[3], 0u32, 0u32, 0u32]);
        self.append(CLEAR, 0, body.as_slice());
    }

    /// Binds a context object.
    pub fn bind_object(&mut self, kind: ObjectKind, handle: u32)
        ensures
            final(self)@ == old(self)@ + packet(BIND_OBJECT, kind.number(), seq![handle]),
    {
        let body: [u32; 1] = [handle];
        assert(body@ =~= seq![handle]);
        self.append(BIND_OBJECT, kind.raw(), body.as_slice());
    }

    /// Destroys a context object after its last use in the stream.
    pub fn destroy_object(&mut self, kind: ObjectKind, handle: u32)
        ensures
            final(self)@ == old(self)@ + packet(DESTROY_OBJECT, kind.number(), seq![handle]),
    {
        let body: [u32; 1] = [handle];
        assert(body@ =~= seq![handle]);
        self.append(DESTROY_OBJECT, kind.raw(), body.as_slice());
    }

    /// Creates a sampler with a filter and a wrap rule for each axis.
    pub fn create_sampler_state(
        &mut self,
        handle: u32,
        filter: SamplerFilter,
        wrap_s: SamplerWrap,
        wrap_t: SamplerWrap,
    )
        ensures
            final(self)@ == old(self)@ + packet(
                CREATE_OBJECT,
                ObjectKind::SamplerState.number(),
                seq![
                    handle,
                    wrap_s.number() | (wrap_t.number() << 3) | (SamplerWrap::ClampToEdge.number()
                        << 6) | filter.bits(),
                    0u32,
                    0u32,
                    0u32,
                    0u32,
                    0u32,
                    0u32,
                    0u32,
                ],
            ),
    {
        let filters: u32 = match filter {
            SamplerFilter::Linear => (1u32 << 9) | (1u32 << 11) | (1u32 << 13),
            SamplerFilter::Nearest => 0,
        };
        let state: u32 = wrap_s.raw() | (wrap_t.raw() << 3) | (SamplerWrap::ClampToEdge.raw() << 6)
            | filters;
        let body: [u32; 9] = [handle, state, 0, 0, 0, 0, 0, 0, 0];
        assert(body@ =~= seq![handle, state, 0u32, 0u32, 0u32, 0u32, 0u32, 0u32, 0u32]);
        self.append(CREATE_OBJECT, ObjectKind::SamplerState.raw(), body.as_slice());
    }

    /// Sets the whole target as the viewport, with the top row first.
    pub fn set_viewport(&mut self, width: u32, height: u32)
        ensures
            final(self)@ == old(self)@ + packet(
                SET_VIEWPORT,
                0,
                seq![
                    0u32,
                    half_bits(width as nat) as u32,
                    (0x8000_0000 + half_bits(height as nat)) as u32,
                    HALF_BITS,
                    half_bits(width as nat) as u32,
                    half_bits(height as nat) as u32,
                    HALF_BITS,
                ],
            ),
    {
        let half_width: u32 = half_of(width);
        let half_height: u32 = half_of(height);
        let body: [u32; 7] = [
            0,
            half_width,
            0x8000_0000 + half_height,
            HALF_BITS,
            half_width,
            half_height,
            HALF_BITS,
        ];
        assert(body@ =~= seq![
            0u32,
            half_bits(width as nat) as u32,
            (0x8000_0000 + half_bits(height as nat)) as u32,
            HALF_BITS,
            half_bits(width as nat) as u32,
            half_bits(height as nat) as u32,
            HALF_BITS,
        ]);
        self.append(SET_VIEWPORT, 0, body.as_slice());
    }

    /// Binds one texture and its sampler to the first fragment slot.
    pub fn set_texture(&mut self, view: u32, sampler: u32)
        ensures
            final(self)@ == old(self)@ + packet(SET_SAMPLER_VIEWS, 0, seq![1u32, 0u32, view])
                + packet(BIND_SAMPLER_STATES, 0, seq![1u32, 0u32, sampler]),
    {
        let views: [u32; 3] = [ShaderStage::Fragment.raw(), 0, view];
        assert(views@ =~= seq![1u32, 0u32, view]);
        self.append(SET_SAMPLER_VIEWS, 0, views.as_slice());
        let samplers: [u32; 3] = [ShaderStage::Fragment.raw(), 0, sampler];
        assert(samplers@ =~= seq![1u32, 0u32, sampler]);
        self.append(BIND_SAMPLER_STATES, 0, samplers.as_slice());
    }

    /// Replaces the constants of a stage.
    pub fn set_constants(&mut self, stage: ShaderStage, words: &[u32])
        requires
            words@.len() <= u32::MAX - 2,
        ensures
            final(self)@ == old(self)@ + packet(
                SET_CONSTANT_BUFFER,
                0,
                seq![stage.number(), 0u32] + words@,
            ),
    {
        let mut body: Vec<u32> = Vec::new();
        body.push(stage.raw());
        body.push(0);
        body.extend_from_slice(words);
        assert(body@ =~= seq![stage.number(), 0u32] + words@);
        self.append(SET_CONSTANT_BUFFER, 0, body.as_slice());
    }

    /// Draws triangles from the vertex buffer.
    pub fn draw_triangles(&mut self, start: u32, count: u32)
        ensures
            final(self)@ == old(self)@ + packet(
                DRAW_VBO,
                0,
                seq![
                    start,
                    count,
                    4u32,
                    0u32,
                    1u32,
                    0u32,
                    0u32,
                    0u32,
                    0u32,
                    0u32,
                    (if count == 0 {
                        0
                    } else {
                        count - 1
                    }) as u32,
                    0u32,
                ],
            ),
    {
        let last: u32 = if count == 0 {
            0
        } else {
            count - 1
        };
        let body: [u32; 12] = [start, count, 4, 0, 1, 0, 0, 0, 0, 0, last, 0];
        assert(body@ =~= seq![
            start,
            count,
            4u32,
            0u32,
            1u32,
            0u32,
            0u32,
            0u32,
            0u32,
            0u32,
            last,
            0u32,
        ]);
        self.append(DRAW_VBO, 0, body.as_slice());
    }

    /// Creates a shader from its text. The text is terminated and filled up to
    /// whole words; one byte per token bounds the number of tokens.
    pub fn create_shader(&mut self, handle: u32, stage: ShaderStage, source: &str)
        requires
            encode_utf8(source@).len() <= u32::MAX,
        ensures
            final(self)@ == old(self)@ + packet(
                CREATE_OBJECT,
                ObjectKind::Shader.number(),
                shader_body(handle, stage, encode_utf8(source@)),
            ),
    {
        let text: &[u8] = source.as_bytes();
        let ghost bytes = terminated(text@);
        let length: usize = text.len();
        let capacity: u32 = length as u32;
        let counted: u32 = if capacity == 0xffff_ffff {
            0
        } else {
            capacity + 1
        };
        let count: usize = length / 4 + 1;
        let mut body: Vec<u32> = Vec::new();
        body.push(handle);
        body.push(stage.raw());
        body.push(counted);
        body.push(capacity);
        body.push(0);
        let ghost lead = seq![handle, stage.number(), counted, capacity, 0u32];
        assert(body@ =~= lead + text_words(bytes).take(0));
        let mut i: usize = 0;
        while i < count
            invariant
                text@ == encode_utf8(source@),
                length == text@.len(),
                bytes == terminated(text@),
                count == length / 4 + 1,
                count == text_words(bytes).len(),
                i <= count,
                body@ == lead + text_words(bytes).take(i as int),
            decreases count - i,
        {
            let at: usize = 4 * i;
            let first: u32 = byte_at(text, at);
            let second: u32 = if at < length {
                byte_at(text, at + 1)
            } else {
                0
            };
            let third: u32 = if at + 1 < length {
                byte_at(text, at + 2)
            } else {
                0
            };
            let fourth: u32 = if at + 2 < length {
                byte_at(text, at + 3)
            } else {
                0
            };
            let word: u32 = first + second * 0x100 + third * 0x1_0000 + fourth * 0x100_0000;
            assert(byte_or_zero(bytes, at as int) == first);
            assert(byte_or_zero(bytes, at + 1) == second);
            assert(byte_or_zero(bytes, at + 2) == third);
            assert(byte_or_zero(bytes, at + 3) == fourth);
            body.push(word);
            assert(text_words(bytes).take(i + 1) =~= text_words(bytes).take(i as int).push(
                text_word(bytes, i as int),
            ));
            assert(body@ =~= lead + text_words(bytes).take(i + 1));
            i = i + 1;
        }
        assert(text_words(bytes).take(i as int) =~= text_words(bytes));
        assert(body@ =~= shader_body(handle, stage, text@));
        self.append(CREATE_OBJECT, ObjectKind::Shader.raw(), body.as_slice());
    }
}

impl Default for CommandEncoder {
    fn default() -> (result: Self)
        ensures
            result@ == Seq::<u32>::empty(),
    {
        CommandEncoder::new()
    }
}

/// A stream is made of whole packets.
pub open spec fn framed(words: Seq<u32>) -> bool
    decreases words.len(),
{
    words.len() == 0 || {
        let length = (words[0] >> 16) as int;
        length < words.len() && framed(words.skip(1 + length))
    }
}

proof fn header_length(command: u32, object: u32, length: u32)
    requires
        command < 0x100,
        object < 0x100,
        length < 0x1_0000,
    ensures
        header_word(command, object, length) >> 16 == length,
        header_word(command, object, length) & 0xff == command,
        (header_word(command, object, length) >> 8) & 0xff == object,
{
    assert((command | (object << 8) | (length << 16)) >> 16 == length && (command | (object << 8)
        | (length << 16)) & 0xff == command && ((command | (object << 8) | (length << 16)) >> 8)
        & 0xff == object) by (bit_vector)
        requires
            command < 0x100,
            object < 0x100,
            length < 0x1_0000,
    ;
}

/// A stream of whole packets stays one when a packet is appended whose body
/// fits in the header's length.
pub proof fn appended_packets_stay_whole(
    words: Seq<u32>,
    command: u32,
    object: u32,
    body: Seq<u32>,
)
    requires
        framed(words),
        command < 0x100,
        object < 0x100,
        body.len() < 0x1_0000,
    ensures
        framed(words + packet(command, object, body)),
    decreases words.len(),
{
    let more = packet(command, object, body);
    let all = words + more;
    if words.len() == 0 {
        header_length(command, object, body.len() as u32);
        assert(all =~= more);
        assert(all[0] >> 16 == body.len());
        assert(all.skip(1 + body.len() as int) =~= Seq::<u32>::empty());
        assert(framed(Seq::<u32>::empty()));
    } else {
        let length = (words[0] >> 16) as int;
        appended_packets_stay_whole(words.skip(1 + length), command, object, body);
        assert(all.skip(1 + length) =~= words.skip(1 + length) + more);
        assert(all[0] == words[0]);
    }
}

/// A packet's header gives back its command, its object type and the length of
/// its body.
pub proof fn packet_header_is_read_back(command: u32, object: u32, body: Seq<u32>)
    requires
        command < 0x100,
        object < 0x100,
        body.len() < 0x1_0000,
    ensures
        packet(command, object, body)[0] & 0xff == command,
        (packet(command, object, body)[0] >> 8) & 0xff == object,
        packet(command, object, body)[0] >> 16 == body.len(),
        packet(command, object, body).skip(1) == body,
{
    header_length(command, object, body.len() as u32);
    assert(packet(command, object, body).skip(1) =~= body);
}

} // verus!
