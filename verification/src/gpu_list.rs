//! Owned paint output and its lowering into display commands.
//!
//! Lengths, offsets and opacities are single-precision values; they travel as
//! their bit patterns.

use vstd::prelude::*;
use crate::border::BorderStyle;
use crate::image::ImageRepeat;
use crate::paint::RenderOutput;
use crate::rect::{Rect, Size};
use crate::scene::{ClipMask, CornerRadius};

verus! {

/// One color of a gradient and the bits of its position.
#[derive(Clone, Copy, Debug, PartialEq, Eq, Structural)]
pub struct GradientStop {
    pub color: u32,
    pub position: u32,
}

/// One glyph quad: where it is read and where it is drawn.
#[derive(Clone, Copy, Debug, PartialEq, Eq, Structural)]
pub struct Glyph {
    pub source: Rect,
    pub destination: Rect,
}

/// A texture region by the bits of its edges.
#[derive(Clone, Copy, Debug, PartialEq, Eq, Structural)]
pub struct TextureRect {
    pub x: u32,
    pub y: u32,
    pub width: u32,
    pub height: u32,
}

/// How a texture is sampled.
#[derive(Clone, Copy, Debug, PartialEq, Eq, Structural)]
pub enum ImageSampling {
    Nearest,
    Linear,
}

/// One paint command that owns its data.
pub enum GpuCommand {
    PushGroup(u32),
    PopGroup,
    PushClip(ClipMask),
    PopClip,
    PushOpacity(u32),
    PopOpacity,
    SolidRect { rect: Rect, radii: [CornerRadius; 4], color: u32 },
    LinearGradient {
        rect: Rect,
        radii: [CornerRadius; 4],
        start: [u32; 2],
        end: [u32; 2],
        stops: Vec<GradientStop>,
    },
    Border {
        rect: Rect,
        radii: [CornerRadius; 4],
        widths: [u32; 4],
        colors: [u32; 4],
        styles: [BorderStyle; 4],
    },
    BoxShadow {
        rect: Rect,
        radii: [CornerRadius; 4],
        offset: [u32; 2],
        blur: u32,
        spread: u32,
        color: u32,
        inset: bool,
    },
    Image {
        texture_id: u32,
        source: TextureRect,
        destination: Rect,
        radii: [CornerRadius; 4],
        opacity: u32,
        sampling: ImageSampling,
        repeat: ImageRepeat,
    },
    GlyphRun {
        texture_id: u32,
        color: u32,
        offset: [u32; 2],
        blur: u32,
        glyphs: Vec<Glyph>,
    },
    BackdropBlur { rect: Rect, radii: [CornerRadius; 4], radius: u32 },
}

/// One display command that borrows its lists.
pub enum DisplayCommand<'a> {
    PushGroup(u32),
    PopGroup,
    PushClip(ClipMask),
    PopClip,
    PushOpacity(u32),
    PopOpacity,
    SolidRect { rect: Rect, radii: [CornerRadius; 4], color: u32 },
    LinearGradient {
        rect: Rect,
        radii: [CornerRadius; 4],
        start: [u32; 2],
        end: [u32; 2],
        stops: &'a [GradientStop],
    },
    Border {
        rect: Rect,
        radii: [CornerRadius; 4],
        widths: [u32; 4],
        colors: [u32; 4],
        styles: [BorderStyle; 4],
    },
    BoxShadow {
        rect: Rect,
        radii: [CornerRadius; 4],
        offset: [u32; 2],
        blur: u32,
        spread: u32,
        color: u32,
        inset: bool,
    },
    Image {
        texture_id: u32,
        source: TextureRect,
        destination: Rect,
        radii: [CornerRadius; 4],
        opacity: u32,
        sampling: ImageSampling,
        repeat: ImageRepeat,
    },
    GlyphRun {
        texture_id: u32,
        color: u32,
        offset: [u32; 2],
        blur: u32,
        glyphs: &'a [Glyph],
    },
    BackdropBlur { rect: Rect, radii: [CornerRadius; 4], radius: u32 },
}

/// What a command says, owned or borrowed.
pub enum CommandView {
    PushGroup(u32),
    PopGroup,
    PushClip(ClipMask),
    PopClip,
    PushOpacity(u32),
    PopOpacity,
    SolidRect { rect: Rect, radii: [CornerRadius; 4], color: u32 },
    LinearGradient {
        rect: Rect,
        radii: [CornerRadius; 4],
        start: [u32; 2],
        end: [u32; 2],
        stops: Seq<GradientStop>,
    },
    Border {
        rect: Rect,
        radii: [CornerRadius; 4],
        widths: [u32; 4],
        colors: [u32; 4],
        styles: [BorderStyle; 4],
    },
    BoxShadow {
        rect: Rect,
        radii: [CornerRadius; 4],
        offset: [u32; 2],
        blur: u32,
        spread: u32,
        color: u32,
        inset: bool,
    },
    Image {
        texture_id: u32,
        source: TextureRect,
        destination: Rect,
        radii: [CornerRadius; 4],
        opacity: u32,
        sampling: ImageSampling,
        repeat: ImageRepeat,
    },
    GlyphRun { texture_id: u32, color: u32, offset: [u32; 2], blur: u32, glyphs: Seq<Glyph> },
    BackdropBlur { rect: Rect, radii: [CornerRadius; 4], radius: u32 },
}

impl View for GpuCommand {
    type V = CommandView;

    open spec fn view(&self) -> CommandView {
        match *self {
            GpuCommand::PushGroup(group) => CommandView::PushGroup(group),
            GpuCommand::PopGroup => CommandView::PopGroup,
            GpuCommand::PushClip(mask) => CommandView::PushClip(mask),
            GpuCommand::PopClip => CommandView::PopClip,
            GpuCommand::PushOpacity(opacity) => CommandView::PushOpacity(opacity),
            GpuCommand::PopOpacity => CommandView::PopOpacity,
            GpuCommand::SolidRect { rect, radii, color } => CommandView::SolidRect {
                rect,
                radii,
                color,
            },
            GpuCommand::LinearGradient { rect, radii, start, end, stops } => {
                CommandView::LinearGradient { rect, radii, start, end, stops: stops@ }
            },
            GpuCommand::Border { rect, radii, widths, colors, styles } => CommandView::Border {
                rect,
                radii,
                widths,
                colors,
                styles,
            },
            GpuCommand::BoxShadow { rect, radii, offset, blur, spread, color, inset } => {
                CommandView::BoxShadow { rect, radii, offset, blur, spread, color, inset }
            },
            GpuCommand::Image {
                texture_id,
                source,
                destination,
                radii,
                opacity,
                sampling,
                repeat,
            } => CommandView::Image {
                texture_id,
                source,
                destination,
                radii,
                opacity,
                sampling,
                repeat,
            },
            GpuCommand::GlyphRun { texture_id, color, offset, blur, glyphs } => {
                CommandView::GlyphRun { texture_id, color, offset, blur, glyphs: glyphs@ }
            },
            GpuCommand::BackdropBlur { rect, radii, radius } => CommandView::BackdropBlur {
                rect,
                radii,
                radius,
            },
        }
    }
}

impl<'a> View for DisplayCommand<'a> {
    type V = CommandView;

    open spec fn view(&self) -> CommandView {
        match *self {
            DisplayCommand::PushGroup(group) => CommandView::PushGroup(group),
            DisplayCommand::PopGroup => CommandView::PopGroup,
            DisplayCommand::PushClip(mask) => CommandView::PushClip(mask),
            DisplayCommand::PopClip => CommandView::PopClip,
            DisplayCommand::PushOpacity(opacity) => CommandView::PushOpacity(opacity),
            DisplayCommand::PopOpacity => CommandView::PopOpacity,
            DisplayCommand::SolidRect { rect, radii, color } => CommandView::SolidRect {
                rect,
                radii,
                color,
            },
            DisplayCommand::LinearGradient { rect, radii, start, end, stops } => {
                CommandView::LinearGradient { rect, radii, start, end, stops: stops@ }
            },
            DisplayCommand::Border { rect, radii, widths, colors, styles } => CommandView::Border {
                rect,
                radii,
                widths,
                colors,
                styles,
            },
            DisplayCommand::BoxShadow { rect, radii, offset, blur, spread, color, inset } => {
                CommandView::BoxShadow { rect, radii, offset, blur, spread, color, inset }
            },
            DisplayCommand::Image {
                texture_id,
                source,
                destination,
                radii,
                opacity,
                sampling,
                repeat,
            } => CommandView::Image {
                texture_id,
                source,
                destination,
                radii,
                opacity,
                sampling,
                repeat,
            },
            DisplayCommand::GlyphRun { texture_id, color, offset, blur, glyphs } => {
                CommandView::GlyphRun { texture_id, color, offset, blur, glyphs: glyphs@ }
            },
            DisplayCommand::BackdropBlur { rect, radii, radius } => CommandView::BackdropBlur {
                rect,
                radii,
                radius,
            },
        }
    }
}

impl GpuCommand {
    /// Lends the command to the encoder: everything it says stays the same.
    pub fn borrowed(&self) -> (result: DisplayCommand<'_>)
        ensures
            result@ == self@,
    {
        match self {
            GpuCommand::PushGroup(group) => DisplayCommand::PushGroup(*group),
            GpuCommand::PopGroup => DisplayCommand::PopGroup,
            GpuCommand::PushClip(mask) => DisplayCommand::PushClip(*mask),
            GpuCommand::PopClip => DisplayCommand::PopClip,
            GpuCommand::PushOpacity(opacity) => DisplayCommand::PushOpacity(*opacity),
            GpuCommand::PopOpacity => DisplayCommand::PopOpacity,
            GpuCommand::SolidRect { rect, radii, color } => DisplayCommand::SolidRect {
                rect: *rect,
                radii: *radii,
                color: *color,
            },
            GpuCommand::LinearGradient { rect, radii, start, end, stops } => {
                DisplayCommand::LinearGradient {
                    rect: *rect,
                    radii: *radii,
                    start: *start,
                    end: *end,
                    stops: stops.as_slice(),
                }
            },
            GpuCommand::Border { rect, radii, widths, colors, styles } => DisplayCommand::Border {
                rect: *rect,
                radii: *radii,
                widths: *widths,
                colors: *colors,
                styles: *styles,
            },
            GpuCommand::BoxShadow { rect, radii, offset, blur, spread, color, inset } => {
                DisplayCommand::BoxShadow {
                    rect: *rect,
                    radii: *radii,
                    offset: *offset,
                    blur: *blur,
                    spread: *spread,
                    color: *color,
                    inset: *inset,
                }
            },
            GpuCommand::Image {
                texture_id,
                source,
                destination,
                radii,
                opacity,
                sampling,
                repeat,
            } => DisplayCommand::Image {
                texture_id: *texture_id,
                source: *source,
                destination: *destination,
                radii: *radii,
                opacity: *opacity,
                sampling: *sampling,
                repeat: *repeat,
            },
            GpuCommand::GlyphRun { texture_id, color, offset, blur, glyphs } => {
                DisplayCommand::GlyphRun {
                    texture_id: *texture_id,
                    color: *color,
                    offset: *offset,
                    blur: *blur,
                    glyphs: glyphs.as_slice(),
                }
            },
            GpuCommand::BackdropBlur { rect, radii, radius } => DisplayCommand::BackdropBlur {
                rect: *rect,
                radii: *radii,
                radius: *radius,
            },
        }
    }
}

/// The views of owned commands.
pub open spec fn command_views(commands: Seq<GpuCommand>) -> Seq<CommandView> {
    Seq::new(commands.len(), |i: int| commands[i]@)
}

/// The views of borrowed commands.
pub open spec fn borrowed_views(commands: Seq<DisplayCommand>) -> Seq<CommandView> {
    Seq::new(commands.len(), |i: int| commands[i]@)
}

/// How the texels of a texture are laid out.
#[derive(Clone, Copy, Debug, PartialEq, Eq, Structural)]
pub enum TextureFormat {
    Bgra8Premultiplied,
    R8,
}

/// One texture that a frame needs and the compositor does not have yet.
pub struct TextureUpload {
    pub id: u32,
    pub size: Size,
    pub format: TextureFormat,
    pub bytes: Vec<u8>,
}

/// One frame's commands and how it relates to the frame before.
pub struct GpuFrame {
    pub commands: Vec<GpuCommand>,
    pub uploads: Vec<TextureUpload>,
    pub output: RenderOutput,
    pub retired_textures: Vec<u32>,
    pub reuses_previous: bool,
    pub paint_changed: bool,
}

/// What a frame is encoded from.
pub struct CommitParts<'a> {
    pub revision: u64,
    pub configuration_serial: u64,
    /// The revision whose paint the frame reuses; zero for none.
    pub base_revision: u64,
    pub damage: Rect,
    pub commands: Vec<DisplayCommand<'a>>,
}

impl GpuFrame {
    /// The parts of the commit message. A frame that reuses the previous paint
    /// cannot be encoded before any paint was committed.
    pub fn commit_parts<'a>(
        &'a self,
        revision: u64,
        configuration_serial: u64,
        previous_paint_revision: u64,
    ) -> (result: Option<CommitParts<'a>>)
        ensures
            result is None <==> self.reuses_previous && previous_paint_revision == 0,
            result matches Some(parts) ==> {
                &&& parts.revision == revision
                &&& parts.configuration_serial == configuration_serial
                &&& parts.base_revision == (if self.reuses_previous {
                    previous_paint_revision
                } else {
                    0
                })
                &&& parts.damage == (if self.output.damage@.len() > 0 {
                    self.output.damage@[0]
                } else {
                    (Rect { x: 0, y: 0, width: 0, height: 0 })
                })
                &&& borrowed_views(parts.commands@) == command_views(self.commands@)
            },
    {
        let base_revision: u64 = if self.reuses_previous {
            if previous_paint_revision == 0 {
                return None;
            }
            previous_paint_revision
        } else {
            0
        };
        let damage = if self.output.damage.len() > 0 {
            self.output.damage[0]
        } else {
            Rect { x: 0, y: 0, width: 0, height: 0 }
        };
        let mut commands: Vec<DisplayCommand<'a>> = Vec::new();
        let mut i: usize = 0;
        while i < self.commands.len()
            invariant
                i <= self.commands@.len(),
                commands@.len() == i,
                forall|k: int| 0 <= k < i ==> (#[trigger] commands@[k])@ == self.commands@[k]@,
            decreases self.commands@.len() - i,
        {
            commands.push(self.commands[i].borrowed());
            i = i + 1;
        }
        assert(borrowed_views(commands@) =~= command_views(self.commands@));
        Some(CommitParts { revision, configuration_serial, base_revision, damage, commands })
    }
}

/// The configuration that a frame answers: the desktop's own surface follows the
/// output, every other one its configure event.
pub fn configuration_serial(surface_id: u32, output: u64, configure: u64) -> (result: u64)
    ensures
        result == (if surface_id == 0 {
            output
        } else {
            configure
        }),
{
    if surface_id == 0 {
        output
    } else {
        configure
    }
}

/// One piece of a texture upload.
#[derive(Clone, Copy, Debug, PartialEq, Eq, Structural)]
pub struct Chunk {
    pub offset: u32,
    pub length: usize,
}

/// The pieces that `length` bytes are uploaded in, `size` bytes each but for the
/// last one.
pub open spec fn chunk_list(length: int, size: int, count: int) -> Seq<Chunk> {
    Seq::new(
        count as nat,
        |i: int|
            Chunk {
                offset: (i * size) as u32,
                length: (if i * size + size <= length {
                    size
                } else {
                    length - i * size
                }) as usize,
            },
    )
}

/// Splits a texture of `length` bytes into ordered chunks of at most `size`
/// bytes. A texture whose length does not fit the protocol is refused.
pub fn upload_chunks(length: usize, size: usize) -> (result: Option<Vec<Chunk>>)
    requires
        0 < size <= u32::MAX,
    ensures
        result is Some <==> length <= u32::MAX,
        result matches Some(chunks) ==> {
            &&& chunks@ == chunk_list(length as int, size as int, chunks@.len() as int)
            &&& chunks@.len() * size >= length
            &&& chunks@.len() > 0 ==> (chunks@.len() - 1) * size < length
            &&& length == 0 ==> chunks@.len() == 0
        },
{
    if length > 0xffff_ffff {
        return None;
    }
    let mut chunks: Vec<Chunk> = Vec::new();
    let mut at: usize = 0;
    assert(0 * size == 0) by (nonlinear_arith);
    while at < length
        invariant
            length <= u32::MAX,
            0 < size <= u32::MAX,
            at == (if chunks@.len() * size <= length {
                chunks@.len() * size
            } else {
                length as int
            }),
            chunks@ == chunk_list(length as int, size as int, chunks@.len() as int),
            chunks@.len() > 0 ==> (chunks@.len() - 1) * size < length,
            length == 0 ==> chunks@.len() == 0,
        decreases length - at,
    {
        let step: usize = if length - at < size {
            length - at
        } else {
            size
        };
        let ghost count = chunks@.len() as int;
        chunks.push(Chunk { offset: at as u32, length: step });
        assert((count + 1) * size == count * size + size) by (nonlinear_arith);
        assert(chunks@ =~= chunk_list(length as int, size as int, count + 1));
        at = at + step;
    }
    Some(chunks)
}

/// Every byte of a texture is uploaded in exactly one piece.
pub proof fn chunks_cover_the_texture(length: int, size: int, count: int, byte: int)
    requires
        0 < size <= u32::MAX,
        0 <= byte < length <= u32::MAX,
        count * size >= length,
        (count - 1) * size < length,
    ensures
        ({
            let chunks = chunk_list(length, size, count);
            let holder = byte / size;
            &&& 0 <= holder < count
            &&& forall|i: int|
                0 <= i < count ==> ((#[trigger] chunks[i]).offset <= byte < chunks[i].offset
                    + chunks[i].length <==> i == holder)
        }),
{
    let holder = byte / size;
    assert(holder * size <= byte < holder * size + size && 0 <= holder) by (nonlinear_arith)
        requires
            0 < size,
            0 <= byte,
            holder == byte / size,
    ;
    assert(holder < count) by (nonlinear_arith)
        requires
            holder * size <= byte,
            byte < count * size,
            0 < size,
    ;
    assert forall|i: int| 0 <= i < count implies ((#[trigger] chunk_list(length, size, count)[i]).offset
        <= byte < chunk_list(length, size, count)[i].offset + chunk_list(
        length,
        size,
        count,
    )[i].length <==> i == holder) by {
        assert(0 <= i * size && i * size <= (count - 1) * size) by (nonlinear_arith)
            requires
                0 <= i < count,
                0 < size,
        ;
        if i < holder {
            assert(i * size + size <= holder * size) by (nonlinear_arith)
                requires
                    i < holder,
                    0 < size,
            ;
        } else if i > holder {
            assert(i * size >= holder * size + size) by (nonlinear_arith)
                requires
                    i > holder,
                    0 < size,
            ;
        }
    }
}

} // verus!
