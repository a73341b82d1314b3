//! Checked PNG decode into premultiplied ARGB pixels, and the keywords of CSS
//! background images.

use vstd::prelude::*;
use vstd::string::*;
use crate::color::{premultiplied, premultiply};
use crate::layout::{dimension, dimension_of, length_view, Length, LengthView};
use crate::style::{text_view, value_of, Computed};
use crate::text::{same, split_whitespace, views, words};

verus! {

/// A decoded picture in premultiplied ARGB8888, row by row.
pub struct Image {
    pub width: usize,
    pub height: usize,
    pub pixels: Vec<u32>,
}

impl Image {
    /// The one-pixel fallback for assets that do not decode.
    pub fn transparent() -> (result: Self)
        ensures
            result.width == 1,
            result.height == 1,
            result.pixels@ == seq![0u32],
    {
        let mut pixels: Vec<u32> = Vec::new();
        pixels.push(0);
        assert(pixels@ =~= seq![0u32]);
        Image { width: 1, height: 1, pixels }
    }
}

/// How the bytes of a frame make up pixels.
#[derive(Clone, Copy, Debug, PartialEq, Eq, Structural)]
pub enum PixelLayout {
    Rgba,
    Rgb,
    GrayscaleAlpha,
    Grayscale,
    Indexed,
}

/// A frame as the decoder hands it out.
pub struct DecodedFrame {
    pub width: u32,
    pub height: u32,
    pub layout: PixelLayout,
    pub bytes: Vec<u8>,
}

/// What a [`DecodedFrame`] holds.
pub struct FrameView {
    pub width: u32,
    pub height: u32,
    pub layout: PixelLayout,
    pub bytes: Seq<u8>,
}

impl View for DecodedFrame {
    type V = FrameView;

    open spec fn view(&self) -> FrameView {
        FrameView {
            width: self.width,
            height: self.height,
            layout: self.layout,
            bytes: self.bytes@,
        }
    }
}

/// What an optional frame holds.
pub open spec fn frame_view(frame: Option<DecodedFrame>) -> Option<FrameView> {
    match frame {
        Some(f) => Some(f@),
        None => None,
    }
}

/// The first frame that the `png` decoder finds in a file, normalised to eight
/// bits a channel.
pub uninterp spec fn png_frame(file: Seq<u8>) -> Option<FrameView>;

/// `png::Decoder` with `normalize_to_color8`, then `read_info` and
/// `Reader::next_frame`: the size, color type and bytes of the first frame, or
/// nothing where one of the steps reports an error.
#[verifier::external_body]
fn read_png(file: &[u8]) -> (result: Option<DecodedFrame>)
    ensures
        frame_view(result) == png_frame(file@),
{
    let mut decoder = png::Decoder::new(std::io::Cursor::new(file));
    decoder.set_transformations(png::Transformations::normalize_to_color8());
    let mut reader = decoder.read_info().ok()?;
    let mut bytes = vec![0u8; reader.output_buffer_size()?];
    let info = reader.next_frame(&mut bytes).ok()?;
    bytes.truncate(info.buffer_size());
    let layout = match info.color_type {
        png::ColorType::Rgba => PixelLayout::Rgba,
        png::ColorType::Rgb => PixelLayout::Rgb,
        png::ColorType::GrayscaleAlpha => PixelLayout::GrayscaleAlpha,
        png::ColorType::Grayscale => PixelLayout::Grayscale,
        png::ColorType::Indexed => PixelLayout::Indexed,
    };
    Some(DecodedFrame { width: info.width, height: info.height, layout, bytes })
}

/// Why a picture was rejected.
#[derive(Clone, Copy, Debug, PartialEq, Eq, Structural)]
pub enum ImageError {
    /// The decoder refused the file.
    Malformed,
    /// The bytes do not divide into whole pixels.
    TruncatedRow,
    /// The palette was not expanded to a supported color type.
    Indexed,
}

/// Bytes of one pixel.
pub open spec fn pixel_bytes(layout: PixelLayout) -> int {
    match layout {
        PixelLayout::Rgba => 4,
        PixelLayout::Rgb => 3,
        PixelLayout::GrayscaleAlpha => 2,
        PixelLayout::Grayscale => 1,
        PixelLayout::Indexed => 1,
    }
}

/// The premultiplied color of the pixel whose bytes begin at `at`.
pub open spec fn pixel_at(layout: PixelLayout, bytes: Seq<u8>, at: int) -> int {
    match layout {
        PixelLayout::Rgba => premultiplied(
            bytes[at] as int,
            bytes[at + 1] as int,
            bytes[at + 2] as int,
            bytes[at + 3] as int,
        ),
        PixelLayout::Rgb => opaque(bytes[at], bytes[at + 1], bytes[at + 2]),
        PixelLayout::GrayscaleAlpha => premultiplied(
            bytes[at] as int,
            bytes[at] as int,
            bytes[at] as int,
            bytes[at + 1] as int,
        ),
        _ => opaque(bytes[at], bytes[at], bytes[at]),
    }
}

/// An opaque color.
pub open spec fn opaque(red: u8, green: u8, blue: u8) -> int {
    0xff00_0000 + red * 0x1_0000 + green * 0x100 + blue
}

fn opaque_pixel(red: u8, green: u8, blue: u8) -> (result: u32)
    ensures
        result == opaque(red, green, blue),
{
    0xff00_0000 + red as u32 * 0x1_0000 + green as u32 * 0x100 + blue as u32
}

/// The number of whole `size`-byte chunks in `length` bytes; a remainder is a
/// truncated row.
pub fn checked_chunks(length: usize, size: usize) -> (result: Result<usize, ImageError>)
    requires
        size > 0,
    ensures
        match result {
            Ok(count) => length % size == 0 && count == length / size,
            Err(error) => length % size != 0 && error == ImageError::TruncatedRow,
        },
{
    if length % size == 0 {
        Ok(length / size)
    } else {
        Err(ImageError::TruncatedRow)
    }
}

/// Converts a decoded frame into premultiplied pixels.
pub fn convert_frame(frame: &DecodedFrame) -> (result: Result<Image, ImageError>)
    ensures
        match result {
            Ok(image) => {
                &&& frame.layout != PixelLayout::Indexed
                &&& frame.bytes@.len() as int % pixel_bytes(frame.layout) == 0
                &&& image.width == frame.width
                &&& image.height == frame.height
                &&& image.pixels@.len() == frame.bytes@.len() as int / pixel_bytes(frame.layout)
                &&& forall|i: int|
                    0 <= i < image.pixels@.len() ==> #[trigger] image.pixels@[i] == pixel_at(
                        frame.layout,
                        frame.bytes@,
                        i * pixel_bytes(frame.layout),
                    )
            },
            Err(ImageError::Indexed) => frame.layout == PixelLayout::Indexed,
            Err(ImageError::TruncatedRow) => frame.layout != PixelLayout::Indexed
                && frame.bytes@.len() as int % pixel_bytes(frame.layout) != 0,
            Err(ImageError::Malformed) => false,
        },
{
    let size: usize = match frame.layout {
        PixelLayout::Rgba => 4,
        PixelLayout::Rgb => 3,
        PixelLayout::GrayscaleAlpha => 2,
        PixelLayout::Grayscale => 1,
        PixelLayout::Indexed => return Err(ImageError::Indexed),
    };
    let count: usize = match checked_chunks(frame.bytes.len(), size) {
        Ok(count) => count,
        Err(error) => return Err(error),
    };
    let mut pixels: Vec<u32> = Vec::new();
    let mut i: usize = 0;
    let mut at: usize = 0;
    while i < count
        invariant
            size == pixel_bytes(frame.layout),
            1 <= size <= 4,
            frame.layout != PixelLayout::Indexed,
            i <= count,
            at == i * size,
            count * size == frame.bytes@.len(),
            frame.bytes@.len() == frame.bytes.len(),
            pixels@.len() == i,
            forall|k: int|
                0 <= k < i ==> #[trigger] pixels@[k] == pixel_at(
                    frame.layout,
                    frame.bytes@,
                    k * size,
                ),
        decreases count - i,
    {
        assert(i * size + size <= count * size) by (nonlinear_arith)
            requires
                i < count,
                size >= 1,
        ;
        let pixel: u32 = match frame.layout {
            PixelLayout::Rgba => premultiply(
                frame.bytes[at],
                frame.bytes[at + 1],
                frame.bytes[at + 2],
                frame.bytes[at + 3],
            ),
            PixelLayout::Rgb => opaque_pixel(
                frame.bytes[at],
                frame.bytes[at + 1],
                frame.bytes[at + 2],
            ),
            PixelLayout::GrayscaleAlpha => premultiply(
                frame.bytes[at],
                frame.bytes[at],
                frame.bytes[at],
                frame.bytes[at + 1],
            ),
            _ => opaque_pixel(frame.bytes[at], frame.bytes[at], frame.bytes[at]),
        };
        pixels.push(pixel);
        assert((i + 1) * size == i * size + size) by (nonlinear_arith);
        i = i + 1;
        at = at + size;
    }
    Ok(Image { width: frame.width as usize, height: frame.height as usize, pixels })
}

/// Decodes a PNG file. Assets are input of an application, so a malformed one
/// is reported and the caller falls back to [`Image::transparent`].
pub fn decode_png(file: &[u8]) -> (result: Result<Image, ImageError>)
    ensures
        match png_frame(file@) {
            None => result == Err::<Image, ImageError>(ImageError::Malformed),
            Some(frame) => match result {
                Ok(image) => {
                    &&& frame.layout != PixelLayout::Indexed
                    &&& frame.bytes.len() as int % pixel_bytes(frame.layout) == 0
                    &&& image.width == frame.width
                    &&& image.height == frame.height
                    &&& image.pixels@.len() == frame.bytes.len() as int / pixel_bytes(frame.layout)
                    &&& forall|i: int|
                        0 <= i < image.pixels@.len() ==> #[trigger] image.pixels@[i] == pixel_at(
                            frame.layout,
                            frame.bytes,
                            i * pixel_bytes(frame.layout),
                        )
                },
                Err(ImageError::Indexed) => frame.layout == PixelLayout::Indexed,
                Err(ImageError::TruncatedRow) => frame.layout != PixelLayout::Indexed
                    && frame.bytes.len() as int % pixel_bytes(frame.layout) != 0,
                Err(ImageError::Malformed) => false,
            },
        },
{
    match read_png(file) {
        Some(frame) => convert_frame(&frame),
        None => Err(ImageError::Malformed),
    }
}

/// How a background image repeats.
#[derive(Clone, Copy, Debug, PartialEq, Eq, Structural)]
pub enum ImageRepeat {
    NoRepeat,
    RepeatX,
    RepeatY,
    Repeat,
}

/// The words of an optional property.
pub open spec fn property_words(style: Map<Seq<char>, Seq<char>>, name: Seq<char>) -> Seq<Seq<char>> {
    match value_of(style, name) {
        Some(value) => words(value),
        None => Seq::empty(),
    }
}

fn words_of<'a>(computed: &'a Computed, name: &str) -> (result: Vec<&'a str>)
    ensures
        views(result@) == property_words(computed@, name@),
{
    match computed.get(name) {
        Some(value) => split_whitespace(value),
        None => {
            let none: Vec<&'a str> = Vec::new();
            assert(views(none@) =~= Seq::<Seq<char>>::empty());
            none
        },
    }
}

/// Which axes repeat.
pub open spec fn repeat_axes(tokens: Seq<Seq<char>>) -> (bool, bool) {
    if tokens.len() >= 2 {
        (tokens[0] != "no-repeat"@, tokens[1] != "no-repeat"@)
    } else if tokens.len() == 1 && tokens[0] == "repeat-x"@ {
        (true, false)
    } else if tokens.len() == 1 && tokens[0] == "repeat-y"@ {
        (false, true)
    } else if tokens.len() == 1 && tokens[0] == "no-repeat"@ {
        (false, false)
    } else {
        (true, true)
    }
}

/// The repeat mode of a pair of axes.
pub open spec fn repeat_of(axes: (bool, bool)) -> ImageRepeat {
    if axes.0 && axes.1 {
        ImageRepeat::Repeat
    } else if axes.0 {
        ImageRepeat::RepeatX
    } else if axes.1 {
        ImageRepeat::RepeatY
    } else {
        ImageRepeat::NoRepeat
    }
}

/// Resolves `background-repeat`.
pub fn background_repeat(computed: &Computed) -> (result: ImageRepeat)
    ensures
        result == repeat_of(repeat_axes(property_words(computed@, "background-repeat"@))),
{
    let tokens = words_of(computed, "background-repeat");
    assert(views(tokens@).len() == tokens@.len());
    assert(forall|k: int| 0 <= k < tokens@.len() ==> views(tokens@)[k] == (#[trigger] tokens@[k])@);
    proof {
        reveal_strlit("repeat-x");
        reveal_strlit("repeat-y");
        reveal_strlit("no-repeat");
        assert("repeat-x"@[7] != "repeat-y"@[7]);
        assert("no-repeat"@.len() == 9);
    }
    let (x, y) = if tokens.len() >= 2 {
        (!same(tokens[0], "no-repeat"), !same(tokens[1], "no-repeat"))
    } else if tokens.len() == 1 {
        if same(tokens[0], "repeat-x") {
            (true, false)
        } else if same(tokens[0], "repeat-y") {
            (false, true)
        } else if same(tokens[0], "no-repeat") {
            (false, false)
        } else {
            (true, true)
        }
    } else {
        (true, true)
    };
    if x && y {
        ImageRepeat::Repeat
    } else if x {
        ImageRepeat::RepeatX
    } else if y {
        ImageRepeat::RepeatY
    } else {
        ImageRepeat::NoRepeat
    }
}

/// A keyword of the vertical axis.
pub open spec fn vertical_keyword(token: Seq<char>) -> bool {
    token == "top"@ || token == "bottom"@
}

/// The horizontal and vertical position words.
pub open spec fn position_words(tokens: Seq<Seq<char>>) -> (Option<Seq<char>>, Option<Seq<char>>) {
    if tokens.len() == 0 {
        (None, None)
    } else if tokens.len() == 1 {
        if vertical_keyword(tokens[0]) {
            (Some("center"@), Some(tokens[0]))
        } else {
            (Some(tokens[0]), Some("center"@))
        }
    } else if vertical_keyword(tokens[0]) {
        (Some(tokens[1]), Some(tokens[0]))
    } else {
        (Some(tokens[0]), Some(tokens[1]))
    }
}

/// Resolves `background-position` into a word for each axis.
pub fn background_position<'a>(computed: &'a Computed) -> (result: (Option<&'a str>, Option<&'a str>))
    ensures
        (text_view(result.0), text_view(result.1)) == position_words(
            property_words(computed@, "background-position"@),
        ),
{
    let tokens = words_of(computed, "background-position");
    assert(views(tokens@).len() == tokens@.len());
    assert(forall|k: int| 0 <= k < tokens@.len() ==> views(tokens@)[k] == (#[trigger] tokens@[k])@);
    if tokens.len() == 0 {
        return (None, None);
    }
    let first = tokens[0];
    let vertical = same(first, "top") || same(first, "bottom");
    if tokens.len() == 1 {
        if vertical {
            (Some("center"), Some(first))
        } else {
            (Some(first), Some("center"))
        }
    } else if vertical {
        (Some(tokens[1]), Some(first))
    } else {
        (Some(first), Some(tokens[1]))
    }
}

/// How large a tile of a background image is. The text of a length is a number
/// as written; an axis without one follows the image's proportions.
pub enum TileSize<'a> {
    /// The smallest tile that covers the box.
    Cover,
    /// The largest tile that fits the box.
    Contain,
    Axes(Option<Length<'a>>, Option<Length<'a>>),
}

/// What a [`TileSize`] holds.
pub enum TileSizeView {
    Cover,
    Contain,
    Axes(Option<LengthView>, Option<LengthView>),
}

impl<'a> View for TileSize<'a> {
    type V = TileSizeView;

    open spec fn view(&self) -> TileSizeView {
        match *self {
            TileSize::Cover => TileSizeView::Cover,
            TileSize::Contain => TileSizeView::Contain,
            TileSize::Axes(x, y) => TileSizeView::Axes(length_view(x), length_view(y)),
        }
    }
}

/// The length of an axis: `auto` and what cannot be read leave it open.
pub open spec fn axis_of(list: Seq<Seq<char>>, index: int) -> Option<LengthView> {
    if index < list.len() && list[index] != "auto"@ {
        dimension_of(list[index])
    } else {
        None
    }
}

/// The tile size that a style states.
pub open spec fn tile_size_of(style: Map<Seq<char>, Seq<char>>) -> TileSizeView {
    let value = value_of(style, "background-size"@);
    if value == Some("cover"@) {
        TileSizeView::Cover
    } else if value == Some("contain"@) {
        TileSizeView::Contain
    } else {
        let list = property_words(style, "background-size"@);
        TileSizeView::Axes(axis_of(list, 0), axis_of(list, 1))
    }
}

fn size_axis<'a>(list: &Vec<&'a str>, index: usize) -> (result: Option<Length<'a>>)
    ensures
        length_view(result) == axis_of(views(list@), index as int),
{
    if index >= list.len() {
        return None;
    }
    assert(views(list@)[index as int] == list@[index as int]@);
    if same(list[index], "auto") {
        None
    } else {
        dimension(list[index])
    }
}

/// Resolves `background-size`.
pub fn background_size<'a>(computed: &'a Computed) -> (result: TileSize<'a>)
    ensures
        result@ == tile_size_of(computed@),
{
    proof {
        reveal_strlit("cover");
        reveal_strlit("contain");
    }
    if computed.is("background-size", "cover") {
        TileSize::Cover
    } else if computed.is("background-size", "contain") {
        TileSize::Contain
    } else {
        let list = words_of(computed, "background-size");
        TileSize::Axes(size_axis(&list, 0), size_axis(&list, 1))
    }
}

/// Where a tile stands on an axis. Texts are numbers as written.
pub enum TileOffset<'a> {
    Start,
    Center,
    End,
    /// A part of the free space.
    Percent(&'a str),
    Px(&'a str),
}

/// What a [`TileOffset`] holds.
pub enum TileOffsetView {
    Start,
    Center,
    End,
    Percent(Seq<char>),
    Px(Seq<char>),
}

impl<'a> View for TileOffset<'a> {
    type V = TileOffsetView;

    open spec fn view(&self) -> TileOffsetView {
        match *self {
            TileOffset::Start => TileOffsetView::Start,
            TileOffset::Center => TileOffsetView::Center,
            TileOffset::End => TileOffsetView::End,
            TileOffset::Percent(text) => TileOffsetView::Percent(text@),
            TileOffset::Px(text) => TileOffsetView::Px(text@),
        }
    }
}

/// The offset that a position word states; what cannot be read stands at the
/// start.
pub open spec fn offset_of(token: Option<Seq<char>>) -> TileOffsetView {
    match token {
        None => TileOffsetView::Start,
        Some(text) => if text == "left"@ || text == "top"@ {
            TileOffsetView::Start
        } else if text == "center"@ {
            TileOffsetView::Center
        } else if text == "right"@ || text == "bottom"@ {
            TileOffsetView::End
        } else {
            match dimension_of(text) {
                Some(LengthView::Percent(number)) => TileOffsetView::Percent(number),
                Some(LengthView::Px(number)) => TileOffsetView::Px(number),
                _ => TileOffsetView::Start,
            }
        },
    }
}

/// Resolves a position word.
pub fn position_offset<'a>(token: Option<&'a str>) -> (result: TileOffset<'a>)
    ensures
        result@ == offset_of(text_view(token)),
{
    let text = match token {
        Some(text) => text,
        None => return TileOffset::Start,
    };
    if same(text, "left") || same(text, "top") {
        TileOffset::Start
    } else if same(text, "center") {
        TileOffset::Center
    } else if same(text, "right") || same(text, "bottom") {
        TileOffset::End
    } else {
        match dimension(text) {
            Some(Length::Percent(number)) => TileOffset::Percent(number),
            Some(Length::Px(number)) => TileOffset::Px(number),
            _ => TileOffset::Start,
        }
    }
}

} // verus!
