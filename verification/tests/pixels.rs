use lite_runtime::clip::masked::{ClipRaster, Edge, RowCoverage};
use lite_runtime::clip::RasterClip;
use lite_runtime::image::{
    checked_chunks, convert_frame, decode_png, DecodedFrame, Image, ImageError, PixelLayout,
};
use lite_runtime::kernel::{blur_horizontal, blur_line, blur_vertical};
use lite_runtime::paint::field::{
    gpu_text_input, showing_placeholder, FieldFrame, FieldStep,
};
use lite_runtime::raster::PixelBuffer;
use lite_runtime::rect::PhysicalRect;

fn rect(x1: usize, y1: usize, x2: usize, y2: usize) -> PhysicalRect {
    PhysicalRect { x1, y1, x2, y2 }
}

fn png(width: u32, height: u32, color: png::ColorType, data: &[u8]) -> Vec<u8> {
    let mut bytes = Vec::new();
    let mut encoder = png::Encoder::new(&mut bytes, width, height);
    encoder.set_color(color);
    encoder.set_depth(png::BitDepth::Eight);
    let mut writer = encoder.write_header().expect("header");
    writer.write_image_data(data).expect("pixels");
    writer.finish().expect("end");
    bytes
}

#[test]
fn pictures_are_decoded_and_premultiplied() {
    let file = png(2, 1, png::ColorType::Rgba, &[255, 0, 0, 255, 255, 255, 255, 128]);
    let image = decode_png(&file).expect("picture");
    assert_eq!((image.width, image.height), (2, 1));
    assert_eq!(image.pixels, [0xffff_0000, 0x8080_8080]);
    let gray = decode_png(&png(1, 2, png::ColorType::Grayscale, &[16, 32])).expect("gray");
    assert_eq!(gray.pixels, [0xff10_1010, 0xff20_2020]);
    let rgb = decode_png(&png(1, 1, png::ColorType::Rgb, &[1, 2, 3])).expect("rgb");
    assert_eq!(rgb.pixels, [0xff01_0203]);
    let mut broken = file.clone();
    broken.truncate(20);
    assert!(matches!(decode_png(&broken), Err(ImageError::Malformed)));
    assert!(matches!(decode_png(b"not a picture"), Err(ImageError::Malformed)));
}

#[test]
fn frames_hold_whole_pixels() {
    let frame = |layout: PixelLayout, bytes: Vec<u8>| DecodedFrame {
        width: 1,
        height: 1,
        layout,
        bytes,
    };
    assert!(matches!(
        convert_frame(&frame(PixelLayout::Indexed, vec![1])),
        Err(ImageError::Indexed)
    ));
    assert!(matches!(
        convert_frame(&frame(PixelLayout::Rgba, vec![1, 2, 3])),
        Err(ImageError::TruncatedRow)
    ));
    let image = convert_frame(&frame(PixelLayout::GrayscaleAlpha, vec![255, 128])).unwrap();
    assert_eq!(image.pixels, [0x8080_8080]);
    assert_eq!(checked_chunks(8, 4), Ok(2));
    assert_eq!(checked_chunks(9, 4), Err(ImageError::TruncatedRow));
    let missing = Image::transparent();
    assert_eq!((missing.width, missing.height, missing.pixels), (1, 1, vec![0]));
}

fn averages(radius: usize) -> Vec<u8> {
    let diameter = radius * 2 + 1;
    (0..=diameter * 255)
        .map(|sum| (sum / diameter) as u8)
        .collect()
}

#[test]
fn blurs_average_their_neighbors() {
    let table = averages(1);
    let source = [0xff00_0000, 0xff00_0000, 0xff00_00ff, 0xff00_0000];
    let mut target = [0; 4];
    blur_line(&source, &mut target, 1, &table);
    assert_eq!(target, [0xff00_0000, 0xff00_0055, 0xff00_0055, 0xff00_0055]);
    let mut rows = [0; 4];
    blur_horizontal(&source, &mut rows, 2, 2, 1, &table);
    assert_eq!(rows, [0xff00_0000, 0xff00_0000, 0xff00_00aa, 0xff00_0055]);
    let mut columns = [0; 4];
    let mut sums = [[0; 2]; 2];
    blur_vertical(&source, &mut columns, 2, 2, 1, &mut sums, &table);
    assert_eq!(columns, [0xff00_0055, 0xff00_0000, 0xff00_00aa, 0xff00_0000]);
}

fn mix(below: u32, above: u32, _edge: Edge) -> u32 {
    let channel = |shift: u32| {
        (((below >> shift) & 0xff) + ((above >> shift) & 0xff)) / 2
    };
    channel(24) << 24 | channel(16) << 16 | channel(8) << 8 | channel(0)
}

/// What a circle of this radius in the corners of a square leaves of a row.
fn coverage(clip: PhysicalRect, radius: f32, y: usize) -> Option<(RowCoverage, bool)> {
    if y < clip.y1 || y >= clip.y2 {
        return None;
    }
    let middle = y as f32 + 0.5;
    let top = clip.y1 as f32 + radius;
    let bottom = clip.y2 as f32 - radius;
    let distance = if middle < top {
        top - middle
    } else if middle > bottom {
        middle - bottom
    } else {
        0.0
    };
    let inset = radius - (radius * radius - distance * distance).max(0.0).sqrt();
    let (x1, x2) = (clip.x1 as f32 + inset, clip.x2 as f32 - inset);
    Some((
        RowCoverage {
            first: x1.floor() as usize,
            full_start: x1.ceil() as usize,
            full_end: x2.floor() as usize,
            last: x2.ceil() as usize,
        },
        inset == 0.0,
    ))
}

/// Whether the middle of a pixel lies in a rounded box.
fn in_rounded(area: PhysicalRect, radius: f32, x: usize, y: usize) -> bool {
    let (left, top) = (area.x1 as f32 + radius, area.y1 as f32 + radius);
    let (right, bottom) = (area.x2 as f32 - radius, area.y2 as f32 - radius);
    let (x, y) = (x as f32 + 0.5, y as f32 + 0.5);
    let (dx, dy) = (x - x.clamp(left, right), y - y.clamp(top, bottom));
    dx * dx + dy * dy <= radius * radius
}

#[test]
fn rounded_overflow_preserves_all_four_parent_corners() {
    const WALLPAPER: u32 = 0xff08_1020;
    const FRAME: u32 = 0xff35_c8ff;
    const WINDOW: u32 = 0xff0b_1424;
    const CHILD: u32 = 0xff00_0000;
    let outer = rect(2, 2, 18, 18);
    let padding = rect(3, 3, 17, 17);
    let mut target = PixelBuffer {
        pixels: vec![WALLPAPER; 400],
        width: 20,
        height: 20,
    };
    for y in 0..20 {
        for x in 0..20 {
            if in_rounded(padding, 5.0, x, y) {
                target.pixels[y * 20 + x] = WINDOW;
            } else if in_rounded(outer, 6.0, x, y) {
                target.pixels[y * 20 + x] = FRAME;
            }
        }
    }
    let corners = [(3, 3), (16, 3), (16, 16), (3, 16)];
    let before = corners.map(|(x, y)| target.pixels[y * 20 + x]);
    let mut clipped = ClipRaster::new(&target);
    clipped.push_clip(
        &mut target,
        RasterClip {
            rect: padding,
            radii: [(5, 5); 4],
            clip_x: true,
            clip_y: true,
        },
        &mix,
    );
    for y in padding.y1..padding.y2 {
        let (covered, straight) = coverage(padding, 5.0, y).expect("inside");
        if clipped.open_row(&mut target, y, Some(covered), straight, &mix) {
            target.pixels[y * 20 + padding.x1..y * 20 + padding.x2].fill(CHILD);
        } else {
            clipped.scratch[padding.x1..padding.x2].fill(CHILD);
        }
    }
    clipped.pop_clip(&mut target, &mix);
    let at = |x: usize, y: usize| target.pixels[y * 20 + x];
    assert_eq!(
        corners.map(|(x, y)| at(x, y)),
        before,
        "a square child must not overwrite any rounded parent corner"
    );
    assert_eq!(at(10, 2), FRAME, "top border survives");
    assert_eq!(at(10, 17), FRAME, "bottom border survives");
    assert_eq!(at(10, 3), CHILD, "padding interior remains paintable");
    assert_eq!(at(10, 10), CHILD, "child center remains paintable");
    assert_eq!(at(2, 2), WALLPAPER, "outer corner remains transparent");
    assert_eq!(at(17, 17), WALLPAPER, "bottom corner remains transparent");
    assert!(clipped.active.is_none());
    assert!(clipped.clips.clips.is_empty());
}

#[test]
fn partly_covered_pixels_are_blended() {
    let mut target = PixelBuffer {
        pixels: vec![0xff00_0000; 6],
        width: 6,
        height: 1,
    };
    let mut clipped = ClipRaster::new(&target);
    clipped.push_clip(
        &mut target,
        RasterClip {
            rect: rect(0, 0, 6, 1),
            radii: [(1, 1); 4],
            clip_x: true,
            clip_y: true,
        },
        &mix,
    );
    let covered = RowCoverage {
        first: 1,
        full_start: 2,
        full_end: 4,
        last: 5,
    };
    assert!(!clipped.open_row(&mut target, 0, Some(covered), false, &mix));
    clipped.scratch.fill(0xff00_00fe);
    assert_eq!(clipped.row(&target, 0)[0], 0xff00_00fe);
    clipped.flush(&mut target, &mix);
    assert_eq!(
        target.pixels,
        [
            0xff00_0000,
            0xff00_007f,
            0xff00_00fe,
            0xff00_00fe,
            0xff00_007f,
            0xff00_0000
        ]
    );
    assert_eq!(clipped.row(&target, 0)[0], 0xff00_0000);
    assert!(!clipped.open_row(&mut target, 0, None, false, &mix));
    clipped.scratch.fill(0);
    clipped.flush(&mut target, &mix);
    assert_eq!(target.pixels[2], 0xff00_00fe);
}

#[test]
fn fields_paint_selection_text_and_caret() {
    let frame = FieldFrame {
        content: rect(10, 10, 110, 40),
        line: rect(10, 15, 110, 35),
        clip: rect(10, 10, 60, 40),
        origin_x: 10,
        selection: Some(0xff11_2233),
        caret: Some(20),
        color: 0xffff_ffff,
    };
    let steps = gpu_text_input(&frame, false, &vec![(0, 20), (30, 90)]);
    let names = steps
        .iter()
        .map(|step| match step {
            FieldStep::Solid(paint) => (paint.color, paint.rect.x, paint.rect.width),
            FieldStep::Text {
                placeholder: false, ..
            } => (1, 0, 0),
            FieldStep::Selected { clip } => (2, clip.x1 as i32, (clip.x2 - clip.x1) as u32),
            _ => (0, 0, 0),
        })
        .collect::<Vec<_>>();
    assert_eq!(
        names,
        [
            (0xff11_2233, 10, 20),
            (0xff11_2233, 40, 20),
            (1, 0, 0),
            (2, 10, 20),
            (2, 40, 20),
            (0xffff_ffff, 30, 2),
        ]
    );
    let empty = gpu_text_input(&frame, true, &vec![(0, 20)]);
    assert_eq!(empty.len(), 2);
    assert!(matches!(
        empty[0],
        FieldStep::Text {
            placeholder: true,
            ..
        }
    ));
    let hidden = FieldFrame {
        clip: rect(10, 10, 10, 40),
        ..frame
    };
    assert!(gpu_text_input(&hidden, false, &Vec::new()).is_empty());
    assert!(showing_placeholder("", "name"));
    assert!(!showing_placeholder("x", "name"));
    assert!(!showing_placeholder("", ""));
}
