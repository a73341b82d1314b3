use lite_runtime::font::gpu::{
    crop, gpu_glyph, oblique_bitmap, oblique_geometry, text_runs, AtlasKey, GlyphAtlas,
};
use lite_runtime::font::raster::{CachedGlyph, GlyphCache, GlyphKey, GLYPH_CACHE_CAPACITY};
use lite_runtime::font::{
    ellipsize, face_family, font_weight, line_height, longest_fitting, measure_plan, text_align,
    wants_ellipsis, wraps, FaceError, FaceKind, LayoutCache, LayoutKey, LineHeight, Room, Shaping,
    TextAlign, Weight, LAYOUT_CACHE_CAPACITY,
};
use lite_runtime::rect::{PhysicalRect, Rect};
use lite_runtime::style::Computed;

fn style(entries: &[(&str, &str)]) -> Computed {
    let mut computed = Computed::default();
    for (name, value) in entries {
        computed.set(name, value);
    }
    computed
}

#[test]
fn glyph_atlas_keeps_the_tallest_row_when_a_shorter_glyph_follows() {
    let mut atlas = GlyphAtlas::new();
    atlas
        .insert(
            AtlasKey::Terminal {
                bold: false,
                glyph: 1,
            },
            2,
            4,
            &[1; 8],
        )
        .expect("tall glyph");
    atlas
        .insert(
            AtlasKey::Terminal {
                bold: false,
                glyph: 2,
            },
            2,
            1,
            &[2; 2],
        )
        .expect("short glyph");

    let (size, bytes) = atlas.upload().expect("atlas");
    assert_eq!(size.height, 4);
    assert_eq!(bytes.len(), (size.width * size.height) as usize);
    assert_eq!(
        &bytes[3 * size.width as usize..3 * size.width as usize + 2],
        &[1; 2]
    );
}

#[test]
fn glyph_atlas_reuses_stable_rasters_without_another_upload() {
    let mut atlas = GlyphAtlas::new();
    let key = AtlasKey::Terminal {
        bold: false,
        glyph: 7,
    };
    let first = atlas.insert(key, 2, 2, &[1; 4]).expect("first glyph");
    assert!(atlas.dirty());
    atlas.mark_clean();

    let reused = atlas.insert(key, 2, 2, &[9; 4]).expect("reused glyph");
    assert_eq!(reused, first);
    assert!(!atlas.dirty());
    let (size, bytes) = atlas.upload().expect("atlas");
    assert_eq!(&bytes[..2], &[1; 2]);
    assert_eq!(
        &bytes[size.width as usize..size.width as usize + 2],
        &[1; 2]
    );
}

#[test]
fn empty_glyphs_and_atlases_upload_nothing() {
    let mut atlas = GlyphAtlas::new();
    assert!(atlas.upload().is_none());
    let key = AtlasKey::Ui {
        face: FaceKind::Regular,
        glyph: 1,
        size_bits: 0,
        italic: false,
    };
    assert_eq!(atlas.insert(key, 0, 4, &[]), None);
    atlas.begin_frame();
    assert!(atlas.insert(key, 1, 1, &[5]).is_some());
}

fn layout_key(text: &str, advance_bits: u32) -> LayoutKey {
    LayoutKey {
        text: text.to_owned(),
        size_bits: 22f32.to_bits(),
        weight_bits: 400f32.to_bits(),
        leading_bits: 27.5f32.to_bits(),
        wrap: true,
        advance_bits,
    }
}

#[test]
fn layout_cache_reuses_identical_inputs() {
    let mut cache = LayoutCache::new();
    let mut shaped = 0;
    for _ in 0..2 {
        let key = layout_key("LiteOS desktop", u32::MAX);
        if cache.get(&key).is_none() {
            shaped += 1;
            cache.insert(key, shaped);
        }
    }
    // Two identical measures shape once: one cache entry, reused on the hit.
    assert_eq!(shaped, 1);
    assert_eq!(cache.len(), 1);
    // A different width constraint is a different input, not a stale hit.
    let narrow = layout_key("LiteOS desktop", 120f32.to_bits());
    assert!(cache.get(&narrow).is_none());
    cache.insert(narrow, 2);
    assert_eq!(cache.len(), 2);
}

#[test]
fn caches_drop_the_least_recently_used() {
    let mut cache = LayoutCache::new();
    for index in 0..LAYOUT_CACHE_CAPACITY as u32 {
        cache.insert(layout_key("x", index), index);
    }
    assert_eq!(cache.get(&layout_key("x", 0)), Some(&0));
    cache.insert(layout_key("y", 0), 9);
    assert_eq!(cache.len(), LAYOUT_CACHE_CAPACITY);
    assert_eq!(cache.get(&layout_key("x", 0)), Some(&0));
    assert_eq!(cache.get(&layout_key("x", 1)), None);
    let mut glyphs = GlyphCache::new();
    let key = |glyph: u32| GlyphKey {
        bold: false,
        glyph,
        size_bits: 0,
    };
    for index in 0..=GLYPH_CACHE_CAPACITY as u32 {
        glyphs.insert(
            key(index),
            CachedGlyph {
                left: 0,
                top: 0,
                width: 0,
                height: 0,
                data: Vec::new(),
            },
        );
    }
    assert_eq!(glyphs.len(), GLYPH_CACHE_CAPACITY);
    assert!(glyphs.get(key(0)).is_none());
    assert!(glyphs.get(key(1)).is_some());
}

#[test]
fn italic_glyphs_are_sheared() {
    let glyph = CachedGlyph {
        left: 0,
        top: 8,
        width: 1,
        height: 8,
        data: vec![1; 8],
    };
    assert_eq!(oblique_geometry(&glyph, false), (1, 0));
    let (width, offset) = oblique_geometry(&glyph, true);
    let bitmap = oblique_bitmap(&glyph);
    assert_eq!(bitmap.len(), width * 8);
    assert_eq!(bitmap.iter().filter(|pixel| **pixel == 1).count(), 8);
    assert!(width > 1);
    assert!(offset >= 0);
    // The top row leans further right than the bottom one.
    let column = |row: usize| (0..width).position(|x| bitmap[row * width + x] == 1).unwrap();
    assert!(column(0) > column(7));
}

#[test]
fn glyph_quads_are_clipped_with_their_source() {
    let place = |x: i32, y: i32, width: u32, height: u32| Rect {
        x,
        y,
        width,
        height,
    };
    let clip = PhysicalRect {
        x1: 12,
        y1: 0,
        x2: 100,
        y2: 100,
    };
    assert_eq!(
        crop(place(5, 6, 8, 8), place(10, 20, 8, 8), clip),
        Some((place(7, 6, 6, 8), place(12, 20, 6, 8)))
    );
    assert_eq!(crop(place(5, 6, 8, 8), place(0, 20, 8, 8), clip), None);
    let mut atlas = GlyphAtlas::new();
    let mut output = Vec::new();
    let key = AtlasKey::Terminal {
        bold: true,
        glyph: 3,
    };
    let glyph = CachedGlyph {
        left: 1,
        top: 4,
        width: 2,
        height: 4,
        data: vec![7; 8],
    };
    let source = gpu_glyph(&mut atlas, &mut output, clip, key, &glyph, 20, 30, false).unwrap();
    assert_eq!(output.len(), 1);
    assert_eq!(output[0].source, source);
    assert_eq!(output[0].destination, place(21, 26, 2, 4));
    let runs = text_runs(&vec![output[0]; 5], 9, 2);
    assert_eq!(
        runs.iter().map(|run| run.glyphs.len()).collect::<Vec<_>>(),
        [2, 2, 1]
    );
}

#[test]
fn text_is_ellipsized_at_the_longest_fitting_prefix() {
    assert_eq!(longest_fitting(10, &|k: usize| k <= 6), 6);
    assert_eq!(longest_fitting(10, &|_: usize| false), 0);
    assert_eq!(ellipsize("标题 title", true, &|k: usize| k <= 3), "标题 …");
    assert_eq!(ellipsize("title", true, &|_: usize| true), "title…");
    assert_eq!(ellipsize("title", false, &|_: usize| true), "…");
    let single = style(&[("white-space", "nowrap"), ("text-overflow", "ellipsis")]);
    assert!(wants_ellipsis(&single, true, 10));
    assert!(!wants_ellipsis(&single, false, 10));
    assert!(!wants_ellipsis(&style(&[("text-overflow", "ellipsis")]), true, 10));
}

#[test]
fn measures_follow_the_room() {
    assert_eq!(
        measure_plan(true, Some(5), Room::MinContent),
        (Shaping::Within(5), false)
    );
    assert_eq!(
        measure_plan(true, None, Room::MinContent),
        (Shaping::Narrowest, false)
    );
    assert_eq!(
        measure_plan(false, None, Room::MinContent),
        (Shaping::Unbroken, false)
    );
    assert_eq!(
        measure_plan(true, None, Room::Definite(7)),
        (Shaping::Within(7), false)
    );
    assert_eq!(
        measure_plan(true, None, Room::MaxContent),
        (Shaping::Unbroken, true)
    );
    assert!(wraps(&style(&[])));
    assert!(wraps(&style(&[("white-space", "pre-wrap")])));
    assert!(!wraps(&style(&[("white-space", "pre")])));
    assert_eq!(text_align(&style(&[])), TextAlign::Left);
    assert_eq!(text_align(&style(&[("text-align", "center")])), TextAlign::Center);
    assert_eq!(text_align(&style(&[("text-align", "right")])), TextAlign::Right);
}

#[test]
fn line_heights_take_a_multiplier_percentage_and_px() {
    let height = |value: &str, size: f32| match line_height(&style(&[("line-height", value)])) {
        LineHeight::Normal => size * 1.25,
        LineHeight::Percent(text) => text.parse::<f32>().unwrap() / 100.0 * size,
        LineHeight::Px(text) => text.parse::<f32>().unwrap() * 2.0,
        LineHeight::Multiple(text) => text.parse::<f32>().unwrap() * size,
    };
    assert_eq!(height("1.4", 20.0), 28.0);
    assert_eq!(height("140%", 20.0), 28.0);
    assert_eq!(height("14px", 20.0), 28.0);
    assert_eq!(height("normal", 20.0), 25.0);
    assert_eq!(height("tall", 20.0), 25.0);
    assert_eq!(height("x%", 20.0), 25.0);
    assert!(matches!(line_height(&style(&[])), LineHeight::Normal));
    assert!(matches!(font_weight(&style(&[("font-weight", "bold")])), Weight::Bold));
    assert!(matches!(
        font_weight(&style(&[("font-weight", "600")])),
        Weight::Number("600")
    ));
    assert!(matches!(font_weight(&style(&[("font-weight", "thin")])), Weight::Regular));
}

#[test]
fn faces_belong_to_one_family() {
    assert_eq!(face_family(Some("UI"), Some("UI")), Ok("UI".to_owned()));
    assert_eq!(face_family(Some("UI"), Some("Mono")), Err(FaceError::NamesDisagree));
    assert_eq!(face_family(None, Some("Mono")), Err(FaceError::NameMissing));
}
