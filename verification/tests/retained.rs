use std::collections::HashMap;

use lite_runtime::damage::{bounding, cap_damage, paint_damage, DocumentPaint};
use lite_runtime::overflow::{overflow_modes, OverflowMode};
use lite_runtime::raster::{update_retained_pixels, DamageRaster, OpacityLayer, PixelBuffer};
use lite_runtime::rect::{PhysicalRect, Rect};
use lite_runtime::retained::frame::{
    changed_scroll_damage, classify_gpu_paint, partial_damage, snapshot_gpu_frame, GpuPaint,
    NodeRects, RetainedGpuFrame, ScrollOffset,
};
use lite_runtime::retained::{collect_local_changes, RetainedNode};
use lite_runtime::scene::{ClipMask, CornerRadius, Overlay};
use lite_runtime::style::Computed;
use lite_runtime::styled::{build, Measure, Part};
use lite_runtime::text_control::State;
use lite_runtime::tree::{
    collect_parents, excludes_window, is_surface, takes_autofocus, text_content, Node, Prop,
    PropValue,
};

fn rect(x1: usize, y1: usize, x2: usize, y2: usize) -> PhysicalRect {
    PhysicalRect { x1, y1, x2, y2 }
}

fn plain(id: u64, kind: &str, text: &str) -> Node {
    Node {
        id,
        kind: kind.to_owned(),
        props: Vec::new(),
        text: text.to_owned(),
        children: Vec::new(),
    }
}

fn prop(name: &str, value: PropValue) -> Prop {
    Prop {
        name: name.to_owned(),
        value,
    }
}

fn text(id: u64, value: &str) -> RetainedNode {
    RetainedNode {
        source: plain(id, "#text", value),
        paint_text: value.to_owned(),
        computed: Computed::default(),
        children: Vec::new(),
    }
}

#[test]
fn retained_gpu_admits_only_local_text_replacement() {
    let old = vec![text(7, "12:00")];
    let new = vec![text(7, "12:01")];
    let changes = collect_local_changes(&old, &new).expect("local change");
    assert_eq!(changes.changed, [7]);

    let mut structural = new;
    structural[0]
        .source
        .props
        .push(prop("className", PropValue::Text("clock".to_owned())));
    assert!(collect_local_changes(&old, &structural).is_none());
}

#[test]
fn hover_paint_properties_are_local_but_opacity_is_not() {
    let old = vec![text(7, "Files")];
    let mut hover = text(7, "Files");
    hover.computed.set("background-color", "#223344");
    hover.computed.set("border-color", "#35c8ff");
    hover.computed.set("color", "#ffffff");
    let changes = collect_local_changes(&old, &vec![hover]).expect("paint change");
    assert_eq!(changes.changed, [7]);

    let mut opacity = text(7, "Files");
    opacity.computed.set("opacity", "0.5");
    assert!(collect_local_changes(&old, &vec![opacity]).is_none());
}

#[test]
fn translated_hover_marks_the_whole_subtree_as_moved() {
    let mut old = text(7, "Files");
    old.children.push(text(8, "icon"));
    let mut hover = text(7, "Files");
    hover.children.push(text(8, "icon"));
    hover.computed.set("transform", "translateY(-2px)");
    let changes = collect_local_changes(&vec![old], &vec![hover]).expect("moved subtree");
    assert_eq!(changes.changed, [7]);
    assert_eq!(changes.moved, [8]);
}

#[test]
fn absolute_text_width_and_cursor_position_are_local_changes() {
    let make = |value: &str, style: &str, width: &str| {
        let mut node = text(7, value);
        node.source.kind = "span".to_owned();
        node.source
            .props
            .push(prop("style", PropValue::Other(style.to_owned())));
        node.computed.set("position", "absolute");
        node.computed.set("left", "20px");
        node.computed.set("width", width);
        node
    };
    let old = make("a", r#"{"left":20,"width":8}"#, "8px");
    let new = make("ab", r#"{"left":20,"width":16}"#, "16px");
    let changes = collect_local_changes(&vec![old], &vec![new]).expect("local width change");
    assert_eq!(changes.changed, [7]);
}

#[test]
fn local_damage_is_the_changed_node_bounds() {
    let clock = rect(2810, 20, 2970, 64);
    let bounds = HashMap::from([(7, clock)]);
    assert_eq!(
        partial_damage(&bounds, &bounds, &vec![7], &Vec::new()),
        Some(clock)
    );
}

#[test]
fn local_text_growth_damages_old_and_new_bounds() {
    let old = rect(32, 20, 48, 52);
    let new = PhysicalRect { x2: 80, ..old };
    assert_eq!(
        partial_damage(
            &HashMap::from([(7, old)]),
            &HashMap::from([(7, new)]),
            &vec![7],
            &Vec::new(),
        ),
        Some(old.union(new))
    );
}

#[test]
fn partial_damage_unions_old_and_new_bounds_of_moved_subtrees() {
    let old_bounds = HashMap::from([
        (1, rect(10, 10, 110, 60)),
        (2, rect(20, 20, 60, 40)),
        (3, rect(500, 500, 600, 550)),
    ]);
    // The subtree 1 with its child 2 moves, 3 stays.
    let new_bounds = HashMap::from([
        (1, rect(26, 10, 126, 60)),
        (2, rect(36, 20, 76, 40)),
        (3, rect(500, 500, 600, 550)),
    ]);
    let moved = vec![1, 2];
    assert_eq!(
        partial_damage(&old_bounds, &new_bounds, &Vec::new(), &moved),
        Some(rect(10, 10, 126, 60).union(rect(20, 20, 76, 40)))
    );
    assert_eq!(
        partial_damage(&old_bounds, &old_bounds, &vec![3], &Vec::new()),
        Some(rect(500, 500, 600, 550))
    );
    // A node that is not among the moved ones has other bounds.
    let shifted = HashMap::from([
        (1, rect(10, 10, 110, 60)),
        (2, rect(20, 20, 60, 40)),
        (3, rect(504, 500, 604, 550)),
    ]);
    assert_eq!(partial_damage(&old_bounds, &shifted, &Vec::new(), &moved), None);
    // The frames have another number of nodes.
    let mut shrunk = old_bounds.clone();
    shrunk.remove(&3);
    assert_eq!(partial_damage(&old_bounds, &shrunk, &Vec::new(), &moved), None);
    // Nothing moved after all.
    assert_eq!(partial_damage(&old_bounds, &old_bounds, &Vec::new(), &moved), None);
}

#[test]
fn unexplained_moves_have_no_local_damage() {
    let old = HashMap::from([(1, rect(10, 10, 110, 60)), (3, rect(500, 500, 600, 550))]);
    let new = HashMap::from([(1, rect(26, 10, 126, 60)), (3, rect(500, 500, 600, 550))]);
    assert_eq!(
        partial_damage(&old, &new, &Vec::new(), &vec![1]),
        Some(rect(10, 10, 126, 60))
    );
    let shifted = HashMap::from([(1, rect(10, 10, 110, 60)), (3, rect(504, 500, 604, 550))]);
    assert_eq!(partial_damage(&old, &shifted, &Vec::new(), &vec![1]), None);
    let shrunk = HashMap::from([(1, rect(10, 10, 110, 60))]);
    assert_eq!(partial_damage(&old, &shrunk, &Vec::new(), &vec![1]), None);
    // Moved by nothing: no damage.
    assert_eq!(partial_damage(&old, &old, &Vec::new(), &vec![1]), None);
}

fn frame(offset: f32, port: Option<PhysicalRect>) -> RetainedGpuFrame {
    RetainedGpuFrame {
        document: Vec::new(),
        bounds: HashMap::new(),
        scroll_bounds: port.map(|port| (7, port)).into_iter().collect(),
        scroll_offsets: HashMap::from([(
            7,
            ScrollOffset {
                x: 0f32.to_bits(),
                y: offset.to_bits(),
            },
        )]),
        fixed: HashMap::new(),
        fixed_bounds: HashMap::new(),
        focused: None,
        text_controls: HashMap::new(),
        width: 3008,
        height: 1692,
        output: None,
    }
}

#[test]
fn the_two_zeros_are_the_same_offset() {
    let port = rect(100, 120, 900, 700);
    let paint = |old: f32, new: f32| {
        classify_gpu_paint(Some(&frame(old, Some(port))), &frame(new, Some(port)))
    };
    assert_eq!(paint(0.0, -0.0), GpuPaint::Reuse);
    assert_eq!(paint(-0.0, 0.0), GpuPaint::Reuse);
    assert_eq!(paint(1.0, -1.0), GpuPaint::Partial(port));
    assert_eq!(paint(f32::NAN, f32::NAN), GpuPaint::Partial(port));
    assert_eq!(paint(f32::INFINITY, f32::INFINITY), GpuPaint::Reuse);
}

#[test]
fn scrolling_damages_only_the_scrollport() {
    let port = rect(100, 120, 900, 700);
    assert_eq!(
        changed_scroll_damage(&frame(0.0, Some(port)), &frame(32.0, Some(port))),
        Ok(Some(port))
    );
    assert!(matches!(
        classify_gpu_paint(Some(&frame(0.0, Some(port))), &frame(32.0, Some(port))),
        GpuPaint::Partial(damage) if damage == port
    ));
}

#[test]
fn frames_are_reused_repainted_or_painted_whole() {
    let port = rect(100, 120, 900, 700);
    let full = rect(0, 0, 3008, 1692);
    assert_eq!(
        classify_gpu_paint(Some(&frame(0.0, Some(port))), &frame(0.0, Some(port))),
        GpuPaint::Reuse
    );
    assert_eq!(
        classify_gpu_paint(None, &frame(0.0, Some(port))),
        GpuPaint::Full(full)
    );
    assert_eq!(
        classify_gpu_paint(Some(&frame(0.0, None)), &frame(1.0, None)),
        GpuPaint::Full(full)
    );
    let mut resized = frame(0.0, Some(port));
    resized.width = 100;
    assert_eq!(
        classify_gpu_paint(Some(&frame(0.0, Some(port))), &resized),
        GpuPaint::Full(rect(0, 0, 100, 1692))
    );
}

#[test]
fn controls_and_chrome_damage_their_bounds() {
    let make = || {
        let mut made = frame(0.0, None);
        made.bounds.insert(3, rect(10, 10, 50, 20));
        made
    };
    let mut focused = make();
    focused.focused = Some(3);
    assert_eq!(
        classify_gpu_paint(Some(&make()), &focused),
        GpuPaint::Partial(rect(10, 10, 50, 20))
    );
    let mut edited = make();
    edited.text_controls.insert(
        3,
        State {
            anchor: 1,
            focus: 2,
            scroll_bits: 0,
        },
    );
    let mut signed = make();
    signed.text_controls.insert(
        3,
        State {
            anchor: 1,
            focus: 2,
            scroll_bits: (-0f32).to_bits(),
        },
    );
    assert_eq!(classify_gpu_paint(Some(&edited), &signed), GpuPaint::Reuse);
    assert_eq!(
        classify_gpu_paint(Some(&make()), &edited),
        GpuPaint::Partial(rect(10, 10, 50, 20))
    );
    let mut chrome = make();
    chrome.fixed.insert(9, text(9, "panel"));
    chrome.fixed_bounds.insert(9, rect(0, 0, 5, 5));
    assert_eq!(
        classify_gpu_paint(Some(&make()), &chrome),
        GpuPaint::Partial(rect(0, 0, 5, 5))
    );
    let mut document = make();
    document.document.push(text(3, "new"));
    assert_eq!(
        classify_gpu_paint(Some(&make()), &document),
        GpuPaint::Full(rect(0, 0, 3008, 1692))
    );
}

#[test]
fn local_documents_damage_one_rectangle() {
    let make = |value: &str, x2: usize| {
        let mut made = frame(0.0, None);
        made.document.push(text(3, value));
        made.bounds.insert(3, rect(10, 10, x2, 20));
        made
    };
    assert_eq!(
        classify_gpu_paint(Some(&make("a", 20)), &make("ab", 28)),
        GpuPaint::Partial(rect(10, 10, 28, 20))
    );
    let blurred = |value: &str| {
        let mut made = make(value, 20);
        made.document[0].computed.set("backdrop-filter", "blur(2px)");
        made
    };
    assert_eq!(
        classify_gpu_paint(Some(&blurred("a")), &blurred("b")),
        GpuPaint::Full(rect(0, 0, 3008, 1692))
    );
}

#[test]
fn fixed_damage_covers_appearance_and_removal_without_full_document_damage() {
    let full = Rect {
        x: 0,
        y: 0,
        width: 3008,
        height: 1692,
    };
    let topbar = Rect {
        x: 20,
        y: 18,
        width: 2960,
        height: 80,
    };
    let panel = Rect {
        x: 772,
        y: 184,
        width: 1464,
        height: 1208,
    };
    let current = vec![Overlay {
        rect: panel,
        clip_mask: ClipMask {
            rect: panel,
            radii: [CornerRadius { x: 40, y: 40 }; 4],
        },
    }];
    assert_eq!(
        paint_damage(DocumentPaint::Full, &vec![topbar], &current, full),
        [full]
    );
    assert_eq!(
        paint_damage(DocumentPaint::Reuse, &vec![topbar], &current, full),
        [topbar, panel]
    );
    assert_eq!(
        paint_damage(DocumentPaint::Reuse, &vec![panel], &Vec::new(), full),
        [panel]
    );
}

#[test]
fn cap_damage_merges_overflow_into_the_bounding_box() {
    const MAX_DAMAGE_RECTS: usize = 8;
    let mut rects = vec![rect(0, 0, 10, 10), rect(100, 100, 120, 130)];
    cap_damage(&mut rects, MAX_DAMAGE_RECTS);
    assert_eq!(rects.len(), 2);

    let mut overflow = (0..=MAX_DAMAGE_RECTS)
        .map(|index| rect(index * 10, 0, index * 10 + 5, 8))
        .collect::<Vec<_>>();
    cap_damage(&mut overflow, MAX_DAMAGE_RECTS);
    assert_eq!(overflow, [rect(0, 0, MAX_DAMAGE_RECTS * 10 + 5, 8)]);
    assert_eq!(bounding(&Vec::new()), None);
}

#[test]
fn update_retained_pixels_copies_only_the_scissored_spans() {
    let width = 6;
    let height = 4;
    let mut retained = vec![1u32; width * height];
    let buffer = PixelBuffer {
        width,
        height,
        pixels: vec![2u32; width * height],
    };
    update_retained_pixels(
        &mut retained,
        &buffer,
        &vec![rect(1, 1, 3, 3), rect(4, 0, 6, 1)],
    );
    let expected: &[u32] = &[
        1, 1, 1, 1, 2, 2, //
        1, 2, 2, 1, 1, 1, //
        1, 2, 2, 1, 1, 1, //
        1, 1, 1, 1, 1, 1,
    ];
    assert_eq!(retained, expected);
}

#[test]
fn damage_raster_persists_only_the_scissored_span() {
    let mut target = PixelBuffer {
        width: 5,
        height: 3,
        pixels: vec![1; 15],
    };
    let mut damaged = DamageRaster::new(&target, vec![rect(1, 1, 4, 3)]);
    damaged.row_mut(&mut target, 0).fill(2);
    damaged.row_mut(&mut target, 1).fill(3);
    damaged.row_mut(&mut target, 2).fill(4);
    assert_eq!(damaged.row(&target, 2), &[4, 4, 4, 4, 4]);
    damaged.flush(&mut target);

    assert_eq!(target.row(0), &[1, 1, 1, 1, 1]);
    assert_eq!(target.row(1), &[1, 3, 3, 3, 1]);
    assert_eq!(target.row(2), &[1, 4, 4, 4, 1]);
}

#[test]
fn damage_raster_persists_each_rect_of_a_multi_rect_set() {
    let mut target = PixelBuffer {
        width: 6,
        height: 4,
        pixels: vec![1; 24],
    };
    let mut damaged = DamageRaster::new(&target, vec![rect(0, 0, 2, 1), rect(4, 2, 6, 4)]);
    for row in 0..4 {
        damaged.row_mut(&mut target, row).fill(9);
    }
    damaged.flush(&mut target);

    assert_eq!(target.row(0), &[9, 9, 1, 1, 1, 1]);
    assert_eq!(target.row(1), &[1, 1, 1, 1, 1, 1]);
    assert_eq!(target.row(2), &[1, 1, 1, 1, 9, 9]);
    assert_eq!(target.row(3), &[1, 1, 1, 1, 9, 9]);
}

#[test]
fn opacity_layer_zeroes_rows_lazily_within_the_dirty_span() {
    let mut layer = OpacityLayer::new(2, 8);
    // Pre-fill with stale pixels to prove first writes re-zero their rows.
    layer.pixels.fill(0xdead_beef);

    layer.row_mut(5)[0] = 0xffff_0000;
    layer.row_mut(2)[1] = 0xff00_ff00;

    assert_eq!(layer.dirty, Some((2, 5)));
    // Written cells keep their value; untouched cells in the span are zero.
    assert_eq!(layer.row(2), &[0, 0xff00_ff00]);
    assert_eq!(layer.row(3), &[0, 0]);
    assert_eq!(layer.row(4), &[0, 0]);
    assert_eq!(layer.row(5), &[0xffff_0000, 0]);
    // Rows outside the span are untouched (stale, never composited).
    assert_eq!(layer.row(1), &[0xdead_beef, 0xdead_beef]);

    layer.reset();
    assert_eq!(layer.dirty, None);
    // After reset the next write re-zeroes its row.
    layer.row_mut(5)[0] = 1;
    assert_eq!(layer.row(5), &[1, 0]);
}

fn window(window_id: Option<u32>) -> Node {
    let mut node = plain(window_id.map_or(1, u64::from), "div", "");
    if let Some(window_id) = window_id {
        node.props.push(prop(
            "data-lite-window",
            PropValue::Number(u64::from(window_id)),
        ));
    }
    node
}

#[test]
fn normal_render_never_excludes_nodes() {
    assert!(!excludes_window(&window(None), None));
    assert!(!excludes_window(&window(Some(7)), None));
}

#[test]
fn underlay_excludes_only_the_selected_window() {
    assert!(!excludes_window(&window(None), Some(7)));
    assert!(!excludes_window(&window(Some(6)), Some(7)));
    assert!(excludes_window(&window(Some(7)), Some(7)));
}

#[test]
fn trees_know_their_text_and_parents() {
    let mut span = plain(2, "span", "");
    span.children.push(plain(3, "#text", "Hello "));
    span.children.push(plain(4, "#text", "there"));
    assert!(span.is_text_leaf());
    assert_eq!(text_content(&span), "Hello there");
    let mut root = plain(1, "div", "ignored");
    root.children.push(span);
    assert!(!root.is_text_leaf());
    assert_eq!(text_content(&root), "Hello there");
    let mut parents = HashMap::new();
    collect_parents(&vec![root], None, &mut parents);
    assert_eq!(
        parents,
        HashMap::from([(1, None), (2, Some(1)), (3, Some(2)), (4, Some(2))])
    );
    let mut surface = plain(9, "div", "");
    assert!(!is_surface(&surface));
    surface
        .props
        .push(prop("data-lite-surface", PropValue::Flag(false)));
    assert!(is_surface(&surface));
    let props = vec![prop("autoFocus", PropValue::Flag(true))];
    assert!(takes_autofocus(&props, None));
    assert!(!takes_autofocus(&props, Some(1)));
    assert!(!takes_autofocus(&Vec::new(), None));
}

#[test]
fn styled_trees_stop_at_leaves_and_measure_shaped_text() {
    let mut span = plain(2, "span", "");
    span.children.push(plain(3, "#text", "abc"));
    let mut root = plain(1, "div", "");
    root.children.push(span);
    root.children.push(plain(4, "input", ""));
    let built = build(
        &root,
        None,
        None,
        &|node: &Node,
          above: Option<&lite_runtime::styled::Ancestors<'_>>,
          _inherited: Option<&Computed>,
          part: Part| {
            let mut style = Computed::default();
            style.set("id", &node.id.to_string());
            style.set("parent", &above.map_or(0, |up| up.node.id).to_string());
            style.set(
                "part",
                match part {
                    Part::Element => "element",
                    Part::Placeholder => "placeholder",
                    Part::Selection => "selection",
                },
            );
            style
        },
    );
    assert_eq!(built.children.len(), 2);
    assert!(built.children[0].children.is_empty());
    assert!(matches!(&built.children[0].measure, Measure::Text(text) if text == "abc"));
    assert!(matches!(built.measure, Measure::Plain));
    let field = &built.children[1];
    assert!(field.computed.is("parent", "1"));
    assert!(field.placeholder.as_ref().unwrap().is("part", "placeholder"));
    assert!(field.selection.as_ref().unwrap().is("part", "selection"));
    assert!(built.placeholder.is_none());
}

#[test]
fn snapshots_split_document_and_chrome() {
    let mut root = plain(1, "div", "");
    let mut panel = plain(2, "div", "");
    panel.children.push(plain(3, "div", ""));
    root.children.push(panel);
    root.children.push(plain(4, "div", ""));
    let built = build(
        &root,
        None,
        None,
        &|node: &Node,
          _above: Option<&lite_runtime::styled::Ancestors<'_>>,
          _inherited: Option<&Computed>,
          _part: Part| {
            let mut style = Computed::default();
            if node.id == 2 {
                style.set("position", "fixed");
            }
            if node.id == 4 {
                style.set("overflow", "scroll");
            }
            style
        },
    );
    let rects = (1..=4u64)
        .map(|id| {
            let paint = rect(0, 0, id as usize * 10, 10);
            (id, NodeRects { paint, port: paint })
        })
        .collect::<HashMap<_, _>>();
    let snapshot = snapshot_gpu_frame(
        &vec![built],
        &rects,
        HashMap::new(),
        None,
        HashMap::new(),
        100,
        100,
    );
    assert_eq!(snapshot.document.len(), 1);
    assert_eq!(snapshot.document[0].children.len(), 1);
    assert_eq!(snapshot.document[0].children[0].source.id, 4);
    assert!(snapshot.fixed.contains_key(&2));
    assert_eq!(snapshot.fixed[&2].children.len(), 1);
    assert_eq!(snapshot.bounds.len(), 2);
    assert_eq!(snapshot.fixed_bounds[&2], rect(0, 0, 20, 10));
    assert_eq!(snapshot.scroll_bounds[&4], rect(0, 0, 40, 10));
}

#[test]
fn rectangles_meet_and_join() {
    let a = rect(0, 0, 10, 10);
    let b = rect(5, 5, 20, 8);
    assert_eq!(a.intersect(b), rect(5, 5, 10, 8));
    assert_eq!(a.union(b), rect(0, 0, 20, 10));
    assert!(rect(3, 0, 3, 9).is_empty());
    assert_eq!(
        rect(4, 5, 2, 9).display_rect(),
        Rect {
            x: 4,
            y: 5,
            width: 0,
            height: 4
        }
    );
}

#[test]
fn scrolling_couples_both_axes() {
    let mut computed = Computed::default();
    computed.set("overflow-y", "auto");
    assert_eq!(
        overflow_modes(&computed),
        (OverflowMode::Auto, OverflowMode::Auto)
    );
}
