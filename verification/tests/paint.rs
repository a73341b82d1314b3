use std::collections::HashMap;

use lite_runtime::clip::{ClipStack, RasterClip};
use lite_runtime::font::gpu::{AtlasKey, GlyphAtlas, GpuTextRun};
use lite_runtime::gpu_list::{
    configuration_serial, upload_chunks, DisplayCommand, Glyph, GpuCommand, GpuFrame, TextureFormat,
};
use lite_runtime::image::Image;
use lite_runtime::input::{is_rooted, HitRegion, RangeControl};
use lite_runtime::paint::control::{
    control_caret, control_selection_rect, gpu_range, input_line_boxes, range_travel,
};
use lite_runtime::paint::frame::{
    assign_atlas, frame_damage, frame_reuse, image_bytes, retain_drag, retain_scrolls, walk_scene,
    Assembly, FrameError, Textures,
};
use lite_runtime::paint::join::{finish_gpu_frame, start_gpu_frame, FrameStart, Painted};
use lite_runtime::paint::order::{stable_order, stacking_level, z_index};
use lite_runtime::paint::text::{append_text_run, RunShadow};
use lite_runtime::paint::{Laid, Op, PaintNode, RenderOutput};
use lite_runtime::rect::{PhysicalRect, Rect, Size};
use lite_runtime::renderer::Renderer;
use lite_runtime::retained::frame::{GpuPaint, RetainedGpuFrame, ScrollOffset};
use lite_runtime::scene::{
    commit_desktop, scene_clip_masks, ClipMask, CornerRadius, ForeignLayer, SceneError,
    SceneNodeKind, WindowFrame,
};
use lite_runtime::style::Computed;
use lite_runtime::tree::{Node, Prop, PropValue};

fn rect(x1: usize, y1: usize, x2: usize, y2: usize) -> PhysicalRect {
    PhysicalRect { x1, y1, x2, y2 }
}

fn node(id: u64, kind: &str) -> Node {
    Node {
        id,
        kind: kind.to_owned(),
        props: Vec::new(),
        text: String::new(),
        children: Vec::new(),
    }
}

fn with(mut node: Node, name: &str, value: PropValue) -> Node {
    node.props.push(Prop {
        name: name.to_owned(),
        value,
    });
    node
}

fn style(entries: &[(&str, &str)]) -> Computed {
    let mut computed = Computed::default();
    for (name, value) in entries {
        computed.set(name, value);
    }
    computed
}

fn laid(bounds: PhysicalRect) -> Laid {
    Laid {
        bounds,
        surface: bounds.display_rect(),
        port: bounds,
        radii: [CornerRadius { x: 0, y: 0 }; 4],
        overflows_x: false,
        overflows_y: false,
        translucent: false,
        cursor: 0,
        range: None,
        text_origin_x: 0,
    }
}

fn leaf<'a>(source: &'a Node, computed: &'a Computed, bounds: PhysicalRect) -> PaintNode<'a> {
    PaintNode {
        source,
        computed,
        laid: laid(bounds),
        children: Vec::new(),
    }
}

#[test]
fn boxes_are_painted_back_to_front() {
    let source = node(1, "div");
    let computed = style(&[
        ("background-color", "#fff"),
        ("box-shadow", "0 0 1px #000"),
        ("backdrop-filter", "blur(2px)"),
    ]);
    let root = leaf(&source, &computed, rect(0, 0, 10, 10));
    let (steps, output) = walk_scene(&vec![root], None);
    let ops = steps.iter().map(|step| step.op).collect::<Vec<_>>();
    assert_eq!(
        ops,
        [
            Op::Backdrop,
            Op::Shadows { inset: false },
            Op::BackgroundColor,
            Op::Shadows { inset: true },
            Op::Border,
        ]
    );
    assert_eq!(output.hits.len(), 1);
    assert_eq!(output.hits[0].region.right, 5);
}

#[test]
fn stacking_and_groups_follow_the_style() {
    let parent = node(1, "div");
    let low = node(2, "div");
    let high = node(3, "div");
    let parent_style = style(&[("display", "flex"), ("overflow", "scroll")]);
    let low_style = style(&[("z-index", "-1")]);
    let high_style = style(&[("z-index", "5")]);
    let mut root = leaf(&parent, &parent_style, rect(0, 0, 20, 20));
    let mut first = leaf(&high, &high_style, rect(0, 0, 5, 5));
    first.laid.translucent = true;
    root.children.push(first);
    root.children.push(leaf(&low, &low_style, rect(5, 5, 9, 9)));
    let (steps, output) = walk_scene(&vec![root], None);
    let plan = steps
        .iter()
        .map(|step| (step.node, step.op))
        .collect::<Vec<_>>();
    let mask = ClipMask {
        rect: rect(0, 0, 20, 20).display_rect(),
        radii: [CornerRadius { x: 0, y: 0 }; 4],
    };
    assert_eq!(
        plan,
        [
            (1, Op::Border),
            (1, Op::ScrollRegion),
            (1, Op::PushClip(mask)),
            (2, Op::Border),
            (3, Op::OpenOpacity),
            (3, Op::Border),
            (3, Op::CloseOpacity),
            (1, Op::PopClip),
            (
                1,
                Op::Scrollbar {
                    horizontal: true,
                    corner: true,
                    hit: true
                }
            ),
            (
                1,
                Op::Scrollbar {
                    horizontal: false,
                    corner: true,
                    hit: true
                }
            ),
            (1, Op::ScrollCorner),
        ]
    );
    assert_eq!(output.scrolling, [1]);
    assert_eq!(output.hits[1].region.parent_node_id, Some(1));
}

#[test]
fn fixed_chrome_is_painted_after_the_document() {
    let document = node(1, "div");
    let chrome = node(2, "div");
    let button = with(
        with(node(3, "button"), "autoFocus", PropValue::Flag(true)),
        "onKeyDown",
        PropValue::Number(77),
    );
    let plain = style(&[]);
    let fixed = style(&[("position", "fixed"), ("z-index", "950")]);
    let under = style(&[("position", "fixed"), ("z-index", "2")]);
    let other = node(4, "div");
    let mut root = leaf(&document, &plain, rect(0, 0, 100, 100));
    let mut panel = leaf(&chrome, &fixed, rect(10, 10, 50, 50));
    panel.children.push(leaf(&button, &plain, rect(20, 20, 30, 30)));
    root.children.push(panel);
    root.children.push(leaf(&other, &under, rect(0, 0, 8, 8)));
    let (steps, output) = walk_scene(&vec![root], None);
    assert_eq!(
        steps.iter().map(|step| step.node).collect::<Vec<_>>(),
        [1, 2, 3, 4]
    );
    assert_eq!(output.focused, Some(3));
    assert_eq!(output.key_listener, Some(77));
    assert_eq!(
        output
            .overlays
            .iter()
            .map(|overlay| overlay.z_index)
            .collect::<Vec<_>>(),
        [2, 950]
    );
}

#[test]
fn hidden_clipped_and_deaf_nodes() {
    let outer = node(1, "div");
    let hidden = node(2, "div");
    let outside = node(3, "div");
    let deaf = with(node(4, "button"), "onClick", PropValue::Number(5));
    let disabled = with(
        with(node(5, "button"), "disabled", PropValue::Flag(true)),
        "onClick",
        PropValue::Number(6),
    );
    let clip = style(&[("overflow", "hidden")]);
    let none = style(&[("display", "none")]);
    let plain = style(&[]);
    let through = style(&[("pointer-events", "none")]);
    let mut root = leaf(&outer, &clip, rect(0, 0, 10, 10));
    root.children.push(leaf(&hidden, &none, rect(0, 0, 5, 5)));
    root.children.push(leaf(&outside, &plain, rect(20, 20, 30, 30)));
    root.children.push(leaf(&deaf, &through, rect(0, 0, 4, 4)));
    root.children.push(leaf(&disabled, &plain, rect(8, 8, 14, 14)));
    let (steps, output) = walk_scene(&vec![root], None);
    assert!(steps.iter().all(|step| step.node != 2 && step.node != 3));
    assert_eq!(
        output
            .hits
            .iter()
            .map(|hit| hit.region.node_id)
            .collect::<Vec<_>>(),
        [1, 5]
    );
    assert_eq!(output.hits[1].visible, rect(8, 8, 10, 10));
    assert_eq!(output.hits[1].region.click, None);
    assert!(!output.hits[1].region.button);
}

#[test]
fn fields_and_ranges_are_controls() {
    let field = with(
        with(node(1, "input"), "onInput", PropValue::Number(9)),
        "value",
        PropValue::Text("abc".to_owned()),
    );
    let slider = node(2, "input");
    let plain = style(&[]);
    let mut range = leaf(&slider, &plain, rect(0, 0, 40, 10));
    range.laid.range = Some(RangeControl { disabled: true });
    let mut text = leaf(&field, &plain, rect(0, 20, 40, 30));
    text.laid.text_origin_x = -4;
    let (steps, output) = walk_scene(&vec![range, text], None);
    assert!(steps.iter().any(|step| step.op == Op::Range && step.node == 2));
    assert!(steps.iter().any(|step| step.op == Op::Field && step.node == 1));
    let editable = output.hits[1].region.editable.as_ref().unwrap();
    assert_eq!(editable.value, "abc");
    assert_eq!(editable.on_input, Some(9));
    assert_eq!(editable.text_origin_x, -4);
    assert!(output.hits[0].region.range.unwrap().disabled);
}

#[test]
fn client_areas_know_the_chrome_over_them() {
    let window = with(node(1, "div"), "data-lite-window", PropValue::Number(7));
    let client = with(
        with(
            with(node(2, "div"), "data-configure-serial", PropValue::Number(4)),
            "data-lite-surface",
            PropValue::Flag(true),
        ),
        "data-surface-id",
        PropValue::Number(7),
    );
    let grip = with(node(3, "div"), "onPointerDown", PropValue::Number(1));
    let label = node(4, "div");
    let plain = style(&[]);
    let mut root = leaf(&window, &plain, rect(0, 0, 100, 100));
    root.children.push(leaf(&client, &plain, rect(0, 20, 100, 100)));
    root.children.push(leaf(&grip, &plain, rect(90, 90, 100, 100)));
    root.children.push(leaf(&label, &plain, rect(0, 0, 10, 10)));
    let (steps, output) = walk_scene(&vec![root], None);
    assert_eq!(steps[0].op, Op::PushGroup(7));
    assert_eq!(steps[steps.len() - 1].op, Op::PopGroup);
    assert_eq!(output.windows[0].surface_id, 7);
    let layer = &output.foreign[0];
    assert_eq!((layer.surface_id, layer.configure_serial), (7, 4));
    assert_eq!(
        layer.desktop_input,
        [rect(90, 90, 100, 100).display_rect()]
    );
}

#[test]
fn stable_orders_keep_equal_keys_in_turn() {
    assert_eq!(stable_order(&vec![3, 1, 3, -2, 1]), [3, 1, 4, 0, 2]);
    assert!(stable_order(&Vec::new()).is_empty());
    let positioned = style(&[("position", "relative"), ("z-index", " 7 ")]);
    assert_eq!(stacking_level(&positioned, false), 7);
    assert_eq!(z_index(&style(&[("z-index", "auto")])), 0);
    assert_eq!(stacking_level(&style(&[("z-index", "7")]), false), 0);
    assert_eq!(stacking_level(&style(&[("z-index", "7")]), true), 7);
}

#[test]
fn groups_without_paint_leave_nothing() {
    let mut assembly = Assembly::new();
    assembly.emit(vec![GpuCommand::PopClip]);
    assembly.open_opacity(1);
    assembly.open_opacity(2);
    assembly.close_opacity();
    assembly.emit(vec![GpuCommand::PopGroup]);
    assembly.close_opacity();
    let names = assembly
        .commands
        .iter()
        .map(|command| match command {
            GpuCommand::PopClip => "clip",
            GpuCommand::PopGroup => "group",
            GpuCommand::PushOpacity(1) => "push",
            GpuCommand::PopOpacity => "pop",
            _ => "other",
        })
        .collect::<Vec<_>>();
    assert_eq!(names, ["clip", "push", "group", "pop"]);
    assert!(assembly.open.is_empty());
}

#[test]
fn textures_never_share_an_identity() {
    let mut textures = Textures::new();
    assert_eq!(textures.image("a.png"), None);
    assert_eq!(textures.add_image("a.png"), Ok(1));
    assert_eq!(textures.publish_text(true), Ok(None));
    assert_eq!(textures.text, Some(2));
    assert_eq!(textures.publish_text(false), Ok(None));
    assert_eq!(textures.publish_text(true), Ok(Some(2)));
    assert_eq!(textures.image("a.png"), Some(1));
    textures.next = u32::MAX;
    assert_eq!(
        textures.add_image("b.png"),
        Err(FrameError::TexturesExhausted)
    );
    assert_eq!(
        textures.publish_text(true),
        Err(FrameError::TexturesExhausted)
    );
}

fn glyph() -> Glyph {
    let place = Rect {
        x: 0,
        y: 0,
        width: 16,
        height: 32,
    };
    Glyph {
        source: place,
        destination: place,
    }
}

#[test]
fn text_is_painted_over_its_shadows_with_the_atlas() {
    let mut commands = Vec::new();
    append_text_run(
        &mut commands,
        0,
        GpuTextRun {
            color: 1,
            glyphs: vec![glyph()],
        },
        &vec![
            RunShadow {
                color: 2,
                offset: [1, 1],
                blur: 0,
            },
            RunShadow {
                color: 3,
                offset: [2, 2],
                blur: 4,
            },
        ],
    );
    append_text_run(
        &mut commands,
        0,
        GpuTextRun {
            color: 9,
            glyphs: Vec::new(),
        },
        &Vec::new(),
    );
    let commands = assign_atlas(commands, Some(8)).ok().unwrap();
    let colors = commands
        .iter()
        .map(|command| match command {
            GpuCommand::GlyphRun {
                texture_id: 8,
                color,
                ..
            } => *color,
            _ => 0,
        })
        .collect::<Vec<_>>();
    assert_eq!(colors, [3, 2, 1]);
    assert!(matches!(
        assign_atlas(commands, None),
        Err(FrameError::NoTextAtlas)
    ));
    assert!(assign_atlas(vec![GpuCommand::PopClip], None).is_ok());
}

#[test]
fn frames_say_what_they_damage_and_reuse() {
    let part = rect(1, 2, 3, 4);
    assert!(frame_damage(GpuPaint::Reuse).is_empty());
    assert_eq!(frame_damage(GpuPaint::Partial(part)), [part.display_rect()]);
    assert_eq!(frame_reuse(GpuPaint::Reuse), (true, false));
    assert_eq!(frame_reuse(GpuPaint::Partial(part)), (true, true));
    assert_eq!(frame_reuse(GpuPaint::Full(part)), (false, true));
    let offset = ScrollOffset { x: 0, y: 1 };
    let offsets = HashMap::from([(1, offset), (2, offset)]);
    assert_eq!(
        retain_scrolls(&offsets, &vec![2, 3]),
        HashMap::from([(2, offset)])
    );
    assert_eq!(retain_drag(Some(2), &vec![2, 3]), Some(2));
    assert_eq!(retain_drag(Some(1), &vec![2, 3]), None);
    assert_eq!(
        image_bytes(&Image {
            width: 1,
            height: 1,
            pixels: vec![0x0403_0201]
        }),
        [1, 2, 3, 4]
    );
}

#[test]
fn ranges_paint_track_progress_and_thumb() {
    let bounds = rect(0, 0, 124, 40);
    assert_eq!(range_travel(bounds), 100);
    let paint = gpu_range(bounds, 50, false, 0xff12_3456, true);
    assert_eq!(paint.len(), 5);
    assert_eq!(
        paint[0].rect,
        Rect {
            x: 12,
            y: 16,
            width: 100,
            height: 8
        }
    );
    assert_eq!(paint[1].rect.width, 50);
    assert_eq!(paint[1].color, 0xff12_3456);
    assert_eq!(paint[2].rect.x, 50);
    assert_eq!(paint[3].radius, 14);
    assert_eq!(gpu_range(bounds, 0, true, 1, false)[1].color, 0xff8b_96a8);
}

#[test]
fn field_lines_are_centered_in_their_content() {
    let (content, line) = input_line_boxes(rect(10, 10, 110, 50), [2; 4], [4; 4], 16);
    assert_eq!(content, rect(16, 16, 104, 44));
    assert_eq!(line, rect(16, 22, 104, 38));
    let (huge, _) = input_line_boxes(rect(10, 10, 110, 50), [usize::MAX / 2; 4], [7; 4], 16);
    assert_eq!(huge, rect(110, 50, 110, 50));
    let (tiny, flat) = input_line_boxes(rect(10, 10, 12, 12), [9; 4], [0; 4], 16);
    assert!(tiny.is_empty());
    assert!(flat.is_empty());
    assert_eq!(
        control_selection_rect(10, line, content, -5, 200),
        rect(16, 22, 104, 38)
    );
    assert_eq!(control_caret(content, line, 500), rect(103, 22, 105, 38));
    assert_eq!(control_caret(content, line, -3), rect(16, 22, 18, 38));
}

#[test]
fn dense_terminal_viewport_encodes_beyond_control_frame_quota() {
    let glyphs = vec![glyph(); 188 * 52];
    let runs = lite_runtime::font::gpu::text_runs(&glyphs, 0xffff_ffff, 512);
    assert_eq!(
        runs.iter().map(|run| run.glyphs.len()).sum::<usize>(),
        188 * 52
    );
    let frame = GpuFrame {
        commands: runs
            .into_iter()
            .map(|run| GpuCommand::GlyphRun {
                texture_id: 1,
                color: run.color,
                offset: [0; 2],
                blur: 0,
                glyphs: run.glyphs,
            })
            .collect(),
        uploads: Vec::new(),
        output: RenderOutput {
            damage: vec![Rect {
                x: 0,
                y: 0,
                width: 3008,
                height: 1692,
            }],
            ..walk_scene(&Vec::new(), None).1
        },
        retired_textures: Vec::new(),
        reuses_previous: false,
        paint_changed: true,
    };
    let parts = frame.commit_parts(1, 1, 0).expect("dense terminal list");
    assert_eq!(parts.damage.width, 3008);
    assert_eq!(
        parts
            .commands
            .iter()
            .map(|command| match command {
                DisplayCommand::GlyphRun { glyphs, .. } => glyphs.len(),
                _ => 0,
            })
            .sum::<usize>(),
        188 * 52
    );
    let partial = GpuFrame {
        reuses_previous: true,
        ..frame
    };
    assert!(partial.commit_parts(2, 1, 0).is_none());
    assert_eq!(partial.commit_parts(2, 1, 9).unwrap().base_revision, 9);
    let chunks = upload_chunks(25, 10).unwrap();
    assert_eq!(
        chunks
            .iter()
            .map(|chunk| (chunk.offset, chunk.length))
            .collect::<Vec<_>>(),
        [(0, 10), (10, 10), (20, 5)]
    );
}

#[test]
fn foreign_surface_includes_owning_window_shape() {
    let bounds = Rect {
        x: 10,
        y: 60,
        width: 400,
        height: 300,
    };
    let window_mask = ClipMask {
        rect: Rect {
            x: 8,
            y: 8,
            width: 404,
            height: 352,
        },
        radii: [CornerRadius { x: 14, y: 14 }; 4],
    };
    let layer = ForeignLayer {
        surface_id: 7,
        configure_serial: 1,
        bounds,
        clip: bounds,
        clip_masks: Vec::new(),
        desktop_input: Vec::new(),
        desktop_hit_start: 0,
    };
    let window = WindowFrame {
        surface_id: 7,
        frame: window_mask.rect,
        clip_mask: window_mask,
    };
    assert_eq!(
        scene_clip_masks(&layer, Some(&window), 4).unwrap(),
        [window_mask]
    );
    assert_eq!(
        scene_clip_masks(&layer, Some(&window), 0),
        Err(SceneError::ClipChainFull)
    );
    let nodes = commit_desktop(
        Size {
            width: 3008,
            height: 1692,
        },
        &vec![layer],
        &vec![window],
        &Vec::new(),
        &Vec::new(),
        4,
    )
    .ok()
    .unwrap();
    let client = nodes
        .iter()
        .position(|node| node.kind == SceneNodeKind::ForeignSurface)
        .unwrap();
    assert_eq!(nodes[client].clip_masks, [window_mask]);
    assert_eq!(nodes[client - 1].window_group, 7);
}

#[test]
fn foreign_scene_masks_preserve_the_complete_nested_css_clip_chain() {
    let mut clipped = ClipStack::new();
    clipped.push_clip(RasterClip {
        rect: rect(2, 2, 38, 38),
        radii: [(8, 8); 4],
        clip_x: true,
        clip_y: true,
    });
    clipped.push_clip(RasterClip {
        rect: rect(4, 10, 36, 36),
        radii: [(0, 0), (0, 0), (6, 5), (6, 5)],
        clip_x: true,
        clip_y: true,
    });
    let masks = clipped.scene_clip_masks();
    assert_eq!(masks.len(), 2);
    assert_eq!(masks[0].rect.x, 2);
    assert_eq!(masks[0].radii[0], CornerRadius { x: 8, y: 8 });
    assert_eq!(masks[1].rect.y, 10);
    assert_eq!(masks[1].radii[2], CornerRadius { x: 6, y: 5 });
    assert_eq!(clipped.rectangular_span(20, 40), Some((4, 36)));
    assert_eq!(clipped.rectangular_span(5, 40), None);
    clipped.pop_clip();
    assert_eq!(clipped.rectangular_span(5, 40), Some((2, 38)));
}

#[test]
fn renderer_targets_report_changes() {
    let size = Size {
        width: 1504,
        height: 846,
    };
    let mut renderer = Renderer::new(size);
    assert!(renderer.set_focus(Some(4)));
    assert!(!renderer.set_focus(Some(4)));
    assert_eq!(renderer.focused(), Some(4));
    assert!(renderer.set_hover_target(Some(1)));
    assert!(renderer.set_active_target(Some(1)));
    assert!(!renderer.set_active_target(Some(1)));
    renderer.set_viewport(Size {
        width: 1,
        height: 2,
    });
    assert_eq!(renderer.viewport.height, 2);
}

fn blank(width: usize) -> RetainedGpuFrame {
    RetainedGpuFrame {
        document: Vec::new(),
        bounds: HashMap::new(),
        scroll_bounds: HashMap::new(),
        scroll_offsets: HashMap::new(),
        fixed: HashMap::new(),
        fixed_bounds: HashMap::new(),
        focused: None,
        text_controls: HashMap::new(),
        width,
        height: 20,
        output: None,
    }
}

fn painted(text: bool) -> Painted {
    let mut commands = vec![GpuCommand::PopGroup];
    if text {
        commands.push(GpuCommand::GlyphRun {
            texture_id: 0,
            color: 0xff00_0000,
            offset: [0; 2],
            blur: 0,
            glyphs: vec![glyph()],
        });
    }
    let mut output = walk_scene(&Vec::new(), Some(5)).1;
    output.scrolling.push(9);
    Painted {
        commands,
        uploads: Vec::new(),
        output,
    }
}

#[test]
fn frames_are_painted_then_shown_again() {
    let mut retained = None;
    let mut textures = Textures::new();
    let mut atlas = GlyphAtlas::new();
    let Ok(FrameStart::Paint(paint)) = start_gpu_frame(&mut retained, blank(30)) else {
        panic!("the first frame is painted");
    };
    assert_eq!(paint, GpuPaint::Full(rect(0, 0, 30, 20)));
    assert!(retained.is_none());
    let key = AtlasKey::Terminal {
        bold: false,
        glyph: 1,
    };
    atlas.insert(key, 2, 1, &[7, 8]).unwrap();
    let frame = finish_gpu_frame(
        paint,
        painted(true),
        blank(30),
        &mut retained,
        &mut textures,
        &mut atlas,
    )
    .ok()
    .unwrap();
    assert!(!frame.reuses_previous);
    assert!(frame.paint_changed);
    assert!(frame.retired_textures.is_empty());
    assert_eq!(frame.uploads.len(), 1);
    assert_eq!(frame.uploads[0].id, 1);
    assert_eq!(frame.uploads[0].format, TextureFormat::R8);
    assert_eq!(&frame.uploads[0].bytes[..2], &[7, 8]);
    assert!(matches!(
        frame.commands[1],
        GpuCommand::GlyphRun { texture_id: 1, .. }
    ));
    assert_eq!(frame.output.damage[0].width, 30);
    assert!(!atlas.dirty());

    let Ok(FrameStart::Reused(again)) = start_gpu_frame(&mut retained, blank(30)) else {
        panic!("nothing changed");
    };
    assert!(again.commands.is_empty() && again.uploads.is_empty());
    assert!(again.retired_textures.is_empty());
    assert!(again.reuses_previous);
    assert!(!again.paint_changed);
    assert_eq!(again.output.focused, Some(5));
    assert_eq!(again.output.scrolling, [9]);
    assert_eq!(again.output.damage, frame.output.damage);
    assert!(retained.as_ref().unwrap().output.is_some());

    // A changed atlas replaces the published one.
    let Ok(FrameStart::Paint(paint)) = start_gpu_frame(&mut retained, blank(31)) else {
        panic!("the size changed");
    };
    let key = AtlasKey::Terminal {
        bold: true,
        glyph: 1,
    };
    atlas.insert(key, 1, 1, &[9]).unwrap();
    let replaced = finish_gpu_frame(
        paint,
        painted(true),
        blank(31),
        &mut retained,
        &mut textures,
        &mut atlas,
    )
    .ok()
    .unwrap();
    assert_eq!(replaced.retired_textures, [1]);
    assert_eq!(textures.text, Some(2));
    let partial = finish_gpu_frame(
        GpuPaint::Partial(rect(1, 2, 3, 4)),
        painted(true),
        blank(31),
        &mut retained,
        &mut textures,
        &mut atlas,
    )
    .ok()
    .unwrap();
    assert!(partial.reuses_previous && partial.paint_changed);
    assert!(partial.uploads.is_empty() && partial.retired_textures.is_empty());
    assert!(matches!(
        partial.commands[1],
        GpuCommand::GlyphRun { texture_id: 2, .. }
    ));
}

#[test]
fn frames_fail_without_output_atlas_or_identity() {
    let mut retained = Some(blank(30));
    assert!(matches!(
        start_gpu_frame(&mut retained, blank(30)),
        Err(FrameError::OutputGone)
    ));
    let mut textures = Textures::new();
    let mut atlas = GlyphAtlas::new();
    let full = GpuPaint::Full(rect(0, 0, 30, 20));
    let textless = finish_gpu_frame(
        full,
        painted(true),
        blank(30),
        &mut retained,
        &mut textures,
        &mut atlas,
    );
    assert!(matches!(textless, Err(FrameError::NoTextAtlas)));
    assert!(retained.as_ref().unwrap().output.is_some());
    let plain = finish_gpu_frame(
        full,
        painted(false),
        blank(30),
        &mut retained,
        &mut textures,
        &mut atlas,
    );
    assert!(plain.is_ok());
    textures.next = u32::MAX;
    let key = AtlasKey::Terminal {
        bold: false,
        glyph: 1,
    };
    atlas.insert(key, 2, 1, &[7, 8]).unwrap();
    let exhausted = finish_gpu_frame(
        full,
        painted(true),
        blank(30),
        &mut retained,
        &mut textures,
        &mut atlas,
    );
    assert!(matches!(exhausted, Err(FrameError::TexturesExhausted)));
    assert!(atlas.upload().is_none());
}

#[test]
fn frames_answer_the_configuration_of_their_surface() {
    assert_eq!(configuration_serial(0, 4, 9), 4);
    assert_eq!(configuration_serial(7, 4, 9), 9);
}

#[test]
fn painted_regions_lead_to_their_roots() {
    let (outer, inner, chrome, button) = (node(1, "div"), node(2, "div"), node(3, "div"), node(4, "button"));
    let plain = style(&[]);
    let fixed = style(&[("position", "fixed")]);
    let area = rect(0, 0, 20, 20);
    let mut held = leaf(&chrome, &fixed, area);
    held.children.push(leaf(&button, &plain, area));
    let mut middle = leaf(&inner, &plain, area);
    middle.children.push(held);
    let mut root = leaf(&outer, &plain, area);
    root.children.push(middle);
    let (_, output) = walk_scene(&vec![root], None);
    let hits: Vec<HitRegion> = output.hits.into_iter().map(|hit| hit.region).collect();
    let parents: Vec<_> = hits.iter().map(|hit| (hit.node_id, hit.parent_node_id)).collect();
    // Fixed chrome is painted last, and its tree starts with itself.
    assert_eq!(parents, [(1, None), (2, Some(1)), (3, None), (4, Some(3))]);
    assert!(is_rooted(&hits));
}
