use lite_runtime::border::{
    border_style, gpu_border, side_widths, BorderStyle, SidePaint,
};
use lite_runtime::color::{parse, premultiply, Hsl, HueUnit};
use lite_runtime::gpu_list::GpuCommand;
use lite_runtime::gradient::{
    is_direction, keyword_degrees, parse_arguments, parse_direction, parse_fill, parse_stop,
    resolve_positions, split_top_level, Angle, Fill, FillSyntax, Gradient, Placement, StopPosition,
};
use lite_runtime::image::{
    background_position, background_repeat, background_size, position_offset, ImageRepeat,
    TileOffset, TileSize,
};
use lite_runtime::layout::Length;
use lite_runtime::paint::fill::{gpu_fill, gpu_shadows, paint_border, GradientLine};
use lite_runtime::range::{string_value, RangeInput, Stated, Step};
use lite_runtime::rect::Rect;
use lite_runtime::renderer::{blur_radius, color_or, computed_color, css_opacity, image_sampling};
use lite_runtime::scene::CornerRadius;
use lite_runtime::rect::PhysicalRect;
use lite_runtime::shadow::{
    effect_bounds, outer_shadows, parse_box_shadows, parse_text_shadows, split_css_tokens, Shadow,
};
use lite_runtime::style::Computed;
use lite_runtime::transform::translation;
use lite_runtime::tree::{Prop, PropValue};

fn hsl_to_rgb(color: Hsl) -> (u8, u8, u8) {
    let value = f32::from_bits(color.hue);
    let hue = match color.unit {
        HueUnit::Degrees => value,
        HueUnit::Gradians => value * 0.9,
        HueUnit::Radians => value.to_degrees(),
        HueUnit::Turns => value * 360.0,
    };
    let saturation = f32::from_bits(color.saturation).clamp(0.0, 1.0);
    let lightness = f32::from_bits(color.lightness).clamp(0.0, 1.0);
    let hue = hue.rem_euclid(360.0) / 360.0;
    let chroma = (1.0 - (2.0 * lightness - 1.0).abs()) * saturation;
    let segment = hue * 6.0;
    let x = chroma * (1.0 - (segment % 2.0 - 1.0).abs());
    let (red, green, blue) = match segment as u32 {
        0 => (chroma, x, 0.0),
        1 => (x, chroma, 0.0),
        2 => (0.0, chroma, x),
        3 => (0.0, x, chroma),
        4 => (x, 0.0, chroma),
        _ => (chroma, 0.0, x),
    };
    let offset = lightness - chroma / 2.0;
    let channel = |value: f32| ((value + offset) * 255.0).round().clamp(0.0, 255.0) as u8;
    (channel(red), channel(green), channel(blue))
}

fn color(value: &str) -> Option<u32> {
    parse(value, &hsl_to_rgb)
}

#[test]
fn hex_forms_parse() {
    assert_eq!(color("#1357b5"), Some(0xff13_57b5));
    assert_eq!(color("#fff"), Some(0xffff_ffff));
    assert_eq!(color("#ff000080"), Some(0x8080_0000));
    // Short hex duplicates each nibble: alpha 0x8 becomes 0x88.
    assert_eq!(color("#f008"), Some(0x8888_0000));
}

#[test]
fn rgb_forms_parse() {
    assert_eq!(color("rgb(19, 87, 181)"), Some(0xff13_57b5));
    assert_eq!(color("rgb(19 87 181)"), Some(0xff13_57b5));
    assert_eq!(color("rgb(100% 0% 0%)"), Some(0xffff_0000));
    // 50% white premultiplied: alpha 0x80, each channel 255*128/255 = 128.
    assert_eq!(color("rgba(255,255,255,0.5)"), Some(0x8080_8080));
    assert_eq!(color("rgb(255 255 255 / 50%)"), Some(0x8080_8080));
    assert_eq!(color("rgba(10, 20, 30, 0)"), Some(0));
    // Out-of-range channels clamp instead of wrapping.
    assert_eq!(color("rgb(300, -5, 0)"), Some(0xffff_0000));
}

#[test]
fn hsl_forms_parse() {
    assert_eq!(color("hsl(120, 100%, 50%)"), Some(0xff00_ff00));
    assert_eq!(color("hsl(0 100% 50%)"), Some(0xffff_0000));
    assert_eq!(color("hsl(240deg 100% 50% / 0.5)"), Some(0x8000_0080));
    assert_eq!(color("hsl(0.5turn, 100%, 50%)"), Some(0xff00_ffff));
    // Hue wraps around the circle.
    assert_eq!(color("hsl(480, 100%, 50%)"), Some(0xff00_ff00));
}

#[test]
fn named_colors_and_transparent_parse() {
    assert_eq!(color("teal"), Some(0xff00_8080));
    assert_eq!(color("rebeccapurple"), Some(0xff66_3399));
    assert_eq!(color("aliceblue"), Some(0xfff0_f8ff));
    assert_eq!(color("transparent"), Some(0));
}

#[test]
fn rejects_malformed_colors() {
    assert_eq!(color("#12"), None);
    assert_eq!(color("rgb(1,2)"), None);
    assert_eq!(color("rgba(1,2,3,4,5)"), None);
    assert_eq!(color("rgb(1, 2 3)"), None);
    assert_eq!(color("hsl(10%, 100%, 50%)"), None);
    assert_eq!(color("currentcolor"), None);
    assert_eq!(color("not-a-color"), None);
    assert_eq!(color("#fff trailing"), None);
    assert_eq!(color(""), None);
}

#[test]
fn function_names_and_units_ignore_case() {
    assert_eq!(color("RGB(1,2,3)"), Some(0xff01_0203));
    assert_eq!(color("HSL(0.5TURN, 100%, 50%)"), Some(0xff00_ffff));
    assert_eq!(color("TRANSPARENT"), Some(0));
    assert_eq!(color("hsl(100grad 100% 50%)"), color("hsl(90 100% 50%)"));
    assert_eq!(color("hwb(0 0% 0%)"), None);
    assert_eq!(color("rgb(1 2 3 / 0.5, 4)"), None);
}

#[test]
fn premultiplied_channels_never_exceed_alpha() {
    for alpha in [0u8, 1, 127, 254, 255] {
        let packed = premultiply(255, 128, 3, alpha);
        assert_eq!(packed >> 24, u32::from(alpha));
        assert!((packed >> 16) & 0xff <= u32::from(alpha));
    }
    assert_eq!(premultiply(1, 2, 3, 255), 0xff01_0203);
    assert_eq!(premultiply(255, 255, 255, 128), 0x8080_8080);
}

#[test]
fn split_top_level_preserves_color_functions() {
    let parts = split_top_level("to right, rgba(0, 0, 0, 0.5), #fff", ',');
    assert_eq!(parts, vec!["to right", " rgba(0, 0, 0, 0.5)", " #fff"]);
}

#[test]
fn split_pieces_join_to_the_text() {
    let value = ",a(b,c),,d";
    let parts = split_top_level(value, ',');
    assert_eq!(parts, vec!["", "a(b,c)", "", "d"]);
    assert_eq!(parts.join(","), value);
}

#[test]
fn gradient_directions_are_keywords_or_angles() {
    assert_eq!(keyword_degrees("to top"), Some(0));
    assert_eq!(keyword_degrees("to right"), Some(90));
    assert_eq!(keyword_degrees("to bottom"), Some(180));
    assert_eq!(keyword_degrees("to left"), Some(270));
    assert_eq!(keyword_degrees("to top right"), Some(45));
    assert_eq!(keyword_degrees("to left bottom"), Some(225));
    assert_eq!(keyword_degrees("90deg"), None);
    assert!(is_direction("90deg"));
    assert!(!is_direction("#fff"));
}

#[test]
fn gradient_arguments_keep_every_stop() {
    let gradient = parse_arguments(
        "to bottom, #1f2f86 0, #3165c4 3%, #3682e5 6%, #4490e6 10%, #3883e5 12%, \
         #2b71e0 15%, #2663da 18%, #235bd6 20%, #2258d5 23%, #2157d6 38%, #245ddb 54%, \
         #2562df 86%, #245fdc 89%, #2158d4 92%, #1d4ec0 95%, #1941a5 98%",
    )
    .expect("long gradient");
    assert_eq!(gradient.direction, Some("to bottom"));
    assert_eq!(gradient.stops.len(), 16);
    assert_eq!(gradient.stops[0].color, "#1f2f86");
    assert_eq!(gradient.stops[15].color, "#1941a5");
    assert!(parse_arguments("#000000, #ffffff").unwrap().direction.is_none());
    let stop = parse_stop("#1f2f86 0");
    assert_eq!(stop.color, "#1f2f86");
    assert!(matches!(stop.position, StopPosition::Zero));
}

#[test]
fn fills_are_gradients_or_solid() {
    assert!(matches!(
        parse_fill("linear-gradient(to right, #000, #fff)"),
        FillSyntax::Gradient(_)
    ));
    assert!(matches!(parse_fill("#123456"), FillSyntax::Solid(_)));
}

fn length(text: &str) -> (u32, bool) {
    let value: f32 = text.parse().unwrap();
    (value.to_bits(), value < 0.0)
}

fn shadows(value: &str, current: u32, box_shadow: bool) -> Vec<Shadow> {
    if box_shadow {
        parse_box_shadows(value, current, &hsl_to_rgb, &length)
    } else {
        parse_text_shadows(value, current, &hsl_to_rgb, &length)
    }
}

#[test]
fn parses_multiple_shadow_layers() {
    let shadows = shadows(
        "0 2px 8px #80000000, inset 0 0 2px #ff112233",
        0xff00_0000,
        true,
    );
    assert_eq!(shadows.len(), 2);
    assert!(!shadows[0].inset);
    assert!(shadows[1].inset);
}

#[test]
fn text_shadow_defaults_to_current_color_and_rejects_spread() {
    let parsed = shadows("1px 2px 3px", 0xff12_3456, false);
    assert_eq!(parsed[0].color, 0xff12_3456);
    assert!(shadows("1px 2px 3px 4px", 0xff00_0000, false).is_empty());
}

#[test]
fn shadow_layers_are_dropped_alone() {
    let parsed = shadows(
        "1px 1px bogus, 3px 4px rgba(0, 0, 0, 0.5), 1px 2px -3px, 5px",
        0xff00_0000,
        true,
    );
    assert_eq!(parsed.len(), 1);
    assert_eq!(f32::from_bits(parsed[0].dx), 3.0);
    assert_eq!(f32::from_bits(parsed[0].dy), 4.0);
    assert_eq!(parsed[0].color, 0x8000_0000);
    let current = shadows("#fff 1px 1px currentcolor", 0xff01_0203, true);
    assert_eq!(current[0].color, 0xff01_0203);
    assert!(shadows("inset 1px 1px", 0, false).is_empty());
}

#[test]
fn css_tokens_keep_parentheses_together() {
    assert_eq!(
        split_css_tokens(" 0  2px rgba(0, 0, 0, 0.5) "),
        ["0", "2px", "rgba(0, 0, 0, 0.5)"]
    );
    assert!(split_css_tokens("   ").is_empty());
}

#[test]
fn border_sides_take_their_own_color_and_style() {
    let mut computed = Computed::default();
    computed.set("border", "1px solid #112233");
    computed.set("border-top-color", "#ff0000");
    computed.set("border-left-style", "dashed");
    let sides = gpu_border(&computed, [true, true, false, true], &hsl_to_rgb);
    assert_eq!(sides[0].unwrap().color, 0xffff_0000);
    assert_eq!(sides[1].unwrap().color, 0xff11_2233);
    assert!(sides[2].is_none());
    assert_eq!(sides[3].unwrap().style, BorderStyle::Dashed);
    assert_eq!(border_style("1px dotted red"), Some(BorderStyle::Dotted));
    assert_eq!(border_style("1px red"), None);
}

#[test]
fn painted_widths_do_not_depend_on_the_style() {
    let mut computed = Computed::default();
    assert_eq!(side_widths(&computed), [None; 4]);
    computed.set("border", "1px solid #112233");
    assert_eq!(side_widths(&computed), [Some("1"); 4]);
    computed.set("border-width", "2px");
    computed.set("border-top", "3px dashed #ff0000");
    computed.set("border-left-width", "4px");
    assert_eq!(side_widths(&computed), [Some("3"), Some("2"), Some("2"), Some("4")]);
    // A side's shorthand is visible though the sides have no style in common.
    let mut computed = Computed::default();
    computed.set("border-style", "none");
    computed.set("border-top", "3px solid #ff0000");
    let widths = side_widths(&computed);
    assert_eq!(widths, [Some("3"), None, None, None]);
    let sides = gpu_border(&computed, widths.map(|width| width.is_some()), &hsl_to_rgb);
    assert_eq!(
        sides[0],
        Some(SidePaint {
            color: 0xffff_0000,
            style: BorderStyle::Solid
        })
    );
    assert_eq!(sides[1], None);
}

#[test]
fn small_style_decisions() {
    let mut computed = Computed::default();
    assert_eq!(computed_color(&computed, &hsl_to_rgb), 0xff00_0000);
    computed.set("color", "#010203");
    assert_eq!(computed_color(&computed, &hsl_to_rgb), 0xff01_0203);
    computed.set("accent-color", "nonsense");
    assert_eq!(color_or(&computed, "accent-color", 7, &hsl_to_rgb), 7);
    assert_eq!(
        image_sampling(&computed),
        lite_runtime::gpu_list::ImageSampling::Linear
    );
    computed.set("image-rendering", "pixelated");
    assert_eq!(
        image_sampling(&computed),
        lite_runtime::gpu_list::ImageSampling::Nearest
    );
    assert_eq!(blur_radius(" blur(12px) "), Some("12"));
    assert_eq!(blur_radius("blur()"), None);
    assert_eq!(blur_radius("saturate(2)"), None);
}

fn degrees(angle: &Angle<'_>) -> f32 {
    match angle {
        Angle::Degrees(degrees) => f32::from(*degrees),
        Angle::Number(text) => text.parse().unwrap(),
    }
}

fn positions(stated: &[Option<f32>]) -> Vec<f32> {
    let flags = stated.iter().map(Option::is_some).collect::<Vec<_>>();
    let anchors = resolve_positions(&flags)
        .iter()
        .zip(stated)
        .map(|(place, position)| match place {
            Placement::Stated => *position,
            Placement::Start => Some(0.0),
            Placement::End => Some(1.0),
            Placement::Between { .. } => None,
        })
        .collect::<Vec<_>>();
    let mut least = 0.0f32;
    resolve_positions(&flags)
        .iter()
        .enumerate()
        .map(|(index, place)| {
            let position = match place {
                Placement::Between { before, after } => {
                    let (from, to) = (anchors[*before].unwrap(), anchors[*after].unwrap());
                    let span = (after - before) as f32;
                    from + (to - from) * (index - before) as f32 / span
                }
                _ => anchors[index].unwrap(),
            };
            least = position.max(least);
            least
        })
        .collect()
}

fn stops(gradient: &Gradient<'_>) -> Vec<(u32, f32)> {
    let stated = gradient
        .stops
        .iter()
        .map(|stop| match stop.position {
            StopPosition::Missing => None,
            StopPosition::Zero => Some(0.0),
            StopPosition::Percent(text) => {
                Some((text.parse::<f32>().unwrap() / 100.0).clamp(0.0, 1.0))
            }
        })
        .collect::<Vec<_>>();
    let colors = gradient.stops.iter().map(|stop| stop.color);
    colors.zip(positions(&stated)).collect()
}

fn gradient(arguments: &str) -> Option<(f32, Vec<(u32, f32)>)> {
    let gradient = Gradient::parse(arguments, &hsl_to_rgb)?;
    Some((degrees(&gradient.angle), stops(&gradient)))
}

#[test]
fn vertical_gradient_defaults_to_bottom() {
    let (angle, stops) = gradient("#000000, #ffffff").expect("gradient parses");
    assert_eq!(angle, 180.0);
    assert_eq!(stops, vec![(0xff00_0000, 0.0), (0xffff_ffff, 1.0)]);
}

#[test]
fn direction_keywords_and_angles_resolve_to_css_degrees() {
    let parse_direction = |text: &str| parse_direction(text).map(|angle| degrees(&angle));
    assert_eq!(parse_direction("to top"), Some(0.0));
    assert_eq!(parse_direction("to right"), Some(90.0));
    assert_eq!(parse_direction("to bottom"), Some(180.0));
    assert_eq!(parse_direction("to left"), Some(270.0));
    assert_eq!(parse_direction("to top right"), Some(45.0));
    assert_eq!(parse_direction("to left bottom"), Some(225.0));
    assert_eq!(parse_direction("90deg"), Some(90.0));
    assert_eq!(parse_direction("270deg"), Some(270.0));
    assert_eq!(parse_direction("to nowhere"), None);
    assert_eq!(
        gradient("to right, #000000, #ffffff").expect("gradient parses").0,
        90.0
    );
}

#[test]
fn explicit_stops_control_midpoint() {
    // Black holds until 25%, so the 0..0.25 span is a solid ramp to white.
    let (_, stops) = gradient("#000000 0%, #000000 25%, #ffffff 100%").expect("gradient parses");
    assert_eq!(stops[1], (0xff00_0000, 0.25));
    assert_eq!(stops[2], (0xffff_ffff, 1.0));
}

#[test]
fn interior_stops_distribute_evenly() {
    let positions = positions(&[Some(0.0), None, None, Some(1.0)]);
    assert_eq!(positions, vec![0.0, 1.0 / 3.0, 2.0 / 3.0, 1.0]);
}

#[test]
fn decreasing_explicit_stops_clamp_to_the_previous_position() {
    let (_, stops) = gradient("#000000 70%, #ffffff 30%, #ff0000").expect("gradient");
    assert_eq!(stops[0].1, 0.7);
    assert_eq!(stops[1].1, 0.7);
    assert_eq!(stops[2].1, 1.0);
}

#[test]
fn bare_zero_stop_is_zero_percent() {
    let gradient = Gradient::parse("#1f2f86 0", &hsl_to_rgb).expect("one stop");
    assert_eq!(gradient.stops[0].color, 0xff1f_2f86);
    assert!(matches!(gradient.stops[0].position, StopPosition::Zero));
}

#[test]
fn long_gradient_parses_all_stops() {
    // A long authored gradient must preserve every stop and resolve both
    // endpoints to the first and last colors.
    let (_, stops) = gradient(
        "to bottom, #1f2f86 0, #3165c4 3%, #3682e5 6%, #4490e6 10%, #3883e5 12%, \
         #2b71e0 15%, #2663da 18%, #235bd6 20%, #2258d5 23%, #2157d6 38%, #245ddb 54%, \
         #2562df 86%, #245fdc 89%, #2158d4 92%, #1d4ec0 95%, #1941a5 98%",
    )
    .expect("long gradient parses");
    assert_eq!(stops.len(), 16);
    assert_eq!(stops.first(), Some(&(0xff1f_2f86, 0.0)));
    assert_eq!(stops.last(), Some(&(0xff19_41a5, 0.98)));
}

#[test]
fn unreadable_gradients_are_refused() {
    assert!(gradient("to nowhere, #000, #fff").is_none());
    assert!(gradient("90deg").is_none());
    assert!(gradient("#000, bogus").is_none());
    assert!(gradient("#000 x%, #fff").is_none());
    assert!(gradient("").is_none());
    assert_eq!(
        resolve_positions(&vec![false, false, true, false, false]),
        [
            Placement::Start,
            Placement::Between { before: 0, after: 2 },
            Placement::Stated,
            Placement::Between { before: 2, after: 4 },
            Placement::End,
        ]
    );
    assert_eq!(resolve_positions(&vec![false]), [Placement::Start]);
}

#[test]
fn fills_are_painted_once() {
    let rect = Rect {
        x: 1,
        y: 2,
        width: 3,
        height: 4,
    };
    let radii = [CornerRadius { x: 0, y: 0 }; 4];
    let mut commands = Vec::new();
    let none = GradientLine {
        start: [0; 2],
        end: [0; 2],
        positions: Vec::new(),
    };
    for value in ["transparent", "bogus", "#123456"] {
        gpu_fill(
            &mut commands,
            rect,
            radii,
            &Fill::parse(value, &hsl_to_rgb),
            &none,
        );
    }
    let line = GradientLine {
        start: [1, 2],
        end: [3, 4],
        positions: vec![5, 6],
    };
    let fill = Fill::parse(" linear-gradient(#000, #fff) ", &hsl_to_rgb);
    gpu_fill(&mut commands, rect, radii, &fill, &line);
    assert_eq!(commands.len(), 2);
    assert!(matches!(
        commands[0],
        GpuCommand::SolidRect {
            color: 0xff12_3456,
            ..
        }
    ));
    let GpuCommand::LinearGradient { stops, .. } = &commands[1] else {
        panic!("a gradient is painted");
    };
    assert_eq!(
        stops
            .iter()
            .map(|stop| (stop.color, stop.position))
            .collect::<Vec<_>>(),
        [(0xff00_0000, 5), (0xffff_ffff, 6)]
    );
}

#[test]
fn retained_bounds_include_outer_shadow_coverage() {
    let shadows = shadows("0 0 8px #ff000000, inset 0 0 40px #000", 0xff00_0000, true);
    let bounds = PhysicalRect {
        x1: 100,
        y1: 100,
        x2: 120,
        y2: 120,
    };
    let outer = outer_shadows(&shadows);
    assert_eq!(outer.len(), 1);
    // A blur reaches one and a half times its physical radius.
    let reach = (f32::from_bits(outer[0].blur) * 2.0 * 1.5) as usize;
    let expanded = PhysicalRect {
        x1: bounds.x1 - reach,
        y1: bounds.y1 - reach,
        x2: bounds.x2 + reach,
        y2: bounds.y2 + reach,
    };
    assert_eq!(
        effect_bounds(bounds, &vec![expanded]),
        PhysicalRect {
            x1: 76,
            y1: 76,
            x2: 144,
            y2: 144,
        }
    );
    assert_eq!(effect_bounds(bounds, &Vec::new()), bounds);
}

#[test]
fn translation_accepts_axis_and_pair_functions() {
    let resolve = |style: &Computed, size: (f32, f32)| {
        let distance = |length: Length<'_>, reference: f32| match length {
            Length::Percent(text) => text.parse::<f32>().unwrap() * reference / 100.0,
            Length::Px(text) => text.parse().unwrap(),
            _ => 0.0,
        };
        let (x, y) = translation(style);
        (distance(x, size.0), distance(y, size.1))
    };
    let mut style = Computed::default();
    assert_eq!(resolve(&style, (200.0, 80.0)), (0.0, 0.0));
    style.set("transform", "translateX(12px)");
    assert_eq!(resolve(&style, (200.0, 80.0)), (12.0, 0.0));
    style.set("transform", "translate(-3px, 4px)");
    assert_eq!(resolve(&style, (200.0, 80.0)), (-3.0, 4.0));
    style.set("transform", "translate(-50%, 25%)");
    assert_eq!(resolve(&style, (200.0, 80.0)), (-100.0, 20.0));
    style.set("transform", "translateY( 2px )");
    assert_eq!(resolve(&style, (200.0, 80.0)), (0.0, 2.0));
    style.set("transform", "translate(7px)");
    assert_eq!(resolve(&style, (200.0, 80.0)), (7.0, 0.0));
    for ignored in ["none", "rotate(45deg)", "translate(1em, 2)", "translateX(3px"] {
        style.set("transform", ignored);
        assert_eq!(resolve(&style, (200.0, 80.0)), (0.0, 0.0));
    }
}

#[test]
fn background_images_are_sized_placed_and_repeated() {
    let mut style = Computed::default();
    assert!(matches!(background_size(&style), TileSize::Axes(None, None)));
    assert_eq!(background_repeat(&style), ImageRepeat::Repeat);
    style.set("background-size", "cover");
    assert!(matches!(background_size(&style), TileSize::Cover));
    style.set("background-size", "contain");
    assert!(matches!(background_size(&style), TileSize::Contain));
    style.set("background-size", "25% auto");
    assert!(matches!(
        background_size(&style),
        TileSize::Axes(Some(Length::Percent("25")), None)
    ));
    style.set("background-size", "10px 20");
    assert!(matches!(
        background_size(&style),
        TileSize::Axes(Some(Length::Px("10")), Some(Length::Px("20")))
    ));
    style.set("background-position", "center top");
    let (x, y) = background_position(&style);
    assert!(matches!(position_offset(x), TileOffset::Center));
    assert!(matches!(position_offset(y), TileOffset::Start));
    style.set("background-position", "bottom");
    let (x, y) = background_position(&style);
    assert!(matches!(position_offset(x), TileOffset::Center));
    assert!(matches!(position_offset(y), TileOffset::End));
    assert!(matches!(position_offset(Some("30%")), TileOffset::Percent("30")));
    assert!(matches!(position_offset(Some("4px")), TileOffset::Px("4")));
    assert!(matches!(position_offset(Some("auto")), TileOffset::Start));
    for (value, repeat) in [
        ("repeat-x", ImageRepeat::RepeatX),
        ("repeat-y", ImageRepeat::RepeatY),
        ("no-repeat", ImageRepeat::NoRepeat),
        ("repeat no-repeat", ImageRepeat::RepeatX),
        ("space", ImageRepeat::Repeat),
    ] {
        style.set("background-repeat", value);
        assert_eq!(background_repeat(&style), repeat);
    }
    assert_eq!(css_opacity(&style), None);
    style.set("opacity", " 0.5 ");
    assert_eq!(css_opacity(&style), Some("0.5"));
    style.set("opacity", "half");
    assert_eq!(css_opacity(&style), None);
}

fn prop(name: &str, value: PropValue) -> Prop {
    Prop {
        name: name.to_owned(),
        value,
    }
}

#[test]
fn range_properties_are_read() {
    let mut props = vec![
        prop("max", PropValue::Text(" 10.5 ".to_owned())),
        prop("min", PropValue::Other("-2.5".to_owned())),
        prop("step", PropValue::Text("any".to_owned())),
        prop("type", PropValue::Text("range".to_owned())),
        prop("value", PropValue::Number(5)),
    ];
    let range = RangeInput::from_props(&props, Some(7)).expect("a range");
    assert!(matches!(range.min, Some(Stated::Numeral("-2.5"))));
    assert!(matches!(range.max, Some(Stated::Numeral("10.5"))));
    assert!(matches!(range.value, Some(Stated::Integer(5))));
    assert!(matches!(range.step, Step::Any));
    assert_eq!(range.on_input, Some(7));
    assert!(!range.disabled);
    props[2].value = PropValue::Text("wide".to_owned());
    let range = RangeInput::from_props(&props, None).expect("a range");
    assert!(matches!(range.step, Step::By(None)));
    props[3].value = PropValue::Text("text".to_owned());
    assert!(RangeInput::from_props(&props, None).is_none());
}

#[test]
fn range_values_are_written_shortest() {
    let text = |value: f64| string_value(&format!("{value:.6}"));
    assert_eq!(text(51.0), "51");
    assert_eq!(text(100.0), "100");
    assert_eq!(text(0.5), "0.5");
    assert_eq!(text(1.25), "1.25");
    assert_eq!(text(0.0), "0");
    assert_eq!(text(-0.0000001), "0");
}

#[test]
fn shadows_and_borders_become_commands() {
    let rect = Rect {
        x: 0,
        y: 0,
        width: 8,
        height: 8,
    };
    let radii = [CornerRadius { x: 0, y: 0 }; 4];
    let layers = shadows("1px 1px #111, inset 2px 2px #222, 3px 3px #333", 0, true);
    let mut commands = Vec::new();
    gpu_shadows(&mut commands, rect, radii, &layers, false);
    gpu_shadows(&mut commands, rect, radii, &layers, true);
    let colors = commands
        .iter()
        .map(|command| match command {
            GpuCommand::BoxShadow { color, inset, .. } => (*color, *inset),
            _ => (0, false),
        })
        .collect::<Vec<_>>();
    assert_eq!(
        colors,
        [
            (0xff33_3333, false),
            (0xff11_1111, false),
            (0xff22_2222, true)
        ]
    );
    let side = SidePaint {
        color: 7,
        style: BorderStyle::Dotted,
    };
    commands.clear();
    paint_border(&mut commands, rect, radii, [None; 4], [1; 4]);
    assert!(commands.is_empty());
    paint_border(
        &mut commands,
        rect,
        radii,
        [None, Some(side), None, None],
        [1, 2, 3, 4],
    );
    let [GpuCommand::Border {
        widths,
        colors,
        styles,
        ..
    }] = commands.as_slice()
    else {
        panic!("one border is painted");
    };
    assert_eq!(widths, &[0, 2, 0, 0]);
    assert_eq!(colors, &[0, 7, 0, 0]);
    assert_eq!(styles[1], BorderStyle::Dotted);
    assert_eq!(styles[0], BorderStyle::Absent);
}
