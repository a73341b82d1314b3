use lite_runtime::layout::lower::{lower, Align, Direction, DisplayMode, Justify, Wrap};
use lite_runtime::layout::numeral::is_numeral;
use lite_runtime::layout::{
    background_url, border_widths, corner_radii, dimension, edge_values, first_number, length_auto,
    margin_edges, margin_value, number, Length,
};
use lite_runtime::overflow::OverflowMode;
use lite_runtime::style::Computed;
use lite_runtime::tree::Node;
use taffy::{
    AvailableSpace, BoxSizing, Dimension, LengthPercentage, Size, Style, TaffyTree,
};

fn node(kind: &str) -> Node {
    Node {
        id: 1,
        kind: kind.to_owned(),
        props: Vec::new(),
        text: String::new(),
        children: Vec::new(),
    }
}

fn span(text: &str) -> Node {
    let mut leaf = node("#text");
    leaf.text = text.to_owned();
    let mut span = node("span");
    span.children.push(leaf);
    span
}

fn style(entries: &[(&str, &str)]) -> Computed {
    let mut computed = Computed::default();
    for (name, value) in entries {
        computed.set(name, value);
    }
    computed
}

fn px(length: Length<'_>) -> Option<f32> {
    match length {
        Length::Px(text) => Some(text.parse().unwrap()),
        Length::Zero => Some(0.0),
        _ => None,
    }
}

fn percent(length: Length<'_>) -> Option<f32> {
    match length {
        Length::Percent(text) => Some(text.parse::<f32>().unwrap() / 100.0),
        _ => None,
    }
}

#[test]
fn numerals_are_what_floats_parse_from() {
    for text in [
        "0", "1", "12.", ".5", "1.5", "-3", "+4", "1e3", "1E-3", "2.5e+10", "inf", "-Infinity",
        "NaN", "", ".", "+", "e5", "1e", "1e+", "1.2.3", " 1", "1 ", "1px", "0x10", "infinit",
        "--1", "1_000", "٣",
    ] {
        assert_eq!(is_numeral(text), text.parse::<f32>().is_ok(), "{text}");
    }
}

#[test]
fn numbers_lose_their_unit() {
    assert_eq!(number(" 12px "), Some("12"));
    assert_eq!(number("12 px"), None);
    assert_eq!(number("1.5"), Some("1.5"));
    assert_eq!(number("auto"), None);
    assert_eq!(first_number("solid 2px #000"), Some("2"));
    assert_eq!(first_number("solid"), None);
}

#[test]
fn expands_auto_and_percentage_in_standard_edge_order() {
    let edges = margin_edges("2px auto 4px 10%").expect("valid margin");
    assert_eq!(px(edges[0]), Some(2.0));
    assert!(matches!(edges[1], Length::Auto));
    assert_eq!(px(edges[2]), Some(4.0));
    assert_eq!(percent(edges[3]), Some(0.1));
}

#[test]
fn positioned_insets_accept_standard_percentages() {
    assert_eq!(percent(length_auto(Some("50%"))), Some(0.5));
    assert_eq!(percent(length_auto(Some("25%"))), Some(0.25));
}

#[test]
fn sizes_and_margins_are_read() {
    assert!(matches!(dimension("auto"), Some(Length::Auto)));
    assert_eq!(dimension(" 50 %").and_then(percent), Some(0.5));
    assert!(dimension("x%").is_none());
    assert!(dimension("wide").is_none());
    assert!(matches!(length_auto(None), Length::Auto));
    assert!(matches!(length_auto(Some("wide")), Length::Auto));
    assert_eq!(margin_value(" 3px ").and_then(px), Some(3.0));
    assert!(margin_edges("1px wide").is_none());
    assert!(margin_edges("").is_none());
    assert!(margin_edges("1 2 3 4 5").is_none());
    let three = margin_edges("1px 2px 3px").unwrap();
    assert_eq!(three.map(px), [Some(1.0), Some(2.0), Some(3.0), Some(2.0)]);
    let two = edge_values("8px nonsense 4px");
    assert_eq!(two.map(px), [Some(8.0), Some(4.0), Some(8.0), Some(4.0)]);
    assert!(matches!(edge_values("")[0], Length::Zero));
}

#[test]
fn side_longhands_reach_taffy_layout_edges() {
    let computed = style(&[
        ("padding", "1px"),
        ("padding-bottom", "4px"),
        ("margin", "2px"),
        ("margin-top", "5px"),
        ("border", "1px solid #000000"),
        ("border-right-width", "3px"),
        ("border-left-style", "none"),
    ]);
    let lowered = lower(&node("div"), &computed);
    assert_eq!(px(lowered.padding[0]), Some(1.0));
    assert_eq!(px(lowered.padding[2]), Some(4.0));
    assert_eq!(px(lowered.margin[0]), Some(5.0));
    assert_eq!(px(lowered.margin[1]), Some(2.0));
    assert_eq!(px(lowered.border[3]), Some(0.0));
    assert_eq!(px(lowered.border[1]), Some(3.0));
    assert_eq!(border_widths(&computed).map(px)[0], Some(1.0));
}

#[test]
fn overflow_auto_establishes_a_taffy_scroll_container() {
    let lowered_style = style(&[("overflow-y", "auto")]);
    let lowered = lower(&node("div"), &lowered_style);
    assert_eq!(lowered.overflow, (OverflowMode::Auto, OverflowMode::Auto));
}

#[test]
fn flex_wrap_keyword_maps_to_taffy_and_defaults_to_nowrap() {
    let wrap_of = |entries: &[(&str, &str)]| lower(&node("div"), &style(entries)).wrap;
    assert_eq!(wrap_of(&[("flex-wrap", "wrap")]), Wrap::Wrap);
    assert_eq!(wrap_of(&[("flex-wrap", "wrap-reverse")]), Wrap::WrapReverse);
    // Explicit `nowrap` and an absent property both stay single-line.
    assert_eq!(wrap_of(&[("flex-wrap", "nowrap")]), Wrap::NoWrap);
    assert_eq!(wrap_of(&[("display", "flex")]), Wrap::NoWrap);
}

#[test]
fn flex_shorthand_and_longhands_map_to_standard_taffy_components() {
    let flex_of = |entries: &[(&str, &str)]| {
        let computed = style(entries);
        let lowered = lower(&node("div"), &computed);
        let number = |text: Option<&str>| text.map(|text| text.parse::<f32>().unwrap());
        let basis = match lowered.flex_basis {
            Some(Length::Auto) => Dimension::auto(),
            Some(Length::Percent(text)) => {
                Dimension::percent(text.parse::<f32>().unwrap() / 100.0)
            }
            Some(Length::Px(text)) => Dimension::length(text.parse().unwrap()),
            _ => Dimension::auto(),
        };
        (number(lowered.flex_grow), number(lowered.flex_shrink), basis)
    };
    let none = flex_of(&[("flex-grow", "0"), ("flex-shrink", "0"), ("flex-basis", "auto")]);
    assert_eq!(none, (Some(0.0), Some(0.0), Dimension::auto()));
    let one = flex_of(&[("flex-grow", "2"), ("flex-shrink", "1"), ("flex-basis", "0%")]);
    assert_eq!(one, (Some(2.0), Some(1.0), Dimension::percent(0.0)));
    let overridden = flex_of(&[("flex-grow", "2"), ("flex-shrink", "0"), ("flex-basis", "24px")]);
    assert_eq!(overridden, (Some(2.0), Some(0.0), Dimension::length(24.0)));
}

#[test]
fn box_sizing_lowers_to_taffy_and_sizes_the_border_box() {
    let laid_out_width = |box_sizing: Option<&str>| {
        let mut entries = vec![
            ("width", "100px"),
            ("padding", "10px"),
            ("border", "2px solid #000"),
        ];
        if let Some(value) = box_sizing {
            entries.push(("box-sizing", value));
        }
        let computed = style(&entries);
        let lowered = lower(&node("div"), &computed);
        let edges = |sides: [Length<'_>; 4]| {
            let side = |index: usize| LengthPercentage::length(px(sides[index]).unwrap());
            taffy::Rect {
                top: side(0),
                right: side(1),
                bottom: side(2),
                left: side(3),
            }
        };
        let mut tree = TaffyTree::<()>::new();
        let id = tree
            .new_leaf(Style {
                box_sizing: if lowered.content_box {
                    BoxSizing::ContentBox
                } else {
                    BoxSizing::BorderBox
                },
                size: Size {
                    width: Dimension::length(lowered.width.and_then(px).unwrap()),
                    height: Dimension::auto(),
                },
                padding: edges(lowered.padding),
                border: edges(lowered.border),
                ..Style::default()
            })
            .expect("box node");
        tree.compute_layout(
            id,
            Size {
                width: AvailableSpace::Definite(200.0),
                height: AvailableSpace::Definite(200.0),
            },
        )
        .expect("box layout");
        tree.layout(id).expect("box layout").size.width
    };
    // The default stays border-box; an explicit content-box adds padding and
    // border around the 100px content.
    assert_eq!(laid_out_width(None), 100.0);
    assert_eq!(laid_out_width(Some("border-box")), 100.0);
    assert_eq!(laid_out_width(Some("content-box")), 124.0);
}

#[test]
fn preformatted_text_height_includes_every_line() {
    let computed = style(&[("white-space", "pre"), ("font-family", "monospace")]);
    let cells = lower(&span("one\ntwo\nthree"), &computed).cells.unwrap();
    assert_eq!(cells.breaks + 1, 3);
    assert_eq!(cells.columns, 5);
    let flowed = style(&[("font-family", "monospace")]);
    let cells = lower(&span("one\ntwo"), &flowed).cells.unwrap();
    assert_eq!((cells.columns, cells.breaks), (7, 0));
    assert!(lower(&span("shaped"), &style(&[])).cells.is_none());
    assert!(lower(&span(""), &computed).cells.is_none());
}

#[test]
fn keywords_reach_the_box() {
    let computed = style(&[
        ("display", "flex"),
        ("position", "fixed"),
        ("flex-direction", "column-reverse"),
        ("align-items", "stretch"),
        ("justify-content", "space-between"),
        ("width", "50%"),
        ("min-height", "10px"),
        ("gap", "4px"),
        ("flex-grow", "2"),
        ("flex-basis", "auto"),
        ("left", "3px"),
        ("border-radius", "8px 8px 0 0"),
    ]);
    let lowered = lower(&node("div"), &computed);
    assert_eq!(lowered.display, DisplayMode::Flex);
    assert!(lowered.absolute);
    assert_eq!(lowered.direction, Direction::ColumnReverse);
    assert_eq!(lowered.align_items, Some(Align::Stretch));
    assert_eq!(lowered.justify_content, Some(Justify::SpaceBetween));
    assert_eq!(lowered.width.and_then(percent), Some(0.5));
    assert!(lowered.height.is_none());
    assert_eq!(lowered.min_height.and_then(px), Some(10.0));
    assert_eq!(lowered.gap, Some("4"));
    assert_eq!(lowered.flex_grow, Some("2"));
    assert!(lowered.flex_shrink.is_none());
    assert!(matches!(lowered.flex_basis, Some(Length::Auto)));
    assert_eq!(px(lowered.inset[3]), Some(3.0));
    assert!(matches!(lowered.inset[0], Length::Auto));
    assert_eq!(
        corner_radii(&computed).map(px),
        [Some(8.0), Some(8.0), Some(0.0), Some(0.0)]
    );
    assert_eq!(
        lower(&node("div"), &style(&[("display", "none")])).display,
        DisplayMode::Hidden
    );
}

#[test]
fn background_urls_lose_their_quotes() {
    assert_eq!(background_url("url(assets/x.png)"), Some("assets/x.png"));
    assert_eq!(background_url(" url( \"a b.png\" ) "), Some("a b.png"));
    assert_eq!(background_url("url('x')"), Some("x"));
    assert_eq!(background_url("url(\"x')"), Some("\"x'"));
    assert_eq!(background_url("url()"), Some(""));
    assert_eq!(background_url("linear-gradient(red, blue)"), None);
    assert_eq!(background_url("url(x"), None);
}

#[test]
fn styles_remember_the_last_value() {
    let mut computed = style(&[("color", "red"), ("left", "1px")]);
    computed.set("color", "blue");
    assert_eq!(computed.get("color"), Some("blue"));
    assert_eq!(computed.get("top"), None);
    let copy = computed.copied();
    assert!(copy.same_as(&computed));
    computed.set("left", "2px");
    assert!(!copy.same_as(&computed));
    assert!(copy.differs_only_in(&computed, &["left"]));
    assert!(!copy.differs_only_in(&computed, &["color"]));
    computed.set("opacity", "0.5");
    assert!(!computed.differs_only_in(&copy, &["left"]));
}
