//! Text layout policy around the shaping engine.

pub mod gpu;
pub mod raster;

use vstd::prelude::*;
use vstd::string::*;
use crate::lru::{added, holds_id, replaced, touched, CacheKey, Entry, Lru};
use crate::style::{value_of, Computed};
use crate::layout::numeral::{is_numeral, numeral};
use crate::layout::{before_percent, strip_percent};
use crate::text::{chars_of, occurs_at, same, string_of, strip_suffix, trim, trimmed};

verus! {

/// Layout-cache capacity in entries.
///
/// One desktop frame touches 300 to 400 distinct layout inputs, so this covers
/// the working set before any eviction.
pub const LAYOUT_CACHE_CAPACITY: usize = 512;

/// The two registered UI faces.
#[derive(Clone, Copy, Debug, PartialEq, Eq, Structural)]
pub enum FaceKind {
    Regular,
    Bold,
}

/// Visual movement over shaped cluster boundaries in a single-line control.
#[derive(Clone, Copy, Debug, PartialEq, Eq, Structural)]
pub enum CursorMove {
    Previous,
    Next,
    PreviousWord,
    NextWord,
}

/// Full input identity of one shaped layout. Sizes, leading and advance are
/// the bits of physical pixel values; an absent advance is all ones, which no
/// width has.
pub struct LayoutKey {
    pub text: String,
    pub size_bits: u32,
    pub weight_bits: u32,
    pub leading_bits: u32,
    pub wrap: bool,
    pub advance_bits: u32,
}

/// What identifies a [`LayoutKey`].
pub struct LayoutId {
    pub text: Seq<char>,
    pub size_bits: u32,
    pub weight_bits: u32,
    pub leading_bits: u32,
    pub wrap: bool,
    pub advance_bits: u32,
}

impl CacheKey for LayoutKey {
    type Id = LayoutId;

    open spec fn id(&self) -> LayoutId {
        LayoutId {
            text: self.text@,
            size_bits: self.size_bits,
            weight_bits: self.weight_bits,
            leading_bits: self.leading_bits,
            wrap: self.wrap,
            advance_bits: self.advance_bits,
        }
    }

    fn matches(&self, other: &Self) -> (result: bool) {
        self.size_bits == other.size_bits && self.weight_bits == other.weight_bits
            && self.leading_bits == other.leading_bits && self.wrap == other.wrap
            && self.advance_bits == other.advance_bits && same(
            self.text.as_str(),
            other.text.as_str(),
        )
    }
}

/// Bounded store of shaped layouts; the least recently used one is evicted.
pub struct LayoutCache<L> {
    layouts: Lru<LayoutKey, L>,
}

impl<L> LayoutCache<L> {
    /// The stored layouts with the access at which each was last used.
    pub closed spec fn entries(self) -> Seq<Entry<LayoutId, L>> {
        self.layouts.entries()
    }

    /// Accesses counted so far.
    pub closed spec fn ticks(self) -> int {
        self.layouts.ticks()
    }

    /// The store is consistent and within its capacity.
    pub closed spec fn wf(self) -> bool {
        self.layouts.wf() && self.layouts.entries().len() <= LAYOUT_CACHE_CAPACITY
    }

    /// The store never holds more layouts than its capacity.
    pub proof fn within_capacity(self)
        requires
            self.wf(),
        ensures
            self.entries().len() <= LAYOUT_CACHE_CAPACITY,
    {
    }

    /// An empty store.
    pub fn new() -> (result: Self)
        ensures
            result.wf(),
            result.entries() == Seq::<Entry<LayoutId, L>>::empty(),
            result.ticks() == 0,
    {
        LayoutCache { layouts: Lru::new() }
    }

    /// Number of stored layouts.
    pub fn len(&self) -> (result: usize)
        ensures
            result == self.entries().len(),
    {
        self.layouts.len()
    }

    /// The layout shaped for exactly this input.
    pub fn get(&mut self, key: &LayoutKey) -> (result: Option<&L>)
        requires
            old(self).wf(),
            old(self).ticks() < u64::MAX,
        ensures
            final(self).wf(),
            final(self).ticks() == old(self).ticks() + 1,
            match result {
                None => !holds_id(old(self).entries(), key.id()) && final(self).entries() == old(
                    self,
                ).entries(),
                Some(layout) => touched(
                    old(self).entries(),
                    key.id(),
                    final(self).ticks(),
                    *layout,
                    final(self).entries(),
                ),
            },
    {
        self.layouts.get(key)
    }

    /// Stores the layout of an input.
    pub fn insert(&mut self, key: LayoutKey, layout: L)
        requires
            old(self).wf(),
            old(self).ticks() < u64::MAX,
        ensures
            final(self).wf(),
            final(self).ticks() == old(self).ticks() + 1,
            holds_id(old(self).entries(), key.id()) ==> replaced(
                old(self).entries(),
                key.id(),
                final(self).ticks(),
                layout,
                final(self).entries(),
            ),
            !holds_id(old(self).entries(), key.id()) ==> added(
                old(self).entries(),
                key.id(),
                LAYOUT_CACHE_CAPACITY as int,
                final(self).ticks(),
                layout,
                final(self).entries(),
            ),
    {
        self.layouts.insert(key, layout, LAYOUT_CACHE_CAPACITY);
    }
}

/// White space mode that wraps at the inline constraint.
pub open spec fn wrapping(style: Map<Seq<char>, Seq<char>>) -> bool {
    value_of(style, "white-space"@) != Some("pre"@) && value_of(style, "white-space"@) != Some(
        "nowrap"@,
    )
}

/// `white-space: normal` (the CSS initial value, so also an absent property)
/// and `pre-wrap` wrap at the inline constraint; `pre` and `nowrap` keep their
/// lines unbroken.
pub fn wraps(style: &Computed) -> (result: bool)
    ensures
        result == wrapping(style@),
{
    !(style.is("white-space", "pre") || style.is("white-space", "nowrap"))
}

/// Binary search for the longest prefix that fits, among prefixes of
/// `0..count` characters. The empty prefix always counts as fitting; `fits` is
/// asked for longer ones and should not hold again once it failed.
pub fn longest_fitting<F: Fn(usize) -> bool>(count: usize, fits: &F) -> (result: usize)
    requires
        count > 0,
        forall|k: usize| #[trigger] call_requires(*fits, (k,)),
    ensures
        result < count,
        result > 0 ==> call_ensures(*fits, (result,), true),
        result + 1 < count ==> call_ensures(*fits, ((result + 1) as usize,), false),
{
    let mut low: usize = 0;
    let mut high: usize = count;
    while low + 1 < high
        invariant
            low < high <= count,
            forall|k: usize| #[trigger] call_requires(*fits, (k,)),
            low > 0 ==> call_ensures(*fits, (low,), true),
            high < count ==> call_ensures(*fits, (high,), false),
        decreases high - low,
    {
        let mid: usize = low + (high - low) / 2;
        if fits(mid) {
            low = mid;
        } else {
            high = mid;
        }
    }
    low
}

/// Truncates `text` with a trailing ellipsis. `room` tells whether anything
/// fits beside the ellipsis, and `fits` whether a prefix of the given number of
/// characters does.
pub fn ellipsize<F: Fn(usize) -> bool>(text: &str, room: bool, fits: &F) -> (result: String)
    requires
        text@.len() < usize::MAX,
        forall|k: usize| #[trigger] call_requires(*fits, (k,)),
    ensures
        !room ==> result@ == seq!['\u{2026}'],
        room ==> exists|kept: usize|
            {
                &&& kept <= text@.len()
                &&& result@ == #[trigger] text@.take(kept as int).push('\u{2026}')
                &&& kept > 0 ==> call_ensures(*fits, (kept,), true)
                &&& kept < text@.len() ==> call_ensures(*fits, ((kept + 1) as usize,), false)
            },
{
    let cs = chars_of(text);
    let kept: usize = if room {
        longest_fitting(cs.len() + 1, fits)
    } else {
        0
    };
    let mut out = string_of(&cs, 0, kept);
    out.push('\u{2026}');
    assert(text@.subrange(0, kept as int) =~= text@.take(kept as int));
    assert(!room ==> out@ =~= seq!['\u{2026}']);
    out
}

/// The room that the layout offers on the inline axis. Widths are the bits of
/// logical pixels.
#[derive(Clone, Copy, Debug, PartialEq, Eq, Structural)]
pub enum Room {
    Definite(u32),
    MinContent,
    MaxContent,
}

/// How text is shaped to be measured.
#[derive(Clone, Copy, Debug, PartialEq, Eq, Structural)]
pub enum Shaping {
    /// Lines are broken at this width.
    Within(u32),
    /// Lines are broken wherever they can be.
    Narrowest,
    /// Lines are not broken.
    Unbroken,
}

/// How text is measured: a known width counts first, then a definite room. The
/// narrowest measure breaks lines everywhere, where they can be broken at all.
/// With a width, or for the narrowest measure, trailing space does not count.
pub open spec fn measure_of(wrap: bool, known: Option<u32>, room: Room) -> (Shaping, bool) {
    let definite = match known {
        Some(width) => Some(width),
        None => match room {
            Room::Definite(width) => Some(width),
            _ => None,
        },
    };
    (
        match definite {
            Some(width) => Shaping::Within(width),
            None => if wrap && room == Room::MinContent {
                Shaping::Narrowest
            } else {
                Shaping::Unbroken
            },
        },
        !(definite is Some || room == Room::MinContent),
    )
}

/// Decides how text is measured, and whether its trailing space counts.
pub fn measure_plan(wrap: bool, known: Option<u32>, room: Room) -> (result: (Shaping, bool))
    ensures
        result == measure_of(wrap, known, room),
{
    let definite = match known {
        Some(width) => Some(width),
        None => match room {
            Room::Definite(width) => Some(width),
            _ => None,
        },
    };
    match definite {
        Some(width) => (Shaping::Within(width), false),
        None => if wrap && room == Room::MinContent {
            (Shaping::Narrowest, false)
        } else {
            (Shaping::Unbroken, room != Room::MinContent)
        },
    }
}

/// Whether unbroken text that does not fit its box ends in an ellipsis.
pub fn wants_ellipsis(style: &Computed, overflows: bool, box_width: i32) -> (result: bool)
    ensures
        result == ((value_of(style@, "white-space"@) == Some("pre"@) || value_of(
            style@,
            "white-space"@,
        ) == Some("nowrap"@)) && value_of(style@, "text-overflow"@) == Some("ellipsis"@)
            && overflows && box_width > 0),
{
    !wraps(style) && style.is("text-overflow", "ellipsis") && overflows && box_width > 0
}

/// Placement of lines in their box.
#[derive(Clone, Copy, Debug, PartialEq, Eq, Structural)]
pub enum TextAlign {
    Left,
    Center,
    Right,
}

/// The placement of lines that a style asks for.
pub fn text_align(style: &Computed) -> (result: TextAlign)
    ensures
        result == (if value_of(style@, "text-align"@) == Some("center"@) {
            TextAlign::Center
        } else if value_of(style@, "text-align"@) == Some("right"@) {
            TextAlign::Right
        } else {
            TextAlign::Left
        }),
{
    if style.is("text-align", "center") {
        TextAlign::Center
    } else if style.is("text-align", "right") {
        TextAlign::Right
    } else {
        TextAlign::Left
    }
}

/// Whether both faces belong to one family: each has a name, and the names are
/// the same.
pub fn face_family(regular: Option<&str>, bold: Option<&str>) -> (result: Result<String, FaceError>)
    ensures
        match result {
            Ok(name) => regular is Some && bold is Some && name@ == regular->0@ && name@
                == bold->0@,
            Err(FaceError::NameMissing) => regular is None || bold is None,
            Err(FaceError::NamesDisagree) => regular is Some && bold is Some && regular->0@
                != bold->0@,
        },
{
    match (regular, bold) {
        (Some(first), Some(second)) => if same(first, second) {
            Ok(first.to_owned())
        } else {
            Err(FaceError::NamesDisagree)
        },
        _ => Err(FaceError::NameMissing),
    }
}

/// Why two faces cannot be used together.
#[derive(Clone, Copy, Debug, PartialEq, Eq, Structural)]
pub enum FaceError {
    NameMissing,
    NamesDisagree,
}

/// The weight that a style asks for. The text is a number as written.
pub enum Weight<'a> {
    Regular,
    Bold,
    Number(&'a str),
}

/// What a [`Weight`] holds.
pub enum WeightView {
    Regular,
    Bold,
    Number(Seq<char>),
}

impl<'a> View for Weight<'a> {
    type V = WeightView;

    open spec fn view(&self) -> WeightView {
        match *self {
            Weight::Regular => WeightView::Regular,
            Weight::Bold => WeightView::Bold,
            Weight::Number(text) => WeightView::Number(text@),
        }
    }
}

/// The weight of a style; what cannot be read is regular.
pub open spec fn weight_of(style: Map<Seq<char>, Seq<char>>) -> WeightView {
    match value_of(style, "font-weight"@) {
        Some(text) => if text == "bold"@ {
            WeightView::Bold
        } else if numeral(text) {
            WeightView::Number(text)
        } else {
            WeightView::Regular
        },
        None => WeightView::Regular,
    }
}

/// Resolves `font-weight`.
pub fn font_weight<'a>(style: &'a Computed) -> (result: Weight<'a>)
    ensures
        result@ == weight_of(style@),
{
    match style.get("font-weight") {
        Some(text) => if same(text, "bold") {
            Weight::Bold
        } else if is_numeral(text) {
            Weight::Number(text)
        } else {
            Weight::Regular
        },
        None => Weight::Regular,
    }
}

/// The line height that a style asks for. Texts are numbers as written.
pub enum LineHeight<'a> {
    /// The default: five quarters of the font size.
    Normal,
    /// A percentage of the font size.
    Percent(&'a str),
    /// Logical pixels.
    Px(&'a str),
    /// A multiple of the font size.
    Multiple(&'a str),
}

/// What a [`LineHeight`] holds.
pub enum LineHeightView {
    Normal,
    Percent(Seq<char>),
    Px(Seq<char>),
    Multiple(Seq<char>),
}

impl<'a> View for LineHeight<'a> {
    type V = LineHeightView;

    open spec fn view(&self) -> LineHeightView {
        match *self {
            LineHeight::Normal => LineHeightView::Normal,
            LineHeight::Percent(text) => LineHeightView::Percent(text@),
            LineHeight::Px(text) => LineHeightView::Px(text@),
            LineHeight::Multiple(text) => LineHeightView::Multiple(text@),
        }
    }
}

/// The line height that a value states; what cannot be read is the default.
pub open spec fn stated_height(value: Seq<char>) -> LineHeightView {
    if let Some(text) = before_percent(value) {
        if numeral(trimmed(text)) {
            LineHeightView::Percent(trimmed(text))
        } else {
            LineHeightView::Normal
        }
    } else if occurs_at(value, "px"@, value.len() - 2) {
        let text = trimmed(value.subrange(0, value.len() - 2));
        if numeral(text) {
            LineHeightView::Px(text)
        } else {
            LineHeightView::Normal
        }
    } else if value != "normal"@ && numeral(value) {
        LineHeightView::Multiple(value)
    } else {
        LineHeightView::Normal
    }
}

/// The line height of a style.
pub open spec fn line_height_of(style: Map<Seq<char>, Seq<char>>) -> LineHeightView {
    match value_of(style, "line-height"@) {
        Some(value) => stated_height(trimmed(value)),
        None => LineHeightView::Normal,
    }
}

/// Resolves `line-height`: `px` values are lengths, a unitless number multiplies
/// the font size, and a percentage resolves against it.
pub fn line_height<'a>(style: &'a Computed) -> (result: LineHeight<'a>)
    ensures
        result@ == line_height_of(style@),
{
    let value = match style.get("line-height") {
        Some(value) => trim(value),
        None => return LineHeight::Normal,
    };
    if let Some(text) = strip_percent(value) {
        let text = trim(text);
        return if is_numeral(text) {
            LineHeight::Percent(text)
        } else {
            LineHeight::Normal
        };
    }
    proof {
        reveal_strlit("px");
    }
    if let Some(text) = strip_suffix(value, "px") {
        let text = trim(text);
        return if is_numeral(text) {
            LineHeight::Px(text)
        } else {
            LineHeight::Normal
        };
    }
    if !same(value, "normal") && is_numeral(value) {
        LineHeight::Multiple(value)
    } else {
        LineHeight::Normal
    }
}

} // verus!
