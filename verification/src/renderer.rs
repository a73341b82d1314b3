//! Renderer state that is not painted, and small style decisions.

use vstd::prelude::*;
use vstd::string::*;
use crate::color::{accepted, parse, resolves, total_conversion, Hsl};
use crate::gpu_list::ImageSampling;
use crate::layout::numeral::{is_numeral, numeral};
use crate::layout::{number, number_of};
use crate::rect::Size;
use crate::style::{text_view, value_of, Computed};
use crate::text::{occurs_at, starts_with, trim, trimmed};

verus! {

/// The targets that styles depend on.
pub struct Renderer {
    pub viewport: Size,
    /// The node with focus.
    pub focused: Option<u64>,
    /// The node under the pointer.
    pub hover_target: Option<u64>,
    /// The node that is pressed.
    pub active_target: Option<u64>,
}

impl Renderer {
    /// A renderer without any target.
    pub fn new(viewport: Size) -> (result: Self)
        ensures
            result == (Renderer {
                viewport,
                focused: None,
                hover_target: None,
                active_target: None,
            }),
    {
        Renderer { viewport, focused: None, hover_target: None, active_target: None }
    }

    /// Moves or clears focus. Returns whether it changed.
    pub fn set_focus(&mut self, node_id: Option<u64>) -> (result: bool)
        ensures
            result == (old(self).focused != node_id),
            *final(self) == (Renderer { focused: node_id, ..*old(self) }),
    {
        let changed = self.focused != node_id;
        self.focused = node_id;
        changed
    }

    /// The node with focus.
    pub fn focused(&self) -> (result: Option<u64>)
        ensures
            result == self.focused,
    {
        self.focused
    }

    /// Moves the pointer's target. Returns whether it changed.
    pub fn set_hover_target(&mut self, node_id: Option<u64>) -> (result: bool)
        ensures
            result == (old(self).hover_target != node_id),
            *final(self) == (Renderer { hover_target: node_id, ..*old(self) }),
    {
        let changed = self.hover_target != node_id;
        self.hover_target = node_id;
        changed
    }

    /// Moves the pressed target. Returns whether it changed.
    pub fn set_active_target(&mut self, node_id: Option<u64>) -> (result: bool)
        ensures
            result == (old(self).active_target != node_id),
            *final(self) == (Renderer { active_target: node_id, ..*old(self) }),
    {
        let changed = self.active_target != node_id;
        self.active_target = node_id;
        changed
    }

    /// Sets the logical size of the screen.
    pub fn set_viewport(&mut self, viewport: Size)
        ensures
            *final(self) == (Renderer { viewport, ..*old(self) }),
    {
        self.viewport = viewport;
    }
}

/// The color of text where a style has none.
pub const OPAQUE_BLACK: u32 = 0xff00_0000;

/// The color of a property that can be read.
pub open spec fn stated_color(style: Map<Seq<char>, Seq<char>>, name: Seq<char>) -> Option<Seq<char>> {
    match value_of(style, name) {
        Some(text) => if accepted(text) is Some {
            Some(text)
        } else {
            None
        },
        None => None,
    }
}

/// The color that a property gives, or another one where it gives none.
pub fn color_or<H: Fn(Hsl) -> (u8, u8, u8)>(
    computed: &Computed,
    name: &str,
    other: u32,
    hsl: &H,
) -> (result: u32)
    requires
        total_conversion(hsl),
    ensures
        match stated_color(computed@, name@) {
            Some(text) => resolves(accepted(text)->0, hsl, result),
            None => result == other,
        },
{
    match computed.get(name) {
        Some(text) => match parse(text, hsl) {
            Some(color) => color,
            None => other,
        },
        None => other,
    }
}

/// The color of text.
pub fn computed_color<H: Fn(Hsl) -> (u8, u8, u8)>(computed: &Computed, hsl: &H) -> (result: u32)
    requires
        total_conversion(hsl),
    ensures
        match stated_color(computed@, "color"@) {
            Some(text) => resolves(accepted(text)->0, hsl, result),
            None => result == OPAQUE_BLACK,
        },
{
    color_or(computed, "color", OPAQUE_BLACK, hsl)
}

/// How an image is sampled.
pub open spec fn sampling_of(style: Map<Seq<char>, Seq<char>>) -> ImageSampling {
    let value = value_of(style, "image-rendering"@);
    if value == Some("crisp-edges"@) || value == Some("pixelated"@) {
        ImageSampling::Nearest
    } else {
        ImageSampling::Linear
    }
}

/// How an image is sampled.
pub fn image_sampling(computed: &Computed) -> (result: ImageSampling)
    ensures
        result == sampling_of(computed@),
{
    if computed.is("image-rendering", "crisp-edges") || computed.is("image-rendering", "pixelated") {
        ImageSampling::Nearest
    } else {
        ImageSampling::Linear
    }
}

/// The number in a `blur(..)` filter.
pub open spec fn blur_of(value: Seq<char>) -> Option<Seq<char>> {
    let inner = trimmed(value);
    if occurs_at(inner, "blur("@, 0) && inner.len() > 5 && inner.last() == ')' {
        number_of(inner.subrange(5, inner.len() - 1))
    } else {
        None
    }
}

/// Finds the number in a `blur(..)` filter.
pub fn blur_radius<'a>(value: &'a str) -> (result: Option<&'a str>)
    ensures
        text_view(result) == blur_of(value@),
{
    let inner = trim(value);
    proof {
        reveal_strlit("blur(");
    }
    let length: usize = inner.unicode_len();
    if !starts_with(inner, "blur(") || length < 6 || inner.get_char(length - 1) != ')' {
        return None;
    }
    number(inner.substring_char(5, length - 1))
}

/// The opacity that a style states.
pub open spec fn opacity_of(style: Map<Seq<char>, Seq<char>>) -> Option<Seq<char>> {
    match value_of(style, "opacity"@) {
        Some(value) => if numeral(trimmed(value)) {
            Some(trimmed(value))
        } else {
            None
        },
        None => None,
    }
}

/// The opacity that a style states, as a number as written; a style without one
/// is opaque.
pub fn css_opacity<'a>(computed: &'a Computed) -> (result: Option<&'a str>)
    ensures
        text_view(result) == opacity_of(computed@),
{
    match computed.get("opacity") {
        Some(value) => {
            let text = trim(value);
            if is_numeral(text) {
                Some(text)
            } else {
                None
            }
        },
        None => None,
    }
}

} // verus!
