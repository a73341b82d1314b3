//! CSS `overflow` axis coupling.

use vstd::prelude::*;
use vstd::string::*;
use crate::style::{value_of, Computed};
use crate::text::{same, split_whitespace, views, words};

verus! {

/// The computed overflow behaviour of one axis.
#[derive(Clone, Copy, Debug, PartialEq, Eq, Structural)]
pub enum OverflowMode {
    Visible,
    Clip,
    Hidden,
    Auto,
    Scroll,
}

impl OverflowMode {
    /// Content outside the box is cut off.
    pub open spec fn cuts(self) -> bool {
        self != OverflowMode::Visible
    }

    /// Whether content outside the box is cut off.
    pub fn clips(self) -> (result: bool)
        ensures
            result == self.cuts(),
    {
        self != OverflowMode::Visible
    }

    /// The user can scroll the axis.
    pub open spec fn scrolling(self) -> bool {
        self == OverflowMode::Auto || self == OverflowMode::Scroll
    }

    /// Whether the user can scroll the axis.
    pub fn scrolls(self) -> (result: bool)
        ensures
            result == self.scrolling(),
    {
        matches!(self, OverflowMode::Auto | OverflowMode::Scroll)
    }
}

/// The mode that a keyword names; anything unknown is visible.
pub open spec fn mode_of(value: Seq<char>) -> OverflowMode {
    if value == "clip"@ {
        OverflowMode::Clip
    } else if value == "hidden"@ {
        OverflowMode::Hidden
    } else if value == "auto"@ {
        OverflowMode::Auto
    } else if value == "scroll"@ {
        OverflowMode::Scroll
    } else {
        OverflowMode::Visible
    }
}

/// A keyword that makes its axis contain its content.
pub open spec fn contains_content(value: Seq<char>) -> bool {
    value != "visible"@ && value != "clip"@
}

/// A keyword after the other axis has become a scroll container.
pub open spec fn coupled(value: Seq<char>, other: Seq<char>) -> Seq<char> {
    if contains_content(other) && value == "visible"@ {
        "auto"@
    } else if contains_content(other) && value == "clip"@ {
        "hidden"@
    } else {
        value
    }
}

/// The keywords of both axes before coupling: the axis property, else the
/// matching word of the shorthand, whose second word defaults to its first.
pub open spec fn axis_keywords(style: Map<Seq<char>, Seq<char>>) -> (Seq<char>, Seq<char>) {
    let shorthand = words(
        match value_of(style, "overflow"@) {
            Some(value) => value,
            None => "visible"@,
        },
    );
    let first = if shorthand.len() > 0 {
        shorthand[0]
    } else {
        "visible"@
    };
    let second = if shorthand.len() > 1 {
        shorthand[1]
    } else {
        first
    };
    (
        match value_of(style, "overflow-x"@) {
            Some(value) => value,
            None => first,
        },
        match value_of(style, "overflow-y"@) {
            Some(value) => value,
            None => second,
        },
    )
}

/// The overflow modes of the horizontal and the vertical axis.
pub open spec fn modes_of(style: Map<Seq<char>, Seq<char>>) -> (OverflowMode, OverflowMode) {
    let (x, y) = axis_keywords(style);
    (mode_of(coupled(x, y)), mode_of(coupled(y, x)))
}

fn overflow_mode(value: &str) -> (result: OverflowMode)
    ensures
        result == mode_of(value@),
{
    if same(value, "clip") {
        OverflowMode::Clip
    } else if same(value, "hidden") {
        OverflowMode::Hidden
    } else if same(value, "auto") {
        OverflowMode::Auto
    } else if same(value, "scroll") {
        OverflowMode::Scroll
    } else {
        OverflowMode::Visible
    }
}

fn couple<'a>(value: &'a str, contained: bool) -> (result: &'a str)
    ensures
        result@ == (if contained && value@ == "visible"@ {
            "auto"@
        } else if contained && value@ == "clip"@ {
            "hidden"@
        } else {
            value@
        }),
{
    if contained && same(value, "visible") {
        "auto"
    } else if contained && same(value, "clip") {
        "hidden"
    } else {
        value
    }
}

fn is_contained(value: &str) -> (result: bool)
    ensures
        result == contains_content(value@),
{
    !same(value, "visible") && !same(value, "clip")
}

/// Computes both axes. An axis that is visible or clipped becomes automatic or
/// hidden when the other axis establishes a scroll container; without this
/// coupling one axis would leak out of a container that scrolls on the other.
pub fn overflow_modes(computed: &Computed) -> (result: (OverflowMode, OverflowMode))
    ensures
        result == modes_of(computed@),
{
    let shorthand = split_whitespace(
        match computed.get("overflow") {
            Some(value) => value,
            None => "visible",
        },
    );
    proof {
        assert(views(shorthand@).len() == shorthand@.len());
        if shorthand@.len() > 0 {
            assert(views(shorthand@)[0] == shorthand@[0]@);
        }
        if shorthand@.len() > 1 {
            assert(views(shorthand@)[1] == shorthand@[1]@);
        }
    }
    let first = if shorthand.len() > 0 {
        shorthand[0]
    } else {
        "visible"
    };
    let second = if shorthand.len() > 1 {
        shorthand[1]
    } else {
        first
    };
    let x = match computed.get("overflow-x") {
        Some(value) => value,
        None => first,
    };
    let y = match computed.get("overflow-y") {
        Some(value) => value,
        None => second,
    };
    let x_contained = is_contained(x);
    let y_contained = is_contained(y);
    (overflow_mode(couple(x, y_contained)), overflow_mode(couple(y, x_contained)))
}

/// When one axis scrolls, the other axis never leaks: it clips too.
pub proof fn scrolling_axis_contains_the_other(style: Map<Seq<char>, Seq<char>>)
    requires
        modes_of(style).0 == OverflowMode::Auto || modes_of(style).0 == OverflowMode::Scroll
            || modes_of(style).0 == OverflowMode::Hidden,
        axis_keywords(style).1 == "visible"@ || axis_keywords(style).1 == "clip"@ || mode_of(
            axis_keywords(style).1,
        ) != OverflowMode::Visible,
    ensures
        modes_of(style).1.cuts(),
{
    reveal_strlit("visible");
    reveal_strlit("clip");
    reveal_strlit("auto");
    reveal_strlit("hidden");
    reveal_strlit("scroll");
    assert("auto"@.len() == 4 && "visible"@.len() == 7 && "clip"@.len() == 4 && "hidden"@.len() == 6
        && "scroll"@.len() == 6);
    assert("auto"@[0] != "clip"@[0]);
    assert("hidden"@[0] != "scroll"@[0]);
    assert("auto"@ != "clip"@);
    assert("hidden"@ != "scroll"@);
}

} // verus!
