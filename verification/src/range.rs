//! The properties of a range input, and the text of its values.

use vstd::prelude::*;
use vstd::string::*;
use crate::layout::numeral::{is_numeral, numeral};
use crate::text::{chars_of, same, string_of, trim, trimmed};
use crate::tree::{
    flag_prop, flagged, prop, prop_of, prop_views, text_prop, Prop, PropValue, PropView,
};

verus! {

/// A number that a property states.
#[derive(Clone, Copy)]
pub enum Stated<'a> {
    Integer(u64),
    /// A number as written.
    Numeral(&'a str),
}

/// What a [`Stated`] number holds.
pub enum StatedView {
    Integer(u64),
    Numeral(Seq<char>),
}

impl<'a> View for Stated<'a> {
    type V = StatedView;

    open spec fn view(&self) -> StatedView {
        match *self {
            Stated::Integer(number) => StatedView::Integer(number),
            Stated::Numeral(text) => StatedView::Numeral(text@),
        }
    }
}

/// The view of an optional number.
pub open spec fn stated_view(number: Option<Stated>) -> Option<StatedView> {
    match number {
        Some(number) => Some(number@),
        None => None,
    }
}

/// The number that a property states: a number itself, or a text that is one
/// with white space around it.
pub open spec fn stated_number(props: Seq<(Seq<char>, PropView)>, name: Seq<char>) -> Option<
    StatedView,
> {
    match prop_of(props, name) {
        Some(PropView::Number(number)) => Some(StatedView::Integer(number)),
        Some(PropView::Text(text)) => if numeral(trimmed(text)) {
            Some(StatedView::Numeral(trimmed(text)))
        } else {
            None
        },
        Some(PropView::Other(json)) => if numeral(json) {
            Some(StatedView::Numeral(json))
        } else {
            None
        },
        _ => None,
    }
}

/// The number that a property states.
pub fn property_number<'a>(props: &'a Vec<Prop>, name: &str) -> (result: Option<Stated<'a>>)
    ensures
        stated_view(result) == stated_number(prop_views(props@), name@),
{
    match prop(props, name) {
        Some(PropValue::Number(number)) => Some(Stated::Integer(*number)),
        Some(PropValue::Text(text)) => {
            let text = trim(text.as_str());
            if is_numeral(text) {
                Some(Stated::Numeral(text))
            } else {
                None
            }
        },
        Some(PropValue::Other(json)) => if is_numeral(json.as_str()) {
            Some(Stated::Numeral(json.as_str()))
        } else {
            None
        },
        _ => None,
    }
}

/// The step of a range: any value, or multiples of a number.
pub enum Step<'a> {
    Any,
    By(Option<Stated<'a>>),
}

/// The properties of a range input, with its numbers as stated.
pub struct RangeInput<'a> {
    pub min: Option<Stated<'a>>,
    pub max: Option<Stated<'a>>,
    pub step: Step<'a>,
    pub value: Option<Stated<'a>>,
    pub on_input: Option<u64>,
    pub disabled: bool,
}

/// A range input.
pub open spec fn ranged(props: Seq<(Seq<char>, PropView)>) -> bool {
    prop_of(props, "type"@) == Some(PropView::Text("range"@))
}

/// The range has no step.
pub open spec fn steps_freely(props: Seq<(Seq<char>, PropView)>) -> bool {
    prop_of(props, "step"@) == Some(PropView::Text("any"@))
}

impl<'a> RangeInput<'a> {
    /// The range that these properties describe.
    pub open spec fn describes(self, props: Seq<(Seq<char>, PropView)>) -> bool {
        &&& stated_view(self.min) == stated_number(props, "min"@)
        &&& stated_view(self.max) == stated_number(props, "max"@)
        &&& stated_view(self.value) == stated_number(props, "value"@)
        &&& self.disabled == flagged(props, "disabled"@)
        &&& match self.step {
            Step::Any => steps_freely(props),
            Step::By(step) => !steps_freely(props) && stated_view(step) == stated_number(
                props,
                "step"@,
            ),
        }
    }

    /// Reads the properties of a range input.
    pub fn from_props(props: &'a Vec<Prop>, on_input: Option<u64>) -> (result: Option<Self>)
        ensures
            match result {
                None => !ranged(prop_views(props@)),
                Some(range) => {
                    &&& ranged(prop_views(props@))
                    &&& range.describes(prop_views(props@))
                    &&& range.on_input == on_input
                },
            },
    {
        let is_range = match text_prop(props, "type") {
            Some(text) => same(text, "range"),
            None => false,
        };
        if !is_range {
            return None;
        }
        let any = match text_prop(props, "step") {
            Some(text) => same(text, "any"),
            None => false,
        };
        let step = if any {
            Step::Any
        } else {
            Step::By(property_number(props, "step"))
        };
        Some(
            RangeInput {
                min: property_number(props, "min"),
                max: property_number(props, "max"),
                step,
                value: property_number(props, "value"),
                on_input,
                disabled: flag_prop(props, "disabled"),
            },
        )
    }
}

/// A text without the zeros at its end.
pub open spec fn without_zeros(text: Seq<char>) -> Seq<char>
    decreases text.len(),
{
    if text.len() > 0 && text.last() == '0' {
        without_zeros(text.drop_last())
    } else {
        text
    }
}

/// A decimal fraction in its shortest form.
pub open spec fn shortest(text: Seq<char>) -> Seq<char> {
    let digits = without_zeros(text);
    let whole = if digits.len() > 0 && digits.last() == '.' {
        digits.drop_last()
    } else {
        digits
    };
    if whole == "-0"@ {
        "0"@
    } else {
        whole
    }
}

/// Writes a value with a fixed number of decimals in its shortest form.
pub fn string_value(fixed: &str) -> (result: String)
    ensures
        result@ == shortest(fixed@),
{
    let cs = chars_of(fixed);
    let mut end: usize = cs.len();
    assert(cs@.take(end as int) =~= fixed@);
    while end > 0 && cs[end - 1] == '0'
        invariant
            end <= cs@.len(),
            without_zeros(fixed@) == without_zeros(cs@.take(end as int)),
        decreases end,
    {
        assert(cs@.take(end as int).drop_last() =~= cs@.take(end - 1));
        end = end - 1;
    }
    assert(without_zeros(cs@.take(end as int)) == cs@.take(end as int));
    if end > 0 && cs[end - 1] == '.' {
        assert(cs@.take(end as int).drop_last() =~= cs@.take(end - 1));
        end = end - 1;
    }
    let whole = string_of(&cs, 0, end);
    assert(whole@ =~= cs@.take(end as int));
    if same(whole.as_str(), "-0") {
        "0".to_owned()
    } else {
        whole
    }
}

} // verus!
