//! Native selection state for single-line text controls.
//!
//! Positions are byte offsets into the control's value; every stored position
//! is moved back to a character boundary before it is used.

use std::collections::HashMap;
use vstd::prelude::*;
use vstd::string::*;
use vstd::utf8::*;
use crate::font::CursorMove;
use crate::keymap::TextEdit;

verus! {

broadcast use {vstd::std_specs::hash::group_hash_axioms, vstd::utf8::encode_utf8_valid_utf8};

/// One controlled input's editing state. `scroll_bits` is the bit pattern of
/// its horizontal scroll offset, which is zero after an edit.
#[derive(Clone, Copy, Debug, PartialEq, Eq, Structural)]
pub struct State {
    pub anchor: usize,
    pub focus: usize,
    pub scroll_bits: u32,
}

impl State {
    /// The caret without selection.
    pub open spec fn caret(at: int) -> State {
        State { anchor: at as usize, focus: at as usize, scroll_bits: 0 }
    }

    /// Start of the selection.
    pub open spec fn start(self) -> int {
        if self.anchor <= self.focus {
            self.anchor as int
        } else {
            self.focus as int
        }
    }

    /// End of the selection.
    pub open spec fn end(self) -> int {
        if self.anchor <= self.focus {
            self.focus as int
        } else {
            self.anchor as int
        }
    }

    /// A caret at one position.
    pub fn collapsed(index: usize) -> (result: Self)
        ensures
            result == State::caret(index as int),
    {
        State { anchor: index, focus: index, scroll_bits: 0 }
    }

    /// Both ends of the selection in order.
    pub fn ordered(self) -> (result: (usize, usize))
        ensures
            result.0 == self.start(),
            result.1 == self.end(),
    {
        if self.anchor <= self.focus {
            (self.anchor, self.focus)
        } else {
            (self.focus, self.anchor)
        }
    }
}

/// The last character boundary at or before `index`.
pub open spec fn floor_boundary(bytes: Seq<u8>, index: int) -> int
    decreases index,
{
    if index <= 0 {
        0
    } else if is_char_boundary(bytes, index) {
        index
    } else {
        floor_boundary(bytes, index - 1)
    }
}

/// The boundary that a stored position stands for.
pub open spec fn settled_at(bytes: Seq<u8>, index: int) -> int {
    floor_boundary(
        bytes,
        if index <= bytes.len() {
            index
        } else {
            bytes.len() as int
        },
    )
}

/// The state with both positions moved to boundaries of the value.
pub open spec fn settled(bytes: Seq<u8>, state: State) -> State {
    State {
        anchor: settled_at(bytes, state.anchor as int) as usize,
        focus: settled_at(bytes, state.focus as int) as usize,
        ..state
    }
}

/// The state of a control: what is stored for it, or a caret behind the value.
pub open spec fn state_of(states: Map<u64, State>, node: u64, bytes: Seq<u8>) -> State {
    if states.contains_key(node) {
        settled(bytes, states[node])
    } else {
        settled(bytes, State::caret(bytes.len() as int))
    }
}

/// The boundary that a position is moved back to is the last one at or before it.
pub proof fn floor_is_boundary(bytes: Seq<u8>, index: int)
    requires
        valid_utf8(bytes),
        0 <= index <= bytes.len(),
    ensures
        0 <= floor_boundary(bytes, index) <= index,
        is_char_boundary(bytes, floor_boundary(bytes, index)),
        forall|k: int| floor_boundary(bytes, index) < k <= index ==> !is_char_boundary(bytes, k),
    decreases index,
{
    if index > 0 && !is_char_boundary(bytes, index) {
        floor_is_boundary(bytes, index - 1);
    }
}

/// A boundary stays where it is.
pub proof fn boundary_is_its_floor(bytes: Seq<u8>, index: int)
    requires
        0 <= index <= bytes.len(),
        is_char_boundary(bytes, index),
    ensures
        settled_at(bytes, index) == index,
{
}

/// Moves an index back to a character boundary of `value`.
pub fn valid_boundary(value: &str, index: usize) -> (result: usize)
    ensures
        result == settled_at(value.spec_bytes(), index as int),
        is_char_boundary(value.spec_bytes(), result as int),
        result <= value.spec_bytes().len(),
{
    let length: usize = byte_length(value);
    let mut at: usize = if index <= length {
        index
    } else {
        length
    };
    proof {
        floor_is_boundary(value.spec_bytes(), at as int);
    }
    while at > 0 && !value.is_char_boundary(at)
        invariant
            at <= value.spec_bytes().len(),
            settled_at(value.spec_bytes(), index as int) == floor_boundary(
                value.spec_bytes(),
                at as int,
            ),
        decreases at,
    {
        at = at - 1;
    }
    proof {
        floor_is_boundary(value.spec_bytes(), at as int);
    }
    at
}

fn byte_length(value: &str) -> (result: usize)
    ensures
        result == value.spec_bytes().len(),
{
    value.as_bytes().len()
}

proof fn encode_concat(a: Seq<char>, b: Seq<char>)
    ensures
        encode_utf8(a + b) == encode_utf8(a) + encode_utf8(b),
    decreases a.len(),
{
    if a.len() == 0 {
        assert(a + b =~= b);
        assert(encode_utf8(a) + encode_utf8(b) =~= encode_utf8(b));
    } else {
        encode_concat(a.drop_first(), b);
        assert((a + b).drop_first() =~= a.drop_first() + b);
        assert(encode_scalar(a[0] as u32) + (encode_utf8(a.drop_first()) + encode_utf8(b)) =~= (
        encode_scalar(a[0] as u32) + encode_utf8(a.drop_first())) + encode_utf8(b));
    }
}

proof fn prefix_ends_at_boundary(a: Seq<char>, b: Seq<char>)
    ensures
        is_char_boundary(encode_utf8(a + b), encode_utf8(a).len() as int),
    decreases a.len(),
{
    if a.len() > 0 {
        prefix_ends_at_boundary(a.drop_first(), b);
        assert((a + b).drop_first() =~= a.drop_first() + b);
        encode_utf8_first_scalar(a + b);
        encode_utf8_first_scalar(a);
        encode_concat(a, b);
        let all = encode_utf8(a + b);
        let width = encode_scalar(a[0] as u32).len() as int;
        encode_utf8_decode_utf8(a + b);
        assert(length_of_first_scalar(all) == width);
        assert(pop_first_scalar(all) =~= encode_utf8((a + b).drop_first()));
    }
}

/// The text before, between or behind two boundaries.
fn slice_text<'a>(value: &'a str, start: usize, end: usize) -> (result: &'a str)
    requires
        start <= end,
        is_char_boundary(value.spec_bytes(), start as int),
        is_char_boundary(value.spec_bytes(), end as int),
        end <= value.spec_bytes().len(),
    ensures
        result.spec_bytes() == value.spec_bytes().subrange(start as int, end as int),
{
    let (head, _) = value.split_at(end);
    proof {
        boundary_survives_cut(value.spec_bytes(), start as int, end as int);
    }
    let (_, tail) = head.split_at(start);
    assert(tail.spec_bytes() =~= value.spec_bytes().subrange(start as int, end as int));
    tail
}

proof fn boundary_survives_cut(bytes: Seq<u8>, start: int, end: int)
    requires
        valid_utf8(bytes),
        0 <= start <= end <= bytes.len(),
        is_char_boundary(bytes, start),
        is_char_boundary(bytes, end),
        valid_utf8(bytes.subrange(0, end)),
    ensures
        is_char_boundary(bytes.subrange(0, end), start),
    decreases bytes.len(),
{
    let head = bytes.subrange(0, end);
    if start > 0 {
        let width = length_of_first_scalar(bytes);
        let rest = pop_first_scalar(bytes);
        assert(is_char_boundary(rest, start - width));
        assert(is_char_boundary(rest, end - width));
        assert(0 <= start - width) by {
            if start < width {
                assert(!is_char_boundary(rest, start - width));
            }
        }
        assert(head.subrange(0, width) =~= bytes.subrange(0, width));
        assert(length_of_first_scalar(head) == width);
        assert(pop_first_scalar(head) =~= rest.subrange(0, end - width));
        boundary_survives_cut(rest, start - width, end - width);
    }
}

/// The state that a new focus makes: it drags the anchor along unless the
/// selection is extended.
pub open spec fn refocused(state: State, focus: int, extend: bool) -> State {
    State {
        anchor: if extend {
            state.anchor
        } else {
            focus as usize
        },
        focus: focus as usize,
        ..state
    }
}

/// The bytes after a range was replaced.
pub open spec fn spliced(bytes: Seq<u8>, start: int, end: int, insertion: Seq<u8>) -> Seq<u8> {
    bytes.subrange(0, start) + insertion + bytes.subrange(end, bytes.len() as int)
}

/// The value and the state after the selection was replaced: the caret stands
/// behind the insertion.
pub open spec fn overwritten(bytes: Seq<u8>, state: State, insertion: Seq<u8>) -> (
    Seq<u8>,
    State,
) {
    (
        spliced(bytes, state.start(), state.end(), insertion),
        State::caret(state.start() + insertion.len()),
    )
}

/// The value and the state after one edit. `previous` is where a Backspace
/// without selection deletes from.
pub open spec fn edited(bytes: Seq<u8>, state: State, edit: TextEdit, previous: int) -> (
    Seq<u8>,
    State,
) {
    match edit {
        TextEdit::Insert(c) => overwritten(bytes, state, encode_utf8(seq![c])),
        TextEdit::Backspace => if state.anchor == state.focus {
            (spliced(bytes, previous, state.end(), Seq::empty()), State::caret(previous))
        } else {
            overwritten(bytes, state, Seq::empty())
        },
    }
}

/// The state with the entire value selected.
pub open spec fn all_selected(bytes: Seq<u8>, state: State) -> State {
    State { anchor: 0, focus: bytes.len() as usize, ..state }
}

/// Where a visual movement goes: an unextended movement collapses a selection
/// to one of its ends, any other follows the shaped text.
pub open spec fn movement_target(state: State, movement: CursorMove, extend: bool, shaped: int) -> int {
    if !extend && state.anchor != state.focus {
        match movement {
            CursorMove::Previous => state.start(),
            CursorMove::PreviousWord => state.start(),
            CursorMove::Next => state.end(),
            CursorMove::NextWord => state.end(),
        }
    } else {
        shaped
    }
}

/// The editing states of all text controls.
pub struct TextControls {
    states: HashMap<u64, State>,
}

impl View for TextControls {
    type V = Map<u64, State>;

    closed spec fn view(&self) -> Map<u64, State> {
        self.states@
    }
}

impl TextControls {
    /// No control has been edited yet.
    pub fn new() -> (result: Self)
        ensures
            result@ == Map::<u64, State>::empty(),
    {
        TextControls { states: HashMap::new() }
    }

    /// Reads and stores the settled state of a control.
    pub fn control_state(&mut self, node_id: u64, value: &str) -> (result: State)
        ensures
            result == state_of(old(self)@, node_id, value.spec_bytes()),
            final(self)@ == old(self)@.insert(node_id, result),
            result.anchor <= value.spec_bytes().len(),
            result.focus <= value.spec_bytes().len(),
            is_char_boundary(value.spec_bytes(), result.anchor as int),
            is_char_boundary(value.spec_bytes(), result.focus as int),
    {
        let stored: State = match self.states.get(&node_id) {
            Some(state) => *state,
            None => State::collapsed(byte_length(value)),
        };
        let state = State {
            anchor: valid_boundary(value, stored.anchor),
            focus: valid_boundary(value, stored.focus),
            scroll_bits: stored.scroll_bits,
        };
        self.states.insert(node_id, state);
        state
    }

    /// The states by node.
    pub fn states(&self) -> (result: &HashMap<u64, State>)
        ensures
            result@ == self@,
    {
        &self.states
    }

    /// Scrolls the text of a control; the caret stays.
    pub fn set_control_scroll(&mut self, node_id: u64, value: &str, scroll_bits: u32)
        ensures
            final(self)@ == old(self)@.insert(
                node_id,
                State { scroll_bits, ..state_of(old(self)@, node_id, value.spec_bytes()) },
            ),
    {
        let state = self.control_state(node_id, value);
        let scrolled = State { scroll_bits, ..state };
        self.states.insert(node_id, scrolled);
        assert(self@ =~= old(self)@.insert(node_id, scrolled));
    }

    /// Places or extends the caret at a boundary that the shaped text gave for
    /// a pointer position, and tells whether anything changed.
    pub fn place_control_cursor(&mut self, node_id: u64, value: &str, next: usize, extend: bool) -> (result:
        bool)
        ensures
            ({
                let state = state_of(old(self)@, node_id, value.spec_bytes());
                let moved = refocused(state, next as int, extend);
                &&& final(self)@ == old(self)@.insert(node_id, moved)
                &&& result == ((state.anchor, state.focus) != (moved.anchor, moved.focus))
            }),
    {
        let state = self.control_state(node_id, value);
        let moved = State {
            anchor: if extend {
                state.anchor
            } else {
                next
            },
            focus: next,
            scroll_bits: state.scroll_bits,
        };
        let ghost middle = self@;
        self.states.insert(node_id, moved);
        assert(self@ =~= old(self)@.insert(node_id, moved));
        state.anchor != moved.anchor || state.focus != moved.focus
    }

    /// Moves the caret to a byte position and tells whether anything changed.
    pub fn set_control_focus(&mut self, node_id: u64, value: &str, focus: usize, extend: bool) -> (result:
        bool)
        ensures
            ({
                let state = state_of(old(self)@, node_id, value.spec_bytes());
                let moved = refocused(
                    state,
                    settled_at(value.spec_bytes(), focus as int),
                    extend,
                );
                &&& final(self)@ == old(self)@.insert(node_id, moved)
                &&& result == ((state.anchor, state.focus) != (moved.anchor, moved.focus))
            }),
    {
        let settled_focus: usize = valid_boundary(value, focus);
        self.place_control_cursor(node_id, value, settled_focus, extend)
    }

    /// Applies one visual caret movement. `shaped` is the boundary that the
    /// shaped text gives for the movement from the current focus.
    pub fn move_control_cursor(
        &mut self,
        node_id: u64,
        value: &str,
        movement: CursorMove,
        extend: bool,
        shaped: usize,
    ) -> (result: bool)
        ensures
            ({
                let state = state_of(old(self)@, node_id, value.spec_bytes());
                let next = movement_target(state, movement, extend, shaped as int);
                let moved = refocused(
                    state,
                    settled_at(value.spec_bytes(), next),
                    extend,
                );
                &&& final(self)@ == old(self)@.insert(node_id, moved)
                &&& result == ((state.anchor, state.focus) != (moved.anchor, moved.focus))
            }),
    {
        let state = self.control_state(node_id, value);
        let next: usize = if !extend && state.anchor != state.focus {
            let (start, end) = state.ordered();
            match movement {
                CursorMove::Previous => start,
                CursorMove::PreviousWord => start,
                CursorMove::Next => end,
                CursorMove::NextWord => end,
            }
        } else {
            shaped
        };
        proof {
            boundary_is_its_floor(value.spec_bytes(), state.anchor as int);
            boundary_is_its_floor(value.spec_bytes(), state.focus as int);
        }
        let ghost middle = self@;
        assert(state_of(middle, node_id, value.spec_bytes()) == state);
        let changed = self.set_control_focus(node_id, value, next, extend);
        assert(self@ =~= old(self)@.insert(node_id, self@[node_id]));
        changed
    }

    /// Selects the entire value.
    pub fn select_all_control(&mut self, node_id: u64, value: &str) -> (result: bool)
        ensures
            ({
                let state = state_of(old(self)@, node_id, value.spec_bytes());
                &&& final(self)@ == old(self)@.insert(
                    node_id,
                    State {
                        anchor: 0,
                        focus: value.spec_bytes().len() as usize,
                        scroll_bits: state.scroll_bits,
                    },
                )
                &&& final(self)@[node_id] == all_selected(value.spec_bytes(), state)
                &&& result == !(state.anchor == 0 && state.focus == value.spec_bytes().len())
            }),
    {
        let state = self.control_state(node_id, value);
        let length: usize = byte_length(value);
        let all = State { anchor: 0, focus: length, scroll_bits: state.scroll_bits };
        self.states.insert(node_id, all);
        assert(self@ =~= old(self)@.insert(node_id, all));
        state.anchor != 0 || state.focus != length
    }

    /// The selected text, empty for a collapsed caret.
    pub fn selected_control_text(&mut self, node_id: u64, value: &str) -> (result: String)
        ensures
            ({
                let state = state_of(old(self)@, node_id, value.spec_bytes());
                &&& final(self)@ == old(self)@.insert(node_id, state)
                &&& encode_utf8(result@) == value.spec_bytes().subrange(state.start(), state.end())
            }),
    {
        let state = self.control_state(node_id, value);
        let (start, end) = state.ordered();
        slice_text(value, start, end).to_owned()
    }

    /// Replaces a range of the value and leaves the caret behind the insertion.
    pub fn replace_control_range(
        &mut self,
        node_id: u64,
        value: &str,
        start: usize,
        end: usize,
        insertion: &str,
    ) -> (result: String)
        requires
            start <= end <= value.spec_bytes().len(),
            is_char_boundary(value.spec_bytes(), start as int),
            is_char_boundary(value.spec_bytes(), end as int),
            start + insertion.spec_bytes().len() <= usize::MAX,
        ensures
            encode_utf8(result@) == spliced(
                value.spec_bytes(),
                start as int,
                end as int,
                insertion.spec_bytes(),
            ),
            is_char_boundary(encode_utf8(result@), start + insertion.spec_bytes().len()),
            final(self)@ == old(self)@.insert(
                node_id,
                State::caret(start + insertion.spec_bytes().len()),
            ),
    {
        let length: usize = byte_length(value);
        proof {
            is_char_boundary_start_end_of_seq(value.spec_bytes());
        }
        let head = slice_text(value, 0, start);
        let tail = slice_text(value, end, length);
        let mut next = head.to_owned();
        next.append(insertion);
        next.append(tail);
        let caret: usize = start + byte_length(insertion);
        self.states.insert(node_id, State::collapsed(caret));
        proof {
            encode_concat(head@, insertion@);
            encode_concat(head@ + insertion@, tail@);
            prefix_ends_at_boundary(head@ + insertion@, tail@);
            assert(next@ == head@ + insertion@ + tail@);
        }
        next
    }

    /// Replaces the selection or applies a Backspace at the caret. `previous`
    /// is the boundary that the shaped text has before the caret; a Backspace
    /// without selection deletes from there.
    pub fn edit_control(&mut self, node_id: u64, value: &str, edit: TextEdit, previous: usize) -> (result:
        String)
        requires
            value.spec_bytes().len() + 4 <= usize::MAX,
            is_char_boundary(value.spec_bytes(), previous as int),
            previous <= state_of(old(self)@, node_id, value.spec_bytes()).start(),
        ensures
            ({
                let state = state_of(old(self)@, node_id, value.spec_bytes());
                let start = if edit == TextEdit::Backspace && state.start() == state.end() {
                    previous as int
                } else {
                    state.start()
                };
                let insertion = match edit {
                    TextEdit::Insert(c) => encode_utf8(seq![c]),
                    TextEdit::Backspace => Seq::empty(),
                };
                &&& encode_utf8(result@) == spliced(
                    value.spec_bytes(),
                    start,
                    state.end(),
                    insertion,
                )
                &&& final(self)@ == old(self)@.insert(
                    node_id,
                    State::caret(start + insertion.len()),
                )
                &&& (encode_utf8(result@), final(self)@[node_id]) == edited(
                    value.spec_bytes(),
                    state,
                    edit,
                    previous as int,
                )
            }),
    {
        let state = self.control_state(node_id, value);
        let (first, end) = state.ordered();
        let mut start: usize = first;
        let mut insertion = String::new();
        match edit {
            TextEdit::Insert(c) => {
                insertion.push(c);
                proof {
                    assert(insertion@ =~= seq![c]);
                    single_width(c);
                }
            },
            TextEdit::Backspace => {
                if start == end {
                    start = previous;
                }
                assert(insertion@ =~= Seq::<char>::empty());
                assert(encode_utf8(insertion@) =~= Seq::<u8>::empty());
            },
        }
        let next = self.replace_control_range(node_id, value, start, end, insertion.as_str());
        assert(self@ =~= old(self)@.insert(node_id, self@[node_id]));
        next
    }

    /// Replaces the selection with clipboard text.
    pub fn paste_control(&mut self, node_id: u64, value: &str, insertion: &str) -> (result: String)
        requires
            value.spec_bytes().len() + insertion.spec_bytes().len() <= usize::MAX,
        ensures
            ({
                let state = state_of(old(self)@, node_id, value.spec_bytes());
                &&& encode_utf8(result@) == spliced(
                    value.spec_bytes(),
                    state.start(),
                    state.end(),
                    insertion.spec_bytes(),
                )
                &&& final(self)@ == old(self)@.insert(
                    node_id,
                    State::caret(state.start() + insertion.spec_bytes().len()),
                )
                &&& (encode_utf8(result@), final(self)@[node_id]) == overwritten(
                    value.spec_bytes(),
                    state,
                    insertion.spec_bytes(),
                )
            }),
    {
        let state = self.control_state(node_id, value);
        let (start, end) = state.ordered();
        let next = self.replace_control_range(node_id, value, start, end, insertion);
        assert(self@ =~= old(self)@.insert(node_id, self@[node_id]));
        next
    }

    /// Deletes the selection.
    pub fn delete_control_selection(&mut self, node_id: u64, value: &str) -> (result: String)
        ensures
            ({
                let state = state_of(old(self)@, node_id, value.spec_bytes());
                &&& encode_utf8(result@) == spliced(
                    value.spec_bytes(),
                    state.start(),
                    state.end(),
                    Seq::empty(),
                )
                &&& final(self)@ == old(self)@.insert(node_id, State::caret(state.start()))
                &&& (encode_utf8(result@), final(self)@[node_id]) == overwritten(
                    value.spec_bytes(),
                    state,
                    Seq::empty(),
                )
            }),
    {
        let state = self.control_state(node_id, value);
        let (start, end) = state.ordered();
        let nothing = String::new();
        assert(nothing@ =~= Seq::<char>::empty());
        assert(encode_utf8(nothing@) =~= Seq::<u8>::empty());
        let next = self.replace_control_range(node_id, value, start, end, nothing.as_str());
        assert(self@ =~= old(self)@.insert(node_id, self@[node_id]));
        next
    }
}

proof fn single_width(c: char)
    ensures
        encode_utf8(seq![c]).len() <= 4,
{
    reveal_with_fuel(encode_utf8, 2);
    assert(seq![c].drop_first() =~= Seq::<char>::empty());
    assert(encode_utf8(seq![c]) =~= encode_scalar(c as u32));
}

/// Cutting a selection and pasting the cut text back restores the value.
pub proof fn cut_then_paste_restores(bytes: Seq<u8>, start: int, end: int)
    requires
        0 <= start <= end <= bytes.len(),
    ensures
        spliced(
            spliced(bytes, start, end, Seq::empty()),
            start,
            start,
            bytes.subrange(start, end),
        ) == bytes,
{
    assert(spliced(
        spliced(bytes, start, end, Seq::empty()),
        start,
        start,
        bytes.subrange(start, end),
    ) =~= bytes);
}

/// A state settled for a value stays as it is when settled for it again.
pub proof fn settling_is_idempotent(bytes: Seq<u8>, state: State)
    requires
        valid_utf8(bytes),
        bytes.len() <= usize::MAX,
    ensures
        settled(bytes, settled(bytes, state)) == settled(bytes, state),
{
    let a = if state.anchor <= bytes.len() {
        state.anchor as int
    } else {
        bytes.len() as int
    };
    let f = if state.focus <= bytes.len() {
        state.focus as int
    } else {
        bytes.len() as int
    };
    floor_is_boundary(bytes, a);
    floor_is_boundary(bytes, f);
    boundary_is_its_floor(bytes, settled_at(bytes, state.anchor as int));
    boundary_is_its_floor(bytes, settled_at(bytes, state.focus as int));
}

} // verus!
