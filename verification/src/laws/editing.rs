//! What typing and caret keys do to a text field.

use vstd::prelude::*;
use vstd::string::*;
use vstd::utf8::*;
use crate::font::CursorMove;
use crate::keymap::{intent, latched, plain, shifted, typed, Modifiers, TextEdit};
use crate::text_control::{
    all_selected, boundary_is_its_floor, edited, floor_is_boundary, movement_target, overwritten,
    refocused, settled_at, state_of, State,
};

verus! {

/// The lesser of two positions.
pub open spec fn lesser(a: usize, b: usize) -> usize {
    if a < b {
        a
    } else {
        b
    }
}

/// The greater of two positions.
pub open spec fn greater(a: usize, b: usize) -> usize {
    if a < b {
        b
    } else {
        a
    }
}

/// The movement goes towards the end of the text.
pub open spec fn forward(movement: CursorMove) -> bool {
    movement == CursorMove::Next || movement == CursorMove::NextWord
}

/// A movement without shift over a selection leaves the caret at the selection's
/// end in its direction: forward at the greater position, backward at the lesser
/// one, wherever the shaped text would go.
pub proof fn movements_collapse_selections(
    bytes: Seq<u8>,
    state: State,
    movement: CursorMove,
    shaped: int,
)
    requires
        state.anchor != state.focus,
        state.anchor <= bytes.len(),
        state.focus <= bytes.len(),
        is_char_boundary(bytes, state.anchor as int),
        is_char_boundary(bytes, state.focus as int),
    ensures
        ({
            let next = movement_target(state, movement, false, shaped);
            let after = refocused(state, settled_at(bytes, next), false);
            &&& after.anchor == after.focus
            &&& forward(movement) ==> after.focus == greater(state.anchor, state.focus)
            &&& !forward(movement) ==> after.focus == lesser(state.anchor, state.focus)
        }),
{
    boundary_is_its_floor(bytes, state.anchor as int);
    boundary_is_its_floor(bytes, state.focus as int);
}

/// Over one selection, forward and backward movements leave the caret at
/// different places, the forward one behind the backward one.
pub proof fn directions_differ(
    state: State,
    onward: CursorMove,
    back: CursorMove,
    a: int,
    b: int,
)
    requires
        state.anchor != state.focus,
        forward(onward),
        !forward(back),
    ensures
        movement_target(state, back, false, a) < movement_target(state, onward, false, b),
{
}

/// Every other movement goes where the shaped text says; with shift the anchor
/// stays, without it the selection is gone.
pub proof fn other_movements_follow_the_text(
    bytes: Seq<u8>,
    state: State,
    movement: CursorMove,
    extend: bool,
    shaped: int,
)
    requires
        extend || state.anchor == state.focus,
        0 <= shaped <= bytes.len(),
        bytes.len() <= usize::MAX,
        is_char_boundary(bytes, shaped),
    ensures
        ({
            let next = movement_target(state, movement, extend, shaped);
            let after = refocused(state, settled_at(bytes, next), extend);
            &&& after.focus == shaped
            &&& after.anchor == (if extend {
                state.anchor as int
            } else {
                shaped
            })
            &&& after.scroll_bits == state.scroll_bits
        }),
{
    boundary_is_its_floor(bytes, shaped);
}

/// A stored position is moved back to the nearest character boundary of the
/// value, never forward and never further than it has to be.
pub proof fn positions_settle_on_boundaries(bytes: Seq<u8>, index: int, k: int)
    requires
        valid_utf8(bytes),
        0 <= index,
    ensures
        0 <= settled_at(bytes, index) <= bytes.len(),
        settled_at(bytes, index) <= index,
        is_char_boundary(bytes, settled_at(bytes, index)),
        0 <= k <= index && k <= bytes.len() && is_char_boundary(bytes, k) ==> k <= settled_at(
            bytes,
            index,
        ),
{
    floor_is_boundary(
        bytes,
        if index <= bytes.len() {
            index
        } else {
            bytes.len() as int
        },
    );
}

/// A field that was never edited has its caret behind its text; an edited one
/// keeps its selection while it still fits the text.
pub proof fn fields_start_at_their_end(states: Map<u64, State>, node: u64, bytes: Seq<u8>)
    requires
        valid_utf8(bytes),
        bytes.len() <= usize::MAX,
    ensures
        !states.contains_key(node) ==> state_of(states, node, bytes).anchor == bytes.len()
            && state_of(states, node, bytes).focus == bytes.len(),
        states.contains_key(node) && states[node].anchor <= bytes.len() && states[node].focus
            <= bytes.len() && is_char_boundary(bytes, states[node].anchor as int)
            && is_char_boundary(bytes, states[node].focus as int) ==> state_of(states, node, bytes)
            == states[node],
{
    is_char_boundary_start_end_of_seq(bytes);
    boundary_is_its_floor(bytes, bytes.len() as int);
    if states.contains_key(node) && states[node].anchor <= bytes.len() && states[node].focus
        <= bytes.len() && is_char_boundary(bytes, states[node].anchor as int) && is_char_boundary(
        bytes,
        states[node].focus as int,
    ) {
        boundary_is_its_floor(bytes, states[node].anchor as int);
        boundary_is_its_floor(bytes, states[node].focus as int);
    }
}

/// Replacing the selection keeps every byte before and behind it, puts the new
/// text between them, and leaves the caret right behind the new text.
pub proof fn only_the_selection_is_replaced(
    bytes: Seq<u8>,
    state: State,
    insertion: Seq<u8>,
    i: int,
)
    requires
        state.anchor <= bytes.len(),
        state.focus <= bytes.len(),
        bytes.len() + insertion.len() <= usize::MAX,
    ensures
        ({
            let (out, after) = overwritten(bytes, state, insertion);
            let first = lesser(state.anchor, state.focus);
            let last = greater(state.anchor, state.focus);
            &&& out.len() == bytes.len() - (last - first) + insertion.len()
            &&& 0 <= i < first ==> out[i] == bytes[i]
            &&& 0 <= i < insertion.len() ==> out[first + i] == insertion[i]
            &&& last <= i < bytes.len() ==> out[i - (last - first) + insertion.len()] == bytes[i]
            &&& after.anchor == first + insertion.len()
            &&& after.focus == after.anchor
        }),
{
}

/// Typing replaces the selection by the typed character. A Backspace removes the
/// selection, or what stands between `previous` and the caret, and nothing else.
pub proof fn keys_edit_at_the_caret(
    bytes: Seq<u8>,
    state: State,
    c: char,
    previous: int,
)
    requires
        state.anchor <= bytes.len(),
        state.focus <= bytes.len(),
        bytes.len() + 4 <= usize::MAX,
        0 <= previous <= state.focus,
    ensures
        edited(bytes, state, TextEdit::Insert(c), previous) == overwritten(
            bytes,
            state,
            encode_utf8(seq![c]),
        ),
        state.anchor != state.focus ==> edited(bytes, state, TextEdit::Backspace, previous)
            == overwritten(bytes, state, Seq::empty()),
        state.anchor == state.focus ==> {
            let (out, after) = edited(bytes, state, TextEdit::Backspace, previous);
            &&& out == bytes.take(previous) + bytes.skip(state.focus as int)
            &&& after.anchor == previous && after.focus == previous
        },
{
    if state.anchor == state.focus {
        let out = edited(bytes, state, TextEdit::Backspace, previous).0;
        assert(out =~= bytes.take(previous) + bytes.skip(state.focus as int));
    }
}

/// Typing a character and deleting it again with Backspace restores the text and
/// the caret.
pub proof fn backspace_undoes_typing(bytes: Seq<u8>, at: usize, c: char)
    requires
        at <= bytes.len(),
        bytes.len() + encode_utf8(seq![c]).len() <= usize::MAX,
    ensures
        ({
            let (typed_bytes, behind) = edited(bytes, State::caret(at as int), TextEdit::Insert(c), 0);
            let (out, after) = edited(typed_bytes, behind, TextEdit::Backspace, at as int);
            out == bytes && after.anchor == at && after.focus == at
        }),
{
    let (typed_bytes, behind) = edited(bytes, State::caret(at as int), TextEdit::Insert(c), 0);
    let (out, after) = edited(typed_bytes, behind, TextEdit::Backspace, at as int);
    assert(out =~= bytes);
}

/// Selecting everything selects every byte.
pub proof fn everything_is_selected(bytes: Seq<u8>, state: State, insertion: Seq<u8>)
    requires
        bytes.len() + insertion.len() <= usize::MAX,
    ensures
        overwritten(bytes, all_selected(bytes, state), insertion).0 == insertion,
        lesser(all_selected(bytes, state).anchor, all_selected(bytes, state).focus) == 0,
        greater(all_selected(bytes, state).anchor, all_selected(bytes, state).focus)
            == bytes.len(),
{
    let out = overwritten(bytes, all_selected(bytes, state), insertion).0;
    assert(out =~= insertion);
}

/// The digit keys type their digits in order, zero last.
pub proof fn digit_keys_type_digits(code: int)
    ensures
        2 <= code <= 10 ==> plain(code) is Some && (plain(code)->0) as u32 == 47 + code,
        code == 11 ==> plain(code) == Some('0'),
{
    reveal_strlit("1234567890");
}

/// The letter keys type the letters of their row from left to right.
pub proof fn letter_keys_type_their_rows(i: int)
    ensures
        0 <= i < 10 ==> plain(16 + i) == Some(
            seq!['q', 'w', 'e', 'r', 't', 'y', 'u', 'i', 'o', 'p'][i],
        ),
        0 <= i < 9 ==> plain(30 + i) == Some(
            seq!['a', 's', 'd', 'f', 'g', 'h', 'j', 'k', 'l'][i],
        ),
        0 <= i < 7 ==> plain(44 + i) == Some(seq!['z', 'x', 'c', 'v', 'b', 'n', 'm'][i]),
        plain(57) == Some(' '),
{
    reveal_strlit("qwertyuiop[]");
    reveal_strlit("asdfghjkl;'`");
    reveal_strlit("zxcvbnm,./");
}

/// The keys of the marks type one mark alone and another one with shift.
pub proof fn mark_keys_type_their_marks(i: int)
    ensures
        0 <= i < 12 ==> shifted(2 + i) == Some(
            seq!['!', '@', '#', '$', '%', '^', '&', '*', '(', ')', '_', '+'][i],
        ),
        plain(12) == Some('-') && plain(13) == Some('='),
        plain(26) == Some('[') && shifted(26) == Some('{'),
        plain(27) == Some(']') && shifted(27) == Some('}'),
        plain(39) == Some(';') && shifted(39) == Some(':'),
        plain(40) == Some('\'') && shifted(40) == Some('"'),
        plain(41) == Some('`') && shifted(41) == Some('~'),
        plain(43) == Some('\\') && shifted(43) == Some('|'),
        plain(51) == Some(',') && shifted(51) == Some('<'),
        plain(52) == Some('.') && shifted(52) == Some('>'),
        plain(53) == Some('/') && shifted(53) == Some('?'),
{
    reveal_strlit("1234567890");
    reveal_strlit("!@#$%^&*()_+");
    reveal_strlit("qwertyuiop[]");
    reveal_strlit("asdfghjkl;'`");
    reveal_strlit("zxcvbnm,./");
}

/// No other key types anything, and no two keys type the same character.
pub proof fn keys_type_different_characters(a: int, b: int, m: Modifiers)
    ensures
        plain(a) is Some && plain(b) is Some && plain(a) == plain(b) ==> a == b,
        a < 2 || a == 14 || a == 15 || a == 28 || a == 29 || a == 42 || 54 <= a < 57 || a > 57
            ==> typed(a, m) is None,
{
    reveal_strlit("1234567890");
    reveal_strlit("qwertyuiop[]");
    reveal_strlit("asdfghjkl;'`");
    reveal_strlit("zxcvbnm,./");
}

/// Letters are capital with exactly one of shift and caps lock, caps lock leaves
/// every other key alone, and shift picks the upper mark where there is one.
pub proof fn shift_and_caps_choose_the_case(code: int, m: Modifiers)
    requires
        plain(code) is Some,
    ensures
        ({
            let c = plain(code)->0;
            &&& 97 <= c as u32 <= 122 && m.shift != m.caps ==> typed(code, m) is Some && (typed(
                code,
                m,
            )->0) as u32 == c as u32 - 32
            &&& 97 <= c as u32 <= 122 && m.shift == m.caps ==> typed(code, m) == Some(c)
            &&& !(97 <= c as u32 <= 122) && !m.shift ==> typed(code, m) == Some(c)
            &&& !(97 <= c as u32 <= 122) && m.shift && shifted(code) is Some ==> typed(code, m)
                == shifted(code)
            &&& !(97 <= c as u32 <= 122) && m.shift && shifted(code) is None ==> typed(code, m)
                == Some(c)
        }),
{
    reveal_strlit("1234567890");
    reveal_strlit("qwertyuiop[]");
    reveal_strlit("asdfghjkl;'`");
    reveal_strlit("zxcvbnm,./");
}

/// A held key edits with every repeat and not when it is released; Backspace
/// deletes, every printing key inserts what it types, and nothing else edits.
pub proof fn pressed_keys_edit(code: u32, value: i32, m: Modifiers)
    requires
        code <= 0xffff,
    ensures
        value == 0 ==> intent(code, value, m) is None,
        value != 0 && code == 14 ==> intent(code, value, m) == Some(TextEdit::Backspace),
        value != 0 && code != 14 ==> intent(code, value, m) == (match typed(code as int, m) {
            Some(c) => Some(TextEdit::Insert(c)),
            None => None,
        }),
{
}

/// Each modifier key holds its own modifier down from press to release and
/// changes no other; caps lock turns over with every press.
pub proof fn modifier_keys_hold_their_modifier(m: Modifiers, code: u32, value: i32)
    ensures
        ({
            let after = latched(m, code, value);
            &&& after.shift == (if code == 42 || code == 54 {
                value != 0
            } else {
                m.shift
            })
            &&& after.control == (if code == 29 || code == 97 {
                value != 0
            } else {
                m.control
            })
            &&& after.alt == (if code == 56 || code == 100 {
                value != 0
            } else {
                m.alt
            })
            &&& after.super_key == (if code == 125 || code == 126 {
                value != 0
            } else {
                m.super_key
            })
            &&& after.caps == (if code == 58 && value == 1 {
                !m.caps
            } else {
                m.caps
            })
        }),
{
}

} // verus!
