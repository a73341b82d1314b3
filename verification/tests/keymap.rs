use lite_runtime::keymap::{character, plain_key, shifted_key, text_edit, Modifiers, TextEdit};

#[test]
fn shift_and_caps_uppercase_letters_exclusively() {
    let none = Modifiers::default();
    assert_eq!(character(30, none), Some('a')); // KEY_A
    let shift = Modifiers {
        shift: true,
        ..none
    };
    assert_eq!(character(30, shift), Some('A'));
    let caps = Modifiers { caps: true, ..none };
    assert_eq!(character(30, caps), Some('A'));
    let both = Modifiers {
        shift: true,
        caps: true,
        ..none
    };
    assert_eq!(character(30, both), Some('a'));
}

#[test]
fn symbols_use_the_shifted_table() {
    let shift = Modifiers {
        shift: true,
        ..Modifiers::default()
    };
    assert_eq!(character(2, shift), Some('!')); // KEY_1 -> !
    assert_eq!(character(2, Modifiers::default()), Some('1'));
}

#[test]
fn text_edit_maps_backspace_and_ignores_releases() {
    let none = Modifiers::default();
    assert_eq!(text_edit(14, 1, none), Some(TextEdit::Backspace));
    assert_eq!(text_edit(30, 1, none), Some(TextEdit::Insert('a')));
    assert_eq!(text_edit(30, 0, none), None); // release
    assert_eq!(text_edit(28, 1, none), None); // Enter is not a text edit
}

#[test]
fn modifier_keys_are_folded_not_emitted() {
    let mut modifiers = Modifiers::default();
    assert!(modifiers.apply(42, 1)); // left shift down
    assert!(modifiers.shift);
    assert!(!modifiers.apply(30, 1)); // a letter is not a modifier
    assert!(modifiers.apply(42, 0)); // shift up
    assert!(!modifiers.shift);
    assert!(modifiers.apply(125, 1)); // left super down
    assert!(modifiers.super_key);
    assert!(modifiers.apply(125, 0));
    assert!(!modifiers.super_key);
}

#[test]
fn key_tables_cover_the_same_keys() {
    assert_eq!(plain_key(57), Some(32));
    assert_eq!(plain_key(16), Some(113));
    assert_eq!(shifted_key(12), Some(95));
    assert_eq!(plain_key(200), None);
    assert_eq!(shifted_key(200), None);
}

#[test]
fn caps_lock_toggles_on_presses_only() {
    let mut modifiers = Modifiers::default();
    assert!(modifiers.apply(58, 1));
    assert!(modifiers.caps);
    modifiers.apply(58, 0);
    modifiers.apply(58, 2);
    assert!(modifiers.caps);
    modifiers.apply(58, 1);
    assert!(!modifiers.caps);
}
