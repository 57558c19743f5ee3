use clux::input::{
    char_key_to_bytes, csi_with_modifiers, ctrl_code, has_modifier, key_event_to_bytes, logical_key_to_bytes,
    modifier_param, named_key_to_bytes, tilde_with_modifiers, Key, KeyEvent, ModifiersState, NamedKey,
};

/// Helper: build a `Key::Named` and call `logical_key_to_bytes`.
fn named(key: NamedKey, mods: ModifiersState) -> Option<Vec<u8>> {
    logical_key_to_bytes(&Key::Named(key), mods)
}

/// Helper: build a `Key::Character` and call `logical_key_to_bytes`.
fn character(c: &str, mods: ModifiersState) -> Option<Vec<u8>> {
    logical_key_to_bytes(&Key::Character(c.to_string()), mods)
}

fn no_mods() -> ModifiersState {
    ModifiersState::empty()
}

fn ctrl() -> ModifiersState {
    ModifiersState { ctrl: true, alt: false, shift: false }
}

fn alt() -> ModifiersState {
    ModifiersState { ctrl: false, alt: true, shift: false }
}

fn shift() -> ModifiersState {
    ModifiersState { ctrl: false, alt: false, shift: true }
}

// --- Arrow keys ---

#[test]
fn arrow_up() {
    assert_eq!(
        named(NamedKey::ArrowUp, no_mods()),
        Some(b"\x1b[A".to_vec())
    );
}

#[test]
fn arrow_down() {
    assert_eq!(
        named(NamedKey::ArrowDown, no_mods()),
        Some(b"\x1b[B".to_vec())
    );
}

#[test]
fn arrow_right() {
    assert_eq!(
        named(NamedKey::ArrowRight, no_mods()),
        Some(b"\x1b[C".to_vec())
    );
}

#[test]
fn arrow_left() {
    assert_eq!(
        named(NamedKey::ArrowLeft, no_mods()),
        Some(b"\x1b[D".to_vec())
    );
}

// --- Ctrl + arrow ---

#[test]
fn ctrl_arrow_up() {
    assert_eq!(
        named(NamedKey::ArrowUp, ctrl()),
        Some(b"\x1b[1;5A".to_vec())
    );
}

#[test]
fn shift_arrow_right() {
    assert_eq!(
        named(NamedKey::ArrowRight, shift()),
        Some(b"\x1b[1;2C".to_vec())
    );
}

#[test]
fn alt_arrow_left() {
    assert_eq!(
        named(NamedKey::ArrowLeft, alt()),
        Some(b"\x1b[1;3D".to_vec())
    );
}

// --- Home / End ---

#[test]
fn home_key() {
    assert_eq!(named(NamedKey::Home, no_mods()), Some(b"\x1b[H".to_vec()));
}

#[test]
fn end_key() {
    assert_eq!(named(NamedKey::End, no_mods()), Some(b"\x1b[F".to_vec()));
}

// --- Page Up / Down ---

#[test]
fn page_up() {
    assert_eq!(
        named(NamedKey::PageUp, no_mods()),
        Some(b"\x1b[5~".to_vec())
    );
}

#[test]
fn page_down() {
    assert_eq!(
        named(NamedKey::PageDown, no_mods()),
        Some(b"\x1b[6~".to_vec())
    );
}

// --- Insert / Delete ---

#[test]
fn insert_key() {
    assert_eq!(
        named(NamedKey::Insert, no_mods()),
        Some(b"\x1b[2~".to_vec())
    );
}

#[test]
fn delete_key() {
    assert_eq!(
        named(NamedKey::Delete, no_mods()),
        Some(b"\x1b[3~".to_vec())
    );
}

// --- Simple keys ---

#[test]
fn enter_key() {
    assert_eq!(named(NamedKey::Enter, no_mods()), Some(b"\r".to_vec()));
}

#[test]
fn tab_key() {
    assert_eq!(named(NamedKey::Tab, no_mods()), Some(b"\t".to_vec()));
}

#[test]
fn shift_tab() {
    assert_eq!(named(NamedKey::Tab, shift()), Some(b"\x1b[Z".to_vec()));
}

#[test]
fn backspace_key() {
    assert_eq!(
        named(NamedKey::Backspace, no_mods()),
        Some(b"\x7f".to_vec())
    );
}

#[test]
fn escape_key() {
    assert_eq!(named(NamedKey::Escape, no_mods()), Some(b"\x1b".to_vec()));
}

// --- Function keys ---

#[test]
fn f1_key() {
    assert_eq!(named(NamedKey::F1, no_mods()), Some(b"\x1bOP".to_vec()));
}

#[test]
fn f5_key() {
    assert_eq!(named(NamedKey::F5, no_mods()), Some(b"\x1b[15~".to_vec()));
}

#[test]
fn f12_key() {
    assert_eq!(named(NamedKey::F12, no_mods()), Some(b"\x1b[24~".to_vec()));
}

// --- Ctrl + character ---

#[test]
fn ctrl_c() {
    assert_eq!(character("c", ctrl()), Some(vec![0x03]));
}

#[test]
fn ctrl_d() {
    assert_eq!(character("d", ctrl()), Some(vec![0x04]));
}

#[test]
fn ctrl_a() {
    assert_eq!(character("a", ctrl()), Some(vec![0x01]));
}

#[test]
fn ctrl_z() {
    assert_eq!(character("z", ctrl()), Some(vec![0x1a]));
}

// --- Alt + character ---

#[test]
fn alt_a() {
    assert_eq!(character("a", alt()), Some(vec![0x1b, b'a']));
}

// --- Plain text returns None (caller uses event.text) ---

#[test]
fn plain_char_returns_none() {
    assert_eq!(character("x", no_mods()), None);
}

// --- Modifier parameter encoding ---

#[test]
fn modifier_param_values() {
    assert_eq!(modifier_param(false, false, false), 0);
    assert_eq!(modifier_param(false, false, true), 2); // shift
    assert_eq!(modifier_param(false, true, false), 3); // alt
    assert_eq!(modifier_param(true, false, false), 5); // ctrl
    assert_eq!(modifier_param(true, true, true), 8); // all
}

// --- Ctrl + Alt ---

#[test]
fn ctrl_alt_a() {
    let mods = ModifiersState { ctrl: true, alt: true, shift: false };
    assert_eq!(character("a", mods), Some(vec![0x1b, 0x01]));
}

// --- Ctrl + Home ---

#[test]
fn ctrl_home() {
    assert_eq!(named(NamedKey::Home, ctrl()), Some(b"\x1b[1;5H".to_vec()));
}

// --- Shift + Delete (tilde with modifier) ---

#[test]
fn shift_delete() {
    assert_eq!(
        named(NamedKey::Delete, shift()),
        Some(b"\x1b[3;2~".to_vec())
    );
}

#[test]
fn released_key_sends_nothing() {
    let event = KeyEvent { pressed: false, logical_key: Key::Named(NamedKey::Enter) };
    assert_eq!(key_event_to_bytes(&event, no_mods()), None);
    let event = KeyEvent { pressed: true, logical_key: Key::Named(NamedKey::Enter) };
    assert_eq!(key_event_to_bytes(&event, no_mods()), Some(b"\r".to_vec()));
}

#[test]
fn unidentified_and_other_keys_send_nothing() {
    assert_eq!(logical_key_to_bytes(&Key::Unidentified, no_mods()), None);
    assert_eq!(named(NamedKey::Other, ctrl()), None);
}

#[test]
fn ctrl_codes_for_punctuation() {
    assert_eq!(ctrl_code('@'), Some(0));
    assert_eq!(ctrl_code('2'), Some(0));
    assert_eq!(ctrl_code('['), Some(0x1b));
    assert_eq!(ctrl_code('\\'), Some(0x1c));
    assert_eq!(ctrl_code(']'), Some(0x1d));
    assert_eq!(ctrl_code('^'), Some(0x1e));
    assert_eq!(ctrl_code('6'), Some(0x1e));
    assert_eq!(ctrl_code('_'), Some(0x1f));
    assert_eq!(ctrl_code('-'), Some(0x1f));
    assert_eq!(ctrl_code('Z'), Some(0x1a));
    assert_eq!(ctrl_code('!'), None);
}

#[test]
fn ctrl_with_char_without_code_falls_back() {
    assert_eq!(char_key_to_bytes("!", true, false), None);
    assert_eq!(char_key_to_bytes("!", true, true), Some(vec![0x1b, b'!']));
    assert_eq!(char_key_to_bytes("", true, true), None);
}

#[test]
fn alt_with_multibyte_text() {
    assert_eq!(char_key_to_bytes("é", false, true), Some(vec![0x1b, 0xc3, 0xa9]));
}

#[test]
fn modifier_param_every_combination_distinct() {
    let mut seen = Vec::new();
    for bits in 0u8..8 {
        let (c, a, s) = (bits & 4 != 0, bits & 2 != 0, bits & 1 != 0);
        let m = modifier_param(c, a, s);
        assert_eq!(m == 0, !has_modifier(c, a, s));
        assert!(m == 0 || (2..=8).contains(&m));
        assert!(!seen.contains(&m));
        seen.push(m);
    }
}

#[test]
fn csi_and_tilde_encodings() {
    assert_eq!(csi_with_modifiers(b'A', false, false, false), b"\x1b[A".to_vec());
    assert_eq!(csi_with_modifiers(b'A', true, true, true), b"\x1b[1;8A".to_vec());
    assert_eq!(tilde_with_modifiers(b'5', false, false, false), b"\x1b[5~".to_vec());
    assert_eq!(tilde_with_modifiers(b'6', true, false, false), b"\x1b[6;5~".to_vec());
}

#[test]
fn function_keys_and_tab_with_ctrl() {
    assert_eq!(named_key_to_bytes(NamedKey::F2, false, false, false), Some(b"\x1bOQ".to_vec()));
    assert_eq!(named_key_to_bytes(NamedKey::F11, true, false, false), Some(b"\x1b[23~".to_vec()));
    assert_eq!(named_key_to_bytes(NamedKey::Tab, true, false, true), Some(b"\x1b[Z".to_vec()));
    assert_eq!(named_key_to_bytes(NamedKey::PageUp, false, true, false), Some(b"\x1b[5;3~".to_vec()));
}
