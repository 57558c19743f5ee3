//! Keyboard input to the byte sequences a VT terminal expects on its input.
use vstd::prelude::*;
use vstd::string::*;
use vstd::utf8::encode_utf8;

verus! {

/// The keys that have a name rather than a character, as far as the terminal
/// cares about them; every other named key is `Other`.
#[derive(Debug, Clone, Copy, PartialEq, Eq, Structural)]
pub enum NamedKey {
    Enter,
    Tab,
    Backspace,
    Escape,
    Insert,
    Delete,
    PageUp,
    PageDown,
    ArrowUp,
    ArrowDown,
    ArrowRight,
    ArrowLeft,
    Home,
    End,
    F1,
    F2,
    F3,
    F4,
    F5,
    F6,
    F7,
    F8,
    F9,
    F10,
    F11,
    F12,
    Other,
}

/// The logical key of a key event: a named key, the text of a character key, or
/// a key the terminal has no use for.
#[derive(Debug, Clone)]
pub enum Key {
    Named(NamedKey),
    Character(String),
    Unidentified,
}

/// Which modifier keys are held.
#[derive(Debug, Clone, Copy, PartialEq, Eq, Structural)]
pub struct ModifiersState {
    pub ctrl: bool,
    pub alt: bool,
    pub shift: bool,
}

impl ModifiersState {
    /// No modifier held.
    pub fn empty() -> (m: Self)
        ensures
            !m.ctrl && !m.alt && !m.shift,
    {
        ModifiersState { ctrl: false, alt: false, shift: false }
    }

    pub fn control_key(&self) -> (b: bool)
        ensures
            b == self.ctrl,
    {
        self.ctrl
    }

    pub fn alt_key(&self) -> (b: bool)
        ensures
            b == self.alt,
    {
        self.alt
    }

    pub fn shift_key(&self) -> (b: bool)
        ensures
            b == self.shift,
    {
        self.shift
    }
}

/// A key event: whether the key went down (or repeats) and which logical key it is.
#[derive(Debug, Clone)]
pub struct KeyEvent {
    pub pressed: bool,
    pub logical_key: Key,
}

pub const ESC: u8 = 0x1b;

/// The xterm modifier parameter: `1 + shift + 2 alt + 4 ctrl`, or 0 with no modifier.
pub open spec fn modifier_code(ctrl: bool, alt: bool, shift: bool) -> int {
    let m = (if shift { 1int } else { 0 }) + (if alt { 2int } else { 0 }) + (if ctrl { 4int } else { 0 });
    if m == 0 { 0 } else { m + 1 }
}

/// The ASCII digit of a number below ten.
pub open spec fn digit(m: int) -> u8 {
    (0x30 + m) as u8
}

/// `CSI <final>`, or `CSI 1 ; <mod> <final>` with modifiers.
pub open spec fn csi_mod_bytes(final_byte: u8, ctrl: bool, alt: bool, shift: bool) -> Seq<u8> {
    let m = modifier_code(ctrl, alt, shift);
    if m == 0 {
        seq![ESC, 0x5bu8, final_byte]
    } else {
        seq![ESC, 0x5bu8, 0x31u8, 0x3bu8, digit(m), final_byte]
    }
}

/// `CSI <num> ~`, or `CSI <num> ; <mod> ~` with modifiers.
pub open spec fn tilde_bytes(num: u8, ctrl: bool, alt: bool, shift: bool) -> Seq<u8> {
    let m = modifier_code(ctrl, alt, shift);
    if m == 0 {
        seq![ESC, 0x5bu8, num, 0x7eu8]
    } else {
        seq![ESC, 0x5bu8, num, 0x3bu8, digit(m), 0x7eu8]
    }
}

/// The final byte of an arrow key's sequence.
pub open spec fn arrow_byte(key: NamedKey) -> Option<u8> {
    match key {
        NamedKey::ArrowUp => Some(0x41u8),
        NamedKey::ArrowDown => Some(0x42u8),
        NamedKey::ArrowRight => Some(0x43u8),
        NamedKey::ArrowLeft => Some(0x44u8),
        _ => None,
    }
}

/// The final byte of Home's and End's sequences.
pub open spec fn home_end_byte(key: NamedKey) -> Option<u8> {
    match key {
        NamedKey::Home => Some(0x48u8),
        NamedKey::End => Some(0x46u8),
        _ => None,
    }
}

/// The number in the sequence of a tilde-style key.
pub open spec fn tilde_digit(key: NamedKey) -> Option<u8> {
    match key {
        NamedKey::Insert => Some(0x32u8),
        NamedKey::Delete => Some(0x33u8),
        NamedKey::PageUp => Some(0x35u8),
        NamedKey::PageDown => Some(0x36u8),
        _ => None,
    }
}

/// The sequence of a function key.
pub open spec fn function_bytes(key: NamedKey) -> Option<Seq<u8>> {
    match key {
        NamedKey::F1 => Some(seq![ESC, 0x4fu8, 0x50u8]),
        NamedKey::F2 => Some(seq![ESC, 0x4fu8, 0x51u8]),
        NamedKey::F3 => Some(seq![ESC, 0x4fu8, 0x52u8]),
        NamedKey::F4 => Some(seq![ESC, 0x4fu8, 0x53u8]),
        NamedKey::F5 => Some(seq![ESC, 0x5bu8, 0x31u8, 0x35u8, 0x7eu8]),
        NamedKey::F6 => Some(seq![ESC, 0x5bu8, 0x31u8, 0x37u8, 0x7eu8]),
        NamedKey::F7 => Some(seq![ESC, 0x5bu8, 0x31u8, 0x38u8, 0x7eu8]),
        NamedKey::F8 => Some(seq![ESC, 0x5bu8, 0x31u8, 0x39u8, 0x7eu8]),
        NamedKey::F9 => Some(seq![ESC, 0x5bu8, 0x32u8, 0x30u8, 0x7eu8]),
        NamedKey::F10 => Some(seq![ESC, 0x5bu8, 0x32u8, 0x31u8, 0x7eu8]),
        NamedKey::F11 => Some(seq![ESC, 0x5bu8, 0x32u8, 0x33u8, 0x7eu8]),
        NamedKey::F12 => Some(seq![ESC, 0x5bu8, 0x32u8, 0x34u8, 0x7eu8]),
        _ => None,
    }
}

/// What a named key sends.
pub open spec fn named_bytes(key: NamedKey, ctrl: bool, alt: bool, shift: bool) -> Option<Seq<u8>> {
    match key {
        NamedKey::Enter => Some(seq![0x0du8]),
        NamedKey::Tab => if shift { Some(seq![ESC, 0x5bu8, 0x5au8]) } else { Some(seq![0x09u8]) },
        NamedKey::Backspace => Some(seq![0x7fu8]),
        NamedKey::Escape => Some(seq![ESC]),
        _ => if arrow_byte(key) is Some {
            Some(csi_mod_bytes(arrow_byte(key)->0, ctrl, alt, shift))
        } else if home_end_byte(key) is Some {
            Some(csi_mod_bytes(home_end_byte(key)->0, ctrl, alt, shift))
        } else if tilde_digit(key) is Some {
            Some(tilde_bytes(tilde_digit(key)->0, ctrl, alt, shift))
        } else {
            function_bytes(key)
        },
    }
}

/// The control code that Ctrl sends with a character, where there is one.
pub open spec fn control_code(ch: char) -> Option<u8> {
    if 'a' <= ch <= 'z' {
        Some((ch as int - 'a' as int + 1) as u8)
    } else if 'A' <= ch <= 'Z' {
        Some((ch as int - 'A' as int + 1) as u8)
    } else if ch == '@' || ch == '2' {
        Some(0u8)
    } else if ch == '[' {
        Some(0x1bu8)
    } else if ch == '\\' {
        Some(0x1cu8)
    } else if ch == ']' {
        Some(0x1du8)
    } else if ch == '^' || ch == '6' {
        Some(0x1eu8)
    } else if ch == '_' || ch == '-' {
        Some(0x1fu8)
    } else {
        None
    }
}

/// What a character key with the text `s` sends. Plain text sends nothing here:
/// the caller types the event's text instead.
pub open spec fn char_bytes(s: Seq<char>, ctrl: bool, alt: bool) -> Option<Seq<u8>> {
    if s.len() == 0 {
        None
    } else if ctrl && control_code(s[0]) is Some {
        if alt {
            Some(seq![ESC, control_code(s[0])->0])
        } else {
            Some(seq![control_code(s[0])->0])
        }
    } else if alt {
        Some(seq![ESC] + encode_utf8(s))
    } else {
        None
    }
}

/// What a logical key sends with the given modifiers.
pub open spec fn key_bytes(key: Key, modifiers: ModifiersState) -> Option<Seq<u8>> {
    match key {
        Key::Named(named) => named_bytes(named, modifiers.ctrl, modifiers.alt, modifiers.shift),
        Key::Character(s) => char_bytes(s@, modifiers.ctrl, modifiers.alt),
        Key::Unidentified => None,
    }
}

/// The view of an optional byte vector.
pub open spec fn bytes_view(v: Option<Vec<u8>>) -> Option<Seq<u8>> {
    match v {
        Some(b) => Some(b@),
        None => None,
    }
}

/// Convert a key event (with modifier state) into the VT byte sequence that
/// should be sent to the terminal.
///
/// Returns `None` when the key event does not map to any terminal input
/// (e.g. key releases, or unrecognised keys).
pub fn key_event_to_bytes(event: &KeyEvent, modifiers: ModifiersState) -> (r: Option<Vec<u8>>)
    ensures
        bytes_view(r) == if event.pressed { key_bytes(event.logical_key, modifiers) } else { None },
{
    // Only handle key presses (including repeat)
    if !event.pressed {
        return None;
    }
    logical_key_to_bytes(&event.logical_key, modifiers)
}

/// Convert a logical key plus modifiers into VT bytes.
pub fn logical_key_to_bytes(key: &Key, modifiers: ModifiersState) -> (r: Option<Vec<u8>>)
    ensures
        bytes_view(r) == key_bytes(*key, modifiers),
{
    let ctrl = modifiers.control_key();
    let alt = modifiers.alt_key();
    let shift = modifiers.shift_key();
    match key {
        Key::Named(named) => named_key_to_bytes(*named, ctrl, alt, shift),
        Key::Character(ch) => char_key_to_bytes(ch.as_str(), ctrl, alt),
        Key::Unidentified => None,
    }
}

/// Map a named (non-character) key to VT bytes.
pub fn named_key_to_bytes(key: NamedKey, ctrl: bool, alt: bool, shift: bool) -> (r: Option<Vec<u8>>)
    ensures
        bytes_view(r) == named_bytes(key, ctrl, alt, shift),
{
    let no_mods = !has_modifier(ctrl, alt, shift);
    // Simple keys without modifier awareness
    let simple: Option<Vec<u8>> = match key {
        NamedKey::Enter => Some(vec![0x0du8]),
        NamedKey::Tab => if !shift { Some(vec![0x09u8]) } else { Some(vec![ESC, 0x5bu8, 0x5au8]) },
        NamedKey::Backspace => Some(vec![0x7fu8]),
        NamedKey::Escape => Some(vec![ESC]),
        NamedKey::Insert => if no_mods { Some(vec![ESC, 0x5bu8, 0x32u8, 0x7eu8]) } else { None },
        NamedKey::Delete => if no_mods { Some(vec![ESC, 0x5bu8, 0x33u8, 0x7eu8]) } else { None },
        NamedKey::PageUp => if no_mods { Some(vec![ESC, 0x5bu8, 0x35u8, 0x7eu8]) } else { None },
        NamedKey::PageDown => if no_mods { Some(vec![ESC, 0x5bu8, 0x36u8, 0x7eu8]) } else { None },
        _ => None,
    };
    if simple.is_some() {
        proof {
            assert(bytes_view(simple) =~= named_bytes(key, ctrl, alt, shift));
        }
        return simple;
    }
    // Arrow keys with modifier support:  CSI 1 ; <mod> <final>
    if let Some(arrow_ch) = arrow_final(key) {
        return Some(csi_with_modifiers(arrow_ch, ctrl, alt, shift));
    }
    // Home / End with modifier support
    if let Some(final_ch) = home_end_final(key) {
        return Some(csi_with_modifiers(final_ch, ctrl, alt, shift));
    }
    // Tilde-style keys with modifiers (Insert, Delete, PageUp, PageDown)
    if let Some(tilde_num) = tilde_number(key) {
        return Some(tilde_with_modifiers(tilde_num, ctrl, alt, shift));
    }
    // Function keys
    function_key_bytes(key)
}

/// Map a character key to VT bytes, handling Ctrl and Alt modifiers.
pub fn char_key_to_bytes(s: &str, ctrl: bool, alt: bool) -> (r: Option<Vec<u8>>)
    ensures
        bytes_view(r) == char_bytes(s@, ctrl, alt),
{
    if s.is_empty() {
        return None;
    }
    // Ctrl+letter -> ASCII control code
    if ctrl {
        let ch = s.get_char(0);
        if let Some(code) = ctrl_code(ch) {
            return if alt {
                Some(vec![ESC, code])
            } else {
                Some(vec![code])
            };
        }
    }
    // Alt+key -> ESC prefix + character bytes
    if alt {
        let text = s.as_bytes();
        let mut bytes: Vec<u8> = vec![ESC];
        let mut i: usize = 0;
        while i < text.len()
            invariant
                0 <= i <= text@.len(),
                bytes@ == seq![ESC] + text@.take(i as int),
            decreases text@.len() - i,
        {
            bytes.push(text[i]);
            proof {
                assert(text@.take(i + 1) =~= text@.take(i as int).push(text@[i as int]));
            }
            i = i + 1;
        }
        proof {
            assert(text@.take(i as int) =~= text@);
        }
        return Some(bytes);
    }
    // Plain text: the caller types the event's text itself.
    None
}

/// Compute the ASCII control code for Ctrl+<char>.
/// Works for a-z, @, \[, \\, \], ^, _
pub fn ctrl_code(ch: char) -> (r: Option<u8>)
    ensures
        r == control_code(ch),
{
    if 'a' <= ch && ch <= 'z' {
        Some((ch as u32 - 'a' as u32 + 1) as u8)
    } else if 'A' <= ch && ch <= 'Z' {
        Some((ch as u32 - 'A' as u32 + 1) as u8)
    } else if ch == '@' || ch == '2' {
        Some(0)
    } else if ch == '[' {
        Some(0x1b)
    } else if ch == '\\' {
        Some(0x1c)
    } else if ch == ']' {
        Some(0x1d)
    } else if ch == '^' || ch == '6' {
        Some(0x1e)
    } else if ch == '_' || ch == '-' {
        Some(0x1f)
    } else {
        None
    }
}

fn arrow_final(key: NamedKey) -> (r: Option<u8>)
    ensures
        r == arrow_byte(key),
{
    match key {
        NamedKey::ArrowUp => Some(0x41),
        NamedKey::ArrowDown => Some(0x42),
        NamedKey::ArrowRight => Some(0x43),
        NamedKey::ArrowLeft => Some(0x44),
        _ => None,
    }
}

fn home_end_final(key: NamedKey) -> (r: Option<u8>)
    ensures
        r == home_end_byte(key),
{
    match key {
        NamedKey::Home => Some(0x48),
        NamedKey::End => Some(0x46),
        _ => None,
    }
}

/// Encode `CSI <final>` or `CSI 1 ; <mod> <final>` depending on modifiers.
pub fn csi_with_modifiers(final_byte: u8, ctrl: bool, alt: bool, shift: bool) -> (v: Vec<u8>)
    ensures
        v@ == csi_mod_bytes(final_byte, ctrl, alt, shift),
{
    let mod_param = modifier_param(ctrl, alt, shift);
    if mod_param == 0 {
        vec![ESC, 0x5b, final_byte]
    } else {
        let v = vec![ESC, 0x5b, 0x31, 0x3b, 0x30 + mod_param, final_byte];
        proof {
            assert(v@ =~= csi_mod_bytes(final_byte, ctrl, alt, shift));
        }
        v
    }
}

fn tilde_number(key: NamedKey) -> (r: Option<u8>)
    ensures
        r == tilde_digit(key),
{
    match key {
        NamedKey::Insert => Some(0x32),
        NamedKey::Delete => Some(0x33),
        NamedKey::PageUp => Some(0x35),
        NamedKey::PageDown => Some(0x36),
        _ => None,
    }
}

/// Encode `CSI <num> ~` or `CSI <num> ; <mod> ~` depending on modifiers.
pub fn tilde_with_modifiers(num: u8, ctrl: bool, alt: bool, shift: bool) -> (v: Vec<u8>)
    ensures
        v@ == tilde_bytes(num, ctrl, alt, shift),
{
    let mod_param = modifier_param(ctrl, alt, shift);
    if mod_param == 0 {
        vec![ESC, 0x5b, num, 0x7e]
    } else {
        let v = vec![ESC, 0x5b, num, 0x3b, 0x30 + mod_param, 0x7e];
        proof {
            assert(v@ =~= tilde_bytes(num, ctrl, alt, shift));
        }
        v
    }
}

fn function_key_bytes(key: NamedKey) -> (r: Option<Vec<u8>>)
    ensures
        bytes_view(r) == function_bytes(key),
{
    let r: Option<Vec<u8>> = match key {
        NamedKey::F1 => Some(vec![ESC, 0x4f, 0x50]),
        NamedKey::F2 => Some(vec![ESC, 0x4f, 0x51]),
        NamedKey::F3 => Some(vec![ESC, 0x4f, 0x52]),
        NamedKey::F4 => Some(vec![ESC, 0x4f, 0x53]),
        NamedKey::F5 => Some(vec![ESC, 0x5b, 0x31, 0x35, 0x7e]),
        NamedKey::F6 => Some(vec![ESC, 0x5b, 0x31, 0x37, 0x7e]),
        NamedKey::F7 => Some(vec![ESC, 0x5b, 0x31, 0x38, 0x7e]),
        NamedKey::F8 => Some(vec![ESC, 0x5b, 0x31, 0x39, 0x7e]),
        NamedKey::F9 => Some(vec![ESC, 0x5b, 0x32, 0x30, 0x7e]),
        NamedKey::F10 => Some(vec![ESC, 0x5b, 0x32, 0x31, 0x7e]),
        NamedKey::F11 => Some(vec![ESC, 0x5b, 0x32, 0x33, 0x7e]),
        NamedKey::F12 => Some(vec![ESC, 0x5b, 0x32, 0x34, 0x7e]),
        _ => None,
    };
    proof {
        assert(bytes_view(r) =~= function_bytes(key));
    }
    r
}

/// Returns the xterm-style modifier parameter (2-8), or 0 for no modifiers.
///
/// The encoding is: `1 + (shift ? 1 : 0) + (alt ? 2 : 0) + (ctrl ? 4 : 0)`.
pub fn modifier_param(ctrl: bool, alt: bool, shift: bool) -> (m: u8)
    ensures
        m == modifier_code(ctrl, alt, shift),
{
    let mut m: u8 = 0;
    if shift {
        m += 1;
    }
    if alt {
        m += 2;
    }
    if ctrl {
        m += 4;
    }
    if m == 0 {
        0
    } else {
        m + 1
    }
}

/// Whether any modifier is held.
pub fn has_modifier(ctrl: bool, alt: bool, shift: bool) -> (b: bool)
    ensures
        b == (ctrl || alt || shift),
{
    ctrl || alt || shift
}

/// The modifier parameter is 0 exactly when no modifier is held, lies in 2..=8
/// otherwise, and tells every combination of modifiers apart.
pub proof fn lemma_modifier_code(c1: bool, a1: bool, s1: bool, c2: bool, a2: bool, s2: bool)
    ensures
        modifier_code(c1, a1, s1) == 0 <==> !(c1 || a1 || s1),
        (c1 || a1 || s1) ==> 2 <= modifier_code(c1, a1, s1) <= 8,
        modifier_code(c1, a1, s1) == modifier_code(c2, a2, s2) ==> c1 == c2 && a1 == a2 && s1 == s2,
{
}


/// `CSI n ~` for a two-digit `n`: escape, `[`, the decimal digits of `n`, `~`.
pub open spec fn csi_two_digit_tilde(n: int) -> Seq<u8> {
    seq![ESC, 0x5bu8, (0x30 + n / 10) as u8, (0x30 + n % 10) as u8, 0x7eu8]
}

/// Function keys send the xterm sequences, whatever the modifiers: F1 to F4
/// send `SS3 P` to `SS3 S`, and F5 to F12 send `CSI n ~` with n = 15, 17, 18,
/// 19, 20, 21, 23, 24.
pub proof fn lemma_function_keys_xterm(ctrl: bool, alt: bool, shift: bool)
    ensures
        named_bytes(NamedKey::F1, ctrl, alt, shift) == Some(seq![ESC, 0x4fu8, 0x50u8]),
        named_bytes(NamedKey::F2, ctrl, alt, shift) == Some(seq![ESC, 0x4fu8, 0x51u8]),
        named_bytes(NamedKey::F3, ctrl, alt, shift) == Some(seq![ESC, 0x4fu8, 0x52u8]),
        named_bytes(NamedKey::F4, ctrl, alt, shift) == Some(seq![ESC, 0x4fu8, 0x53u8]),
        named_bytes(NamedKey::F5, ctrl, alt, shift) == Some(csi_two_digit_tilde(15)),
        named_bytes(NamedKey::F6, ctrl, alt, shift) == Some(csi_two_digit_tilde(17)),
        named_bytes(NamedKey::F7, ctrl, alt, shift) == Some(csi_two_digit_tilde(18)),
        named_bytes(NamedKey::F8, ctrl, alt, shift) == Some(csi_two_digit_tilde(19)),
        named_bytes(NamedKey::F9, ctrl, alt, shift) == Some(csi_two_digit_tilde(20)),
        named_bytes(NamedKey::F10, ctrl, alt, shift) == Some(csi_two_digit_tilde(21)),
        named_bytes(NamedKey::F11, ctrl, alt, shift) == Some(csi_two_digit_tilde(23)),
        named_bytes(NamedKey::F12, ctrl, alt, shift) == Some(csi_two_digit_tilde(24)),
{
    assert(csi_two_digit_tilde(15) =~= seq![ESC, 0x5bu8, 0x31u8, 0x35u8, 0x7eu8]);
    assert(csi_two_digit_tilde(17) =~= seq![ESC, 0x5bu8, 0x31u8, 0x37u8, 0x7eu8]);
    assert(csi_two_digit_tilde(18) =~= seq![ESC, 0x5bu8, 0x31u8, 0x38u8, 0x7eu8]);
    assert(csi_two_digit_tilde(19) =~= seq![ESC, 0x5bu8, 0x31u8, 0x39u8, 0x7eu8]);
    assert(csi_two_digit_tilde(20) =~= seq![ESC, 0x5bu8, 0x32u8, 0x30u8, 0x7eu8]);
    assert(csi_two_digit_tilde(21) =~= seq![ESC, 0x5bu8, 0x32u8, 0x31u8, 0x7eu8]);
    assert(csi_two_digit_tilde(23) =~= seq![ESC, 0x5bu8, 0x32u8, 0x33u8, 0x7eu8]);
    assert(csi_two_digit_tilde(24) =~= seq![ESC, 0x5bu8, 0x32u8, 0x34u8, 0x7eu8]);
}

} // verus!
