//! Escape-sequence handling: what each parsed control function does to a
//! `TerminalBuffer`. The byte-level parser that recognises the sequences lives
//! outside the library and calls these functions.
use vstd::prelude::*;

use crate::buffer::{BufferModel, Color, TerminalBuffer};

verus! {

/// ANSI color palette (basic 8 + bright 8).
pub open spec fn ansi_color(i: int) -> Color {
    if i == 0 {
        Color { r: 0, g: 0, b: 0 }
    } else if i == 1 {
        Color { r: 170, g: 0, b: 0 }
    } else if i == 2 {
        Color { r: 0, g: 170, b: 0 }
    } else if i == 3 {
        Color { r: 170, g: 170, b: 0 }
    } else if i == 4 {
        Color { r: 0, g: 0, b: 170 }
    } else if i == 5 {
        Color { r: 170, g: 0, b: 170 }
    } else if i == 6 {
        Color { r: 0, g: 170, b: 170 }
    } else if i == 7 {
        Color { r: 170, g: 170, b: 170 }
    } else if i == 8 {
        Color { r: 85, g: 85, b: 85 }
    } else if i == 9 {
        Color { r: 255, g: 85, b: 85 }
    } else if i == 10 {
        Color { r: 85, g: 255, b: 85 }
    } else if i == 11 {
        Color { r: 255, g: 255, b: 85 }
    } else if i == 12 {
        Color { r: 85, g: 85, b: 255 }
    } else if i == 13 {
        Color { r: 255, g: 85, b: 255 }
    } else if i == 14 {
        Color { r: 85, g: 255, b: 255 }
    } else {
        Color { r: 255, g: 255, b: 255 }
    }
}

/// Entry `i` of the 16-colour ANSI palette.
pub fn ansi_palette(i: usize) -> (c: Color)
    requires
        i < 16,
    ensures
        c == ansi_color(i as int),
{
    match i {
        0 => Color::new(0, 0, 0),
        1 => Color::new(170, 0, 0),
        2 => Color::new(0, 170, 0),
        3 => Color::new(170, 170, 0),
        4 => Color::new(0, 0, 170),
        5 => Color::new(170, 0, 170),
        6 => Color::new(0, 170, 170),
        7 => Color::new(170, 170, 170),
        8 => Color::new(85, 85, 85),
        9 => Color::new(255, 85, 85),
        10 => Color::new(85, 255, 85),
        11 => Color::new(255, 255, 85),
        12 => Color::new(85, 85, 255),
        13 => Color::new(255, 85, 255),
        14 => Color::new(85, 255, 255),
        _ => Color::new(255, 255, 255),
    }
}

/// Colour `idx` of the 256-colour table: the 16 ANSI colours, a 6x6x6 cube with
/// steps of 51, then a grey ramp from 8 in steps of 10 (wrapping past 255).
pub open spec fn color_256(idx: int) -> Color {
    if idx < 16 {
        ansi_color(idx)
    } else if idx < 232 {
        Color {
            r: (((idx - 16) / 36) * 51) as u8,
            g: ((((idx - 16) / 6) % 6) * 51) as u8,
            b: (((idx - 16) % 6) * 51) as u8,
        }
    } else {
        let v = (((idx - 232) * 10 + 8) % 256) as u8;
        Color { r: v, g: v, b: v }
    }
}

/// 256-color (`5;n`) or TrueColor (`2;r;g;b`) after the selector at `params[0]`:
/// the colour and how many parameters it took.
pub open spec fn extended_color(params: Seq<u16>) -> Option<(Color, usize)> {
    if params.len() < 2 {
        None
    } else if params[1] == 5 && params.len() >= 3 {
        Some((color_256(params[2] as int), 3))
    } else if params[1] == 2 && params.len() >= 5 {
        Some(
            (
                Color {
                    r: (params[2] % 256) as u8,
                    g: (params[3] % 256) as u8,
                    b: (params[4] % 256) as u8,
                },
                5,
            ),
        )
    } else {
        None
    }
}

/// Parse 256-color (5;n) or `TrueColor` (2;r;g;b) sequences.
/// Returns (Color, `number_of_params_consumed`) or None.
pub fn parse_extended_color(params: &[u16]) -> (res: Option<(Color, usize)>)
    ensures
        res == extended_color(params@),
{
    if params.len() < 2 {
        return None;
    }
    if params[1] == 5 && params.len() >= 3 {
        // 256 color
        let idx = params[2] as usize;
        let color = if idx < 16 {
            ansi_palette(idx)
        } else if idx < 232 {
            // 216 color cube
            let i = idx - 16;
            assert(i / 36 <= 5 && (i / 6) % 6 <= 5 && i % 6 <= 5) by (nonlinear_arith)
                requires
                    i < 216,
            ;
            let r = (i / 36) * 51;
            let g = ((i / 6) % 6) * 51;
            let b = (i % 6) * 51;
            Color::new(r as u8, g as u8, b as u8)
        } else {
            // Grayscale
            let w = (idx - 232) * 10 + 8;
            let v = (w % 256) as u8;
            Color::new(v, v, v)
        };
        Some((color, 3))
    } else if params[1] == 2 && params.len() >= 5 {
        // TrueColor
        let r = (params[2] % 256) as u8;
        let g = (params[3] % 256) as u8;
        let b = (params[4] % 256) as u8;
        Some((Color::new(r, g, b), 5))
    } else {
        None
    }
}


/// One SGR parameter at `params[i]` applied to `m`: the new state and the index of
/// the next parameter.
pub open spec fn sgr_step(m: BufferModel, params: Seq<u16>, i: int) -> (BufferModel, int) {
    let c = params[i];
    if c == 0 {
        (m.reset_attrs(), i + 1)
    } else if c == 1 {
        (m.set_bold(true), i + 1)
    } else if c == 3 {
        (m.set_italic(true), i + 1)
    } else if c == 4 {
        (m.set_underline(true), i + 1)
    } else if c == 7 {
        (m.set_inverse(true), i + 1)
    } else if c == 22 {
        (m.set_bold(false), i + 1)
    } else if c == 23 {
        (m.set_italic(false), i + 1)
    } else if c == 24 {
        (m.set_underline(false), i + 1)
    } else if c == 27 {
        (m.set_inverse(false), i + 1)
    } else if 30 <= c <= 37 {
        (m.set_fg(ansi_color(c - 30)), i + 1)
    } else if c == 39 {
        (m.set_fg(m.default_fg), i + 1)
    } else if 40 <= c <= 47 {
        (m.set_bg(ansi_color(c - 40)), i + 1)
    } else if c == 49 {
        (m.set_bg(m.default_bg), i + 1)
    } else if 90 <= c <= 97 {
        (m.set_fg(ansi_color(c - 90 + 8)), i + 1)
    } else if 100 <= c <= 107 {
        (m.set_bg(ansi_color(c - 100 + 8)), i + 1)
    } else if c == 38 {
        match extended_color(params.skip(i)) {
            Some((color, k)) => (m.set_fg(color), i + k),
            None => (m, i + 1),
        }
    } else if c == 48 {
        match extended_color(params.skip(i)) {
            Some((color, k)) => (m.set_bg(color), i + k),
            None => (m, i + 1),
        }
    } else {
        (m, i + 1)
    }
}

/// The SGR parameters from `params[i]` on applied in order.
pub open spec fn sgr_from(m: BufferModel, params: Seq<u16>, i: int) -> BufferModel
    decreases params.len() - i,
{
    if 0 <= i < params.len() {
        let (m2, j) = sgr_step(m, params, i);
        if i < j <= params.len() {
            sgr_from(m2, params, j)
        } else {
            m2
        }
    } else {
        m
    }
}

/// Select Graphic Rendition: no parameters resets the pen.
pub open spec fn sgr(m: BufferModel, params: Seq<u16>) -> BufferModel {
    if params.len() == 0 {
        m.reset_attrs()
    } else {
        sgr_from(m, params, 0)
    }
}

proof fn lemma_sgr_step_advances(m: BufferModel, params: Seq<u16>, i: int)
    requires
        0 <= i < params.len(),
    ensures
        i < sgr_step(m, params, i).1 <= params.len(),
{
}

/// One DEC private mode (`CSI ? param h` / `CSI ? param l`).
pub open spec fn dec_one(m: BufferModel, param: u16, action: char) -> BufferModel {
    if param == 1049 && action == 'h' {
        m.save_cursor().enter_alternate_screen()
    } else if param == 1049 && action == 'l' {
        m.exit_alternate_screen().restore_cursor()
    } else if param == 4 && action == 'h' {
        BufferModel { insert_mode: true, ..m }
    } else if param == 4 && action == 'l' {
        BufferModel { insert_mode: false, ..m }
    } else {
        m
    }
}

/// The private modes from `params[i]` on applied in order.
pub open spec fn dec_from(m: BufferModel, params: Seq<u16>, i: int, action: char) -> BufferModel
    decreases params.len() - i,
{
    if 0 <= i < params.len() {
        dec_from(dec_one(m, params[i], action), params, i + 1, action)
    } else {
        m
    }
}

pub open spec fn first_or(params: Seq<u16>, d: u16) -> u16 {
    if params.len() > 0 {
        params[0]
    } else {
        d
    }
}

pub open spec fn second_or(params: Seq<u16>, d: u16) -> u16 {
    if params.len() > 1 {
        params[1]
    } else {
        d
    }
}

pub open spec fn at_least_one(x: u16) -> usize {
    if x == 0 {
        1
    } else {
        x as usize
    }
}

/// The count parameter of a CSI sequence: the first parameter, at least 1.
pub open spec fn count(params: Seq<u16>) -> usize {
    at_least_one(first_or(params, 1))
}

pub open spec fn is_private(intermediates: Seq<u8>) -> bool {
    intermediates.len() > 0 && intermediates[0] == 63
}

pub open spec fn sat_sub(a: usize, b: usize) -> usize {
    if a >= b {
        (a - b) as usize
    } else {
        0
    }
}

/// The effect of `CSI params intermediates action`.
pub open spec fn csi(m: BufferModel, params: Seq<u16>, intermediates: Seq<u8>, action: char) -> BufferModel {
    let n = count(params);
    if is_private(intermediates) {
        dec_from(m, params, 0, action)
    } else if action == 'A' {
        BufferModel { cursor: crate::buffer::CursorPos { row: sat_sub(m.cursor.row, n), ..m.cursor }, ..m }
    } else if action == 'B' {
        BufferModel {
            cursor: crate::buffer::CursorPos {
                row: crate::seqs::min_int(m.cursor.row + n, m.rows - 1) as usize,
                ..m.cursor
            },
            ..m
        }
    } else if action == 'C' {
        BufferModel {
            cursor: crate::buffer::CursorPos {
                col: crate::seqs::min_int(m.cursor.col + n, m.cols - 1) as usize,
                ..m.cursor
            },
            ..m
        }
    } else if action == 'D' {
        BufferModel { cursor: crate::buffer::CursorPos { col: sat_sub(m.cursor.col, n), ..m.cursor }, ..m }
    } else if action == 'H' || action == 'f' {
        m.set_cursor_pos(
            (at_least_one(first_or(params, 1)) - 1) as usize,
            (at_least_one(second_or(params, 1)) - 1) as usize,
        )
    } else if action == 'J' {
        m.erase_in_display(first_or(params, 0))
    } else if action == 'K' {
        m.erase_in_line(first_or(params, 0))
    } else if action == 'L' {
        m.insert_lines(n)
    } else if action == 'M' {
        m.delete_lines(n)
    } else if action == '@' {
        m.insert_chars(n)
    } else if action == 'P' {
        m.delete_chars(n)
    } else if action == 'g' {
        if first_or(params, 0) == 0 {
            m.clear_tab_stop()
        } else if first_or(params, 0) == 3 {
            m.clear_all_tab_stops()
        } else {
            m
        }
    } else if action == 'r' {
        m.set_scroll_region(
            (at_least_one(first_or(params, 1)) - 1) as usize,
            (at_least_one(second_or(params, (m.rows % 65536) as u16)) - 1) as usize,
        )
    } else if action == 's' {
        m.save_cursor()
    } else if action == 'u' {
        m.restore_cursor()
    } else if action == 'm' {
        sgr(m, params)
    } else {
        m
    }
}

/// `CSI params intermediates action` cannot fail on `m`: moving down or right needs
/// a non-empty screen and no overflow, and erasing needs the cursor's line.
pub open spec fn csi_ok(m: BufferModel, params: Seq<u16>, intermediates: Seq<u8>, action: char) -> bool {
    let n = count(params);
    if is_private(intermediates) {
        true
    } else if action == 'B' {
        m.rows > 0 && m.cursor.row + n <= usize::MAX
    } else if action == 'C' {
        m.cols > 0 && m.cursor.col + n <= usize::MAX
    } else if action == 'J' {
        m.erase_in_display_ok(first_or(params, 0))
    } else if action == 'K' {
        m.erase_in_line_ok(first_or(params, 0))
    } else {
        true
    }
}

/// C0 control `byte`: BS, HT, LF/VT/FF, CR; others do nothing.
pub open spec fn control(m: BufferModel, byte: u8) -> BufferModel {
    if byte == 0x08 {
        m.backspace()
    } else if byte == 0x09 {
        m.next_tab_stop()
    } else if 0x0a <= byte <= 0x0c {
        m.newline()
    } else if byte == 0x0d {
        m.carriage_return()
    } else {
        m
    }
}

pub open spec fn control_ok(m: BufferModel, byte: u8) -> bool {
    0x0a <= byte <= 0x0c ==> m.newline_ok()
}

/// `ESC byte`: DECSC, DECRC, HTS; others do nothing.
pub open spec fn escape(m: BufferModel, byte: u8) -> BufferModel {
    if byte == 0x37 {
        m.save_cursor()
    } else if byte == 0x38 {
        m.restore_cursor()
    } else if byte == 0x48 {
        m.set_tab_stop()
    } else {
        m
    }
}

/// Is `ps` one of the OSC selectors that set the window title ("0", "1", "2")?
pub open spec fn is_title_selector(ps: Seq<u8>) -> bool {
    ps.len() == 1 && (ps[0] == 0x30 || ps[0] == 0x31 || ps[0] == 0x32)
}

/// `OSC ps ; pt ST`: a title selector with valid UTF-8 text sets the title.
pub open spec fn osc(m: BufferModel, params: Seq<Seq<u8>>) -> BufferModel {
    if params.len() >= 2 && is_title_selector(params[0]) && vstd::utf8::valid_utf8(params[1]) {
        m.set_title(vstd::utf8::decode_utf8(params[1]))
    } else {
        m
    }
}

/// Calls `std::str::from_utf8`, keeping the string on success. Per its
/// documentation the call succeeds exactly on valid UTF-8, and the string it hands
/// back holds the same bytes.
#[verifier::external_body]
fn utf8_str(bytes: &[u8]) -> (s: Option<&str>)
    ensures
        s is Some <==> vstd::utf8::valid_utf8(bytes@),
        s matches Some(t) ==> vstd::utf8::encode_utf8(t@) == bytes@,
{
    std::str::from_utf8(bytes).ok()
}

/// Whether writing a character at the cursor cannot fail.
pub fn print_allowed(buffer: &TerminalBuffer) -> (b: bool)
    ensures
        b == buffer@.put_char_ok(),
{
    !(buffer.cursor.col < usize::MAX && buffer.cursor.col + 1 == buffer.cols && buffer.cursor.row == buffer.scroll_bottom
        && buffer.cursor.row < buffer.rows) || buffer.scroll_top < buffer.rows
}

/// Whether the C0 control `byte` cannot fail.
pub fn execute_allowed(buffer: &TerminalBuffer, byte: u8) -> (b: bool)
    ensures
        b == control_ok(buffer@, byte),
{
    !(0x0a <= byte && byte <= 0x0c) || buffer.cursor.row != buffer.scroll_bottom || (buffer.scroll_top < buffer.rows
        && buffer.scroll_bottom < buffer.rows)
}

/// Whether the sequence `CSI params intermediates action` cannot fail.
pub fn csi_allowed(buffer: &TerminalBuffer, params: &[u16], intermediates: &[u8], action: char) -> (b: bool)
    ensures
        b == csi_ok(buffer@, params@, intermediates@, action),
{
    let first = if params.len() > 0 { params[0] } else { 1 };
    let n: usize = if first == 0 { 1 } else { first as usize };
    if intermediates.len() > 0 && intermediates[0] == 63 {
        return true;
    }
    if action == 'B' {
        buffer.rows > 0 && buffer.cursor.row <= usize::MAX - n
    } else if action == 'C' {
        buffer.cols > 0 && buffer.cursor.col <= usize::MAX - n
    } else if action == 'J' {
        let mode = if params.len() > 0 { params[0] } else { 0 };
        (mode > 1 || buffer.cursor.row < buffer.rows) && (mode != 1 || buffer.cols > 0)
    } else if action == 'K' {
        let mode = if params.len() > 0 { params[0] } else { 0 };
        (mode > 2 || buffer.cursor.row < buffer.rows) && (mode != 1 || buffer.cols > 0)
    } else {
        true
    }
}

/// Wraps a `TerminalBuffer` for the escape-sequence callbacks.
pub struct VtHandler<'a> {
    pub buffer: &'a mut TerminalBuffer,
}

impl<'a> VtHandler<'a> {
    pub fn new(buffer: &'a mut TerminalBuffer) -> (h: Self)
        ensures
            *h.buffer == *old(buffer),
    {
        Self { buffer }
    }
}

/// A printable character: written at the cursor.
pub fn print(buffer: &mut TerminalBuffer, c: char)
    requires
        old(buffer).wf(),
        old(buffer)@.put_char_ok(),
    ensures
        final(buffer).wf(),
        final(buffer)@ == old(buffer)@.put_char(c),
{
    buffer.put_char(c);
}

/// A C0 control byte.
pub fn execute(buffer: &mut TerminalBuffer, byte: u8)
    requires
        old(buffer).wf(),
        control_ok(old(buffer)@, byte),
    ensures
        final(buffer).wf(),
        final(buffer)@ == control(old(buffer)@, byte),
{
    if byte == 0x08 {
        buffer.backspace();  // BS
    } else if byte == 0x09 {
        // HT (tab) - use tab stop table
        buffer.next_tab_stop();
    } else if 0x0a <= byte && byte <= 0x0c {
        // LF, VT, FF
        buffer.newline();
    } else if byte == 0x0d {
        buffer.carriage_return();  // CR
    }
}

/// Handle SGR (Select Graphic Rendition) sequences.
pub fn handle_sgr(buffer: &mut TerminalBuffer, params: &[u16])
    requires
        old(buffer).wf(),
    ensures
        final(buffer).wf(),
        final(buffer)@ == sgr(old(buffer)@, params@),
{
    if params.len() == 0 {
        buffer.reset_attrs();
        return;
    }
    let mut i: usize = 0;
    while i < params.len()
        invariant
            buffer.wf(),
            params@.len() > 0,
            i <= params@.len(),
            sgr_from(buffer@, params@, i as int) == sgr_from(old(buffer)@, params@, 0),
        decreases params@.len() - i,
    {
        let c = params[i];
        let ghost before = buffer@;
        proof {
            lemma_sgr_step_advances(before, params@, i as int);
        }
        if c == 0 {
            buffer.reset_attrs();
        } else if c == 1 {
            buffer.set_bold(true);
        } else if c == 3 {
            buffer.set_italic(true);
        } else if c == 4 {
            buffer.set_underline(true);
        } else if c == 7 {
            buffer.set_inverse(true);
        } else if c == 22 {
            buffer.set_bold(false);
        } else if c == 23 {
            buffer.set_italic(false);
        } else if c == 24 {
            buffer.set_underline(false);
        } else if c == 27 {
            buffer.set_inverse(false);
        } else if 30 <= c && c <= 37 {
            // Standard foreground colors
            buffer.set_fg(ansi_palette((c - 30) as usize));
        } else if c == 39 {
            let d = buffer.default_fg;
            buffer.set_fg(d);
        } else if 40 <= c && c <= 47 {
            // Standard background colors
            buffer.set_bg(ansi_palette((c - 40) as usize));
        } else if c == 49 {
            let d = buffer.default_bg;
            buffer.set_bg(d);
        } else if 90 <= c && c <= 97 {
            // Bright foreground
            buffer.set_fg(ansi_palette((c - 90 + 8) as usize));
        } else if 100 <= c && c <= 107 {
            // Bright background
            buffer.set_bg(ansi_palette((c - 100 + 8) as usize));
        } else if c == 38 || c == 48 {
            // 256 color / TrueColor
            let (_, rest) = params.split_at(i);
            proof {
                assert(rest@ == params@.skip(i as int));
            }
            if let Some((color, k)) = parse_extended_color(rest) {
                if c == 38 {
                    buffer.set_fg(color);
                } else {
                    buffer.set_bg(color);
                }
                i = i + k;
                continue;
            }
        }
        i = i + 1;
    }
}

/// Handle DEC private mode set/reset sequences (CSI ? Pm h/l).
pub fn handle_dec_private_mode(buffer: &mut TerminalBuffer, params: &[u16], action: char)
    requires
        old(buffer).wf(),
    ensures
        final(buffer).wf(),
        final(buffer)@ == dec_from(old(buffer)@, params@, 0, action),
{
    let mut i: usize = 0;
    while i < params.len()
        invariant
            buffer.wf(),
            i <= params@.len(),
            dec_from(buffer@, params@, i as int, action) == dec_from(old(buffer)@, params@, 0, action),
        decreases params@.len() - i,
    {
        let param = params[i];
        if param == 1049 && action == 'h' {
            // Enable alternate screen buffer
            buffer.save_cursor();
            buffer.enter_alternate_screen();
        } else if param == 1049 && action == 'l' {
            // Disable alternate screen buffer
            buffer.exit_alternate_screen();
            buffer.restore_cursor();
        } else if param == 4 && action == 'h' {
            // Insert mode on
            buffer.insert_mode = true;
        } else if param == 4 && action == 'l' {
            // Insert mode off (replace mode)
            buffer.insert_mode = false;
        }
        i = i + 1;
    }
}

/// A CSI sequence: `params` holds the first value of each parameter. The buffer
/// stays well-formed, except that on a screen with no rows, inserting or deleting
/// lines (`CSI L`, `CSI M`) leaves one blank row of cells, as `csi` states.
pub fn csi_dispatch(buffer: &mut TerminalBuffer, params: &[u16], intermediates: &[u8], action: char)
    requires
        old(buffer).wf(),
        csi_ok(old(buffer)@, params@, intermediates@, action),
    ensures
        old(buffer).rows > 0 || is_private(intermediates@) || !(action == 'L' || action == 'M') ==> final(buffer).wf(),
        final(buffer)@ == csi(old(buffer)@, params@, intermediates@, action),
{
    // Handle DEC private mode sequences (intermediates contains '?')
    if intermediates.len() > 0 && intermediates[0] == 63 {
        handle_dec_private_mode(buffer, params, action);
        return;
    }
    let first = if params.len() > 0 { params[0] } else { 1 };
    let n: usize = if first == 0 { 1 } else { first as usize };
    if action == 'A' {
        // Cursor Up
        buffer.cursor.row = buffer.cursor.row.saturating_sub(n);
    } else if action == 'B' {
        // Cursor Down
        let down = buffer.cursor.row + n;
        let last = buffer.rows - 1;
        buffer.cursor.row = if down < last { down } else { last };
    } else if action == 'C' {
        // Cursor Forward
        let right = buffer.cursor.col + n;
        let last = buffer.cols - 1;
        buffer.cursor.col = if right < last { right } else { last };
    } else if action == 'D' {
        // Cursor Back
        buffer.cursor.col = buffer.cursor.col.saturating_sub(n);
    } else if action == 'H' || action == 'f' {
        // Cursor Position
        let r = if params.len() > 0 && params[0] > 0 { params[0] as usize } else { 1 };
        let c = if params.len() > 1 && params[1] > 0 { params[1] as usize } else { 1 };
        buffer.set_cursor_pos(r - 1, c - 1);
    } else if action == 'J' {
        // Erase in Display
        let mode = if params.len() > 0 { params[0] } else { 0 };
        buffer.erase_in_display(mode);
    } else if action == 'K' {
        // Erase in Line
        let mode = if params.len() > 0 { params[0] } else { 0 };
        buffer.erase_in_line(mode);
    } else if action == 'L' {
        // Insert Lines
        buffer.insert_lines(n);
    } else if action == 'M' {
        // Delete Lines
        buffer.delete_lines(n);
    } else if action == '@' {
        // Insert Characters
        buffer.insert_chars(n);
    } else if action == 'P' {
        // Delete Characters
        buffer.delete_chars(n);
    } else if action == 'g' {
        // Clear Tab Stop
        let mode = if params.len() > 0 { params[0] } else { 0 };
        if mode == 0 {
            buffer.clear_tab_stop();
        } else if mode == 3 {
            buffer.clear_all_tab_stops();
        }
    } else if action == 'r' {
        // DECSTBM - Set Scroll Region
        let top = if params.len() > 0 && params[0] > 0 { params[0] as usize } else { 1 };
        let rows16 = (buffer.rows % 65536) as u16;
        let second = if params.len() > 1 { params[1] } else { rows16 };
        let bottom = if second > 0 { second as usize } else { 1 };
        buffer.set_scroll_region(top - 1, bottom - 1);
    } else if action == 's' {
        // Save Cursor Position
        buffer.save_cursor();
    } else if action == 'u' {
        // Restore Cursor Position
        buffer.restore_cursor();
    } else if action == 'm' {
        handle_sgr(buffer, params);
    }
}

/// An escape sequence `ESC byte`.
pub fn esc_dispatch(buffer: &mut TerminalBuffer, byte: u8)
    requires
        old(buffer).wf(),
    ensures
        final(buffer).wf(),
        final(buffer)@ == escape(old(buffer)@, byte),
{
    if byte == 0x37 {
        // DECSC - Save Cursor
        buffer.save_cursor();
    } else if byte == 0x38 {
        // DECRC - Restore Cursor
        buffer.restore_cursor();
    } else if byte == 0x48 {
        // HTS - Set Tab Stop at current position
        buffer.set_tab_stop();
    }
}

/// An operating-system command `OSC ps ; pt ST`: `params[0]` is `ps`, `params[1]` is `pt`.
pub fn osc_dispatch(buffer: &mut TerminalBuffer, params: &[&[u8]])
    requires
        old(buffer).wf(),
    ensures
        final(buffer).wf(),
        final(buffer)@ == osc(old(buffer)@, params@.map_values(|p: &[u8]| p@)),
{
    let ghost ps_view = params@.map_values(|p: &[u8]| p@);
    if params.len() == 0 {
        return;
    }
    let ps = params[0];
    // OSC 0 / 1 / 2 - Set window title
    if ps.len() == 1 && (ps[0] == 0x30 || ps[0] == 0x31 || ps[0] == 0x32) {
        if params.len() > 1 {
            let pt = params[1];
            proof {
                assert(ps_view[1] == pt@);
            }
            if let Some(title) = utf8_str(pt) {
                proof {
                    vstd::utf8::encode_utf8_decode_utf8(title@);
                }
                buffer.set_title(title.to_owned());
            }
        }
    }
}


/// `CSI r` with no bottom parameter runs the scroll region down to the last row:
/// with no parameters it is the whole screen, and with a top `t` above the last
/// row (0 counting as 1) it runs from row `t - 1` to the last row. The cursor
/// goes home.
pub proof fn lemma_scroll_region_default_bottom(m: BufferModel, params: Seq<u16>, intermediates: Seq<u8>)
    requires
        2 <= m.rows <= 65535,
        params.len() <= 1,
        params.len() == 1 ==> params[0] < m.rows,
        !is_private(intermediates),
    ensures
        ({
            let r = csi(m, params, intermediates, 'r');
            &&& r.scroll_bottom == m.rows - 1
            &&& r.scroll_top == if params.len() == 0 || params[0] == 0 { 0 } else { params[0] - 1 }
            &&& r.cursor == crate::buffer::home()
        }),
{
    assert((m.rows % 65536) as u16 == m.rows);
}

} // verus!
