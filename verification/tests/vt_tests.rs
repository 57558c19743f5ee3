use clux::buffer::{Color, TerminalBuffer};
use clux::vt::{
    csi_allowed, csi_dispatch, esc_dispatch, execute, execute_allowed, handle_sgr, osc_dispatch, parse_extended_color,
    print, print_allowed, VtHandler,
};
use vte::{Params, Perform};

/// Feeds the parser's callbacks to the library's dispatch functions.
struct Adapter<'a> {
    handler: VtHandler<'a>,
}

impl Perform for Adapter<'_> {
    fn print(&mut self, c: char) {
        assert!(print_allowed(self.handler.buffer));
        print(self.handler.buffer, c);
    }

    fn execute(&mut self, byte: u8) {
        assert!(execute_allowed(self.handler.buffer, byte));
        execute(self.handler.buffer, byte);
    }

    fn csi_dispatch(&mut self, params: &Params, intermediates: &[u8], _ignore: bool, action: char) {
        let params: Vec<u16> = params.iter().map(|p| p[0]).collect();
        assert!(csi_allowed(self.handler.buffer, &params, intermediates, action));
        csi_dispatch(self.handler.buffer, &params, intermediates, action);
    }

    fn esc_dispatch(&mut self, _intermediates: &[u8], _ignore: bool, byte: u8) {
        esc_dispatch(self.handler.buffer, byte);
    }

    fn osc_dispatch(&mut self, params: &[&[u8]], _bell_terminated: bool) {
        osc_dispatch(self.handler.buffer, params);
    }
}

/// Helper: process an ANSI escape string through the VT parser.
fn process(buf: &mut TerminalBuffer, data: &str) {
    let mut parser = vte::Parser::new();
    let mut adapter = Adapter { handler: VtHandler::new(buf) };
    parser.advance(&mut adapter, data.as_bytes());
}

#[test]
fn test_cursor_save_restore_csi() {
    let mut buf = TerminalBuffer::new(80, 24);
    // Move to (3,5), save, move to (0,0), restore
    process(&mut buf, "\x1b[4;6H"); // row 3, col 5 (1-indexed: 4;6)
    process(&mut buf, "\x1b[s"); // save
    process(&mut buf, "\x1b[1;1H"); // home
    assert_eq!(buf.cursor.row, 0);
    assert_eq!(buf.cursor.col, 0);
    process(&mut buf, "\x1b[u"); // restore
    assert_eq!(buf.cursor.row, 3);
    assert_eq!(buf.cursor.col, 5);
}

#[test]
fn test_cursor_save_restore_esc() {
    let mut buf = TerminalBuffer::new(80, 24);
    process(&mut buf, "\x1b[4;6H"); // row 3, col 5
    process(&mut buf, "\x1b7"); // ESC 7 - save
    process(&mut buf, "\x1b[1;1H"); // home
    process(&mut buf, "\x1b8"); // ESC 8 - restore
    assert_eq!(buf.cursor.row, 3);
    assert_eq!(buf.cursor.col, 5);
}

#[test]
fn test_scroll_region_decstbm() {
    let mut buf = TerminalBuffer::new(80, 24);
    process(&mut buf, "\x1b[5;20r"); // Set scroll region rows 5-20 (1-indexed)
    assert_eq!(buf.scroll_top, 4); // 0-indexed
    assert_eq!(buf.scroll_bottom, 19);
}

#[test]
fn test_insert_delete_lines_via_csi() {
    let mut buf = TerminalBuffer::new(10, 5);
    buf.set_cursor_pos(1, 0);
    buf.put_char('A');
    buf.set_cursor_pos(2, 0);
    buf.put_char('B');

    // Insert 1 line at row 1
    process(&mut buf, "\x1b[2;1H"); // move to row 1 (1-indexed: 2)
    process(&mut buf, "\x1b[L"); // insert line

    assert_eq!(buf.cells[1][0].c, ' '); // blank inserted line
    assert_eq!(buf.cells[2][0].c, 'A'); // pushed down
}

#[test]
fn test_delete_lines_via_csi() {
    let mut buf = TerminalBuffer::new(10, 5);
    buf.set_cursor_pos(1, 0);
    buf.put_char('A');
    buf.set_cursor_pos(2, 0);
    buf.put_char('B');

    process(&mut buf, "\x1b[2;1H"); // row 1
    process(&mut buf, "\x1b[M"); // delete line

    assert_eq!(buf.cells[1][0].c, 'B'); // row 2 moved up
}

#[test]
fn test_insert_chars_via_csi() {
    let mut buf = TerminalBuffer::new(10, 5);
    buf.set_cursor_pos(0, 0);
    buf.put_char('A');
    buf.put_char('B');
    buf.put_char('C');

    process(&mut buf, "\x1b[1;2H"); // row 0, col 1
    process(&mut buf, "\x1b[@"); // insert 1 char

    assert_eq!(buf.cells[0][0].c, 'A');
    assert_eq!(buf.cells[0][1].c, ' ');
    assert_eq!(buf.cells[0][2].c, 'B');
}

#[test]
fn test_delete_chars_via_csi() {
    let mut buf = TerminalBuffer::new(10, 5);
    buf.set_cursor_pos(0, 0);
    buf.put_char('A');
    buf.put_char('B');
    buf.put_char('C');

    process(&mut buf, "\x1b[1;1H"); // row 0, col 0
    process(&mut buf, "\x1b[P"); // delete 1 char

    assert_eq!(buf.cells[0][0].c, 'B');
    assert_eq!(buf.cells[0][1].c, 'C');
}

#[test]
fn test_alternate_screen_csi() {
    let mut buf = TerminalBuffer::new(10, 5);
    buf.set_cursor_pos(0, 0);
    buf.put_char('M');

    process(&mut buf, "\x1b[?1049h"); // enter alternate screen
    assert!(buf.in_alternate_screen);
    assert_eq!(buf.cells[0][0].c, ' ');

    buf.put_char('A');

    process(&mut buf, "\x1b[?1049l"); // exit alternate screen
    assert!(!buf.in_alternate_screen);
    assert_eq!(buf.cells[0][0].c, 'M');
}

#[test]
fn test_insert_mode_toggle() {
    let mut buf = TerminalBuffer::new(10, 5);
    assert!(!buf.insert_mode);
    process(&mut buf, "\x1b[?4h"); // insert mode on
    assert!(buf.insert_mode);
    process(&mut buf, "\x1b[?4l"); // insert mode off
    assert!(!buf.insert_mode);
}

#[test]
fn test_tab_stop_esc_h() {
    let mut buf = TerminalBuffer::new(80, 24);
    buf.clear_all_tab_stops();
    buf.cursor.col = 5;
    process(&mut buf, "\x1bH"); // ESC H - set tab stop
    assert!(buf.tab_stops[5]);
}

#[test]
fn test_clear_tab_stop_csi_g() {
    let mut buf = TerminalBuffer::new(80, 24);
    // Tab stop at 8 should exist by default
    assert!(buf.tab_stops[8]);

    buf.cursor.col = 8;
    process(&mut buf, "\x1b[g"); // clear tab stop at current
    assert!(!buf.tab_stops[8]);
}

#[test]
fn test_clear_all_tab_stops_csi_g3() {
    let mut buf = TerminalBuffer::new(80, 24);
    assert!(buf.tab_stops[8]);
    process(&mut buf, "\x1b[3g"); // clear all tab stops
    assert!(!buf.tab_stops[8]);
    assert!(!buf.tab_stops[16]);
}

#[test]
fn test_tab_execution_uses_tab_stops() {
    let mut buf = TerminalBuffer::new(80, 24);
    buf.cursor.col = 0;
    // Execute HT (0x09)
    process(&mut buf, "\t");
    assert_eq!(buf.cursor.col, 8);
}

#[test]
fn test_osc_set_title() {
    let mut buf = TerminalBuffer::new(80, 24);
    // OSC 0 ; title BEL
    process(&mut buf, "\x1b]0;My Terminal\x07");
    assert_eq!(buf.title, "My Terminal");
}

#[test]
fn test_osc_set_title_osc2() {
    let mut buf = TerminalBuffer::new(80, 24);
    // OSC 2 ; title ST
    process(&mut buf, "\x1b]2;Another Title\x1b\\");
    assert_eq!(buf.title, "Another Title");
}

#[test]
fn cursor_movement_sequences() {
    let mut buf = TerminalBuffer::new(10, 5);
    process(&mut buf, "\x1b[3;4H");
    assert_eq!((buf.cursor.row, buf.cursor.col), (2, 3));
    process(&mut buf, "\x1b[A");
    assert_eq!(buf.cursor.row, 1);
    process(&mut buf, "\x1b[9B");
    assert_eq!(buf.cursor.row, 4);
    process(&mut buf, "\x1b[20C");
    assert_eq!(buf.cursor.col, 9);
    process(&mut buf, "\x1b[3D");
    assert_eq!(buf.cursor.col, 6);
    process(&mut buf, "\x1b[0A");
    assert_eq!(buf.cursor.row, 3);
}

#[test]
fn sgr_colors_and_attributes() {
    let mut buf = TerminalBuffer::new(10, 5);
    process(&mut buf, "\x1b[1;3;4;7;31;42m");
    assert!(buf.current_attrs.bold && buf.current_attrs.italic);
    assert!(buf.current_attrs.underline && buf.current_attrs.inverse);
    assert_eq!(buf.current_fg, Color::new(170, 0, 0));
    assert_eq!(buf.current_bg, Color::new(0, 170, 0));
    process(&mut buf, "\x1b[22;23;24;27;39;49m");
    assert!(!buf.current_attrs.bold && !buf.current_attrs.italic);
    assert_eq!(buf.current_fg, buf.default_fg);
    assert_eq!(buf.current_bg, buf.default_bg);
    process(&mut buf, "\x1b[38;2;1;2;3m");
    assert_eq!(buf.current_fg, Color::new(1, 2, 3));
    process(&mut buf, "\x1b[48;5;196m");
    assert_eq!(buf.current_bg, Color::new(255, 0, 0));
    process(&mut buf, "\x1b[95m");
    assert_eq!(buf.current_fg, Color::new(255, 85, 255));
    process(&mut buf, "\x1b[m");
    assert_eq!(buf.current_fg, buf.default_fg);
}

#[test]
fn extended_color_forms() {
    assert_eq!(parse_extended_color(&[38, 5, 1]), Some((Color::new(170, 0, 0), 3)));
    assert_eq!(parse_extended_color(&[38, 5, 16]), Some((Color::new(0, 0, 0), 3)));
    assert_eq!(parse_extended_color(&[38, 5, 231]), Some((Color::new(255, 255, 255), 3)));
    assert_eq!(parse_extended_color(&[38, 5, 232]), Some((Color::new(8, 8, 8), 3)));
    assert_eq!(parse_extended_color(&[38, 5, 255]), Some((Color::new(238, 238, 238), 3)));
    assert_eq!(parse_extended_color(&[38, 2, 10, 20, 30]), Some((Color::new(10, 20, 30), 5)));
    assert_eq!(parse_extended_color(&[38, 2, 10, 20]), None);
    assert_eq!(parse_extended_color(&[38]), None);
    assert_eq!(parse_extended_color(&[38, 7, 1]), None);
}

#[test]
fn sgr_direct_call() {
    let mut buf = TerminalBuffer::new(4, 2);
    handle_sgr(&mut buf, &[1, 38, 5, 2, 4]);
    assert!(buf.current_attrs.bold);
    assert!(buf.current_attrs.underline);
    assert_eq!(buf.current_fg, Color::new(0, 170, 0));
}

#[test]
fn erase_sequences() {
    let mut buf = TerminalBuffer::new(5, 3);
    process(&mut buf, "abcde");
    process(&mut buf, "\x1b[1;3H\x1b[K");
    assert_eq!(buf.cells[0][1].c, 'b');
    assert_eq!(buf.cells[0][2].c, ' ');
    process(&mut buf, "\x1b[2J");
    assert_eq!(buf.cells[0][0].c, ' ');
}

#[test]
fn control_bytes() {
    let mut buf = TerminalBuffer::new(20, 3);
    process(&mut buf, "ab\x08c");
    assert_eq!(buf.cells[0][1].c, 'c');
    process(&mut buf, "\r");
    assert_eq!(buf.cursor.col, 0);
    process(&mut buf, "\n");
    assert_eq!(buf.cursor.row, 1);
    process(&mut buf, "\t");
    assert_eq!(buf.cursor.col, 8);
}

#[test]
fn osc_with_other_selector_is_ignored() {
    let mut buf = TerminalBuffer::new(80, 24);
    process(&mut buf, "\x1b]7;file://host\x07");
    assert_eq!(buf.title, "");
}

#[test]
fn csi_allowed_refuses_moves_on_empty_screen() {
    let buf = TerminalBuffer::new(0, 0);
    assert!(!csi_allowed(&buf, &[1], &[], 'B'));
    assert!(!csi_allowed(&buf, &[1], &[], 'C'));
    assert!(csi_allowed(&buf, &[1], &[], 'A'));
}

#[test]
fn leave_alternate_screen_after_shrinking() {
    let mut buf = TerminalBuffer::new(10, 5);
    process(&mut buf, "main");
    process(&mut buf, "\x1b[?1049h");
    assert!(buf.in_alternate_screen);
    buf.resize(8, 4);
    let params: Vec<u16> = vec![1049];
    assert!(csi_allowed(&buf, &params, b"?", 'l'));
    process(&mut buf, "\x1b[?1049l");
    assert!(!buf.in_alternate_screen);
    assert_eq!(buf.cells.len(), 4);
    for row in &buf.cells {
        assert_eq!(row.len(), 8);
    }
    assert_eq!(buf.cells[0][0].c, 'm');
    assert_eq!(buf.cells[0][3].c, 'n');
    assert_eq!(buf.cursor.row, 0);
    assert_eq!(buf.cursor.col, 4);
    process(&mut buf, "more text that wraps");
    assert_eq!(buf.cells.len(), 4);
}
