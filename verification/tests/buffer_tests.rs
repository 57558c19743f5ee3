use clux::buffer::{Color, TerminalBuffer};

#[test]
fn test_scroll_region_basic() {
    let mut buf = TerminalBuffer::new(80, 24);
    buf.set_scroll_region(5, 10);
    assert_eq!(buf.scroll_top, 5);
    assert_eq!(buf.scroll_bottom, 10);
    // Cursor should be homed
    assert_eq!(buf.cursor.row, 0);
    assert_eq!(buf.cursor.col, 0);
}

#[test]
fn test_scroll_region_newline_scrolls_within_region() {
    let mut buf = TerminalBuffer::new(10, 5);
    // Put identifiable content
    buf.set_cursor_pos(0, 0);
    buf.put_char('A');
    buf.set_cursor_pos(1, 0);
    buf.put_char('B');
    buf.set_cursor_pos(2, 0);
    buf.put_char('C');
    buf.set_cursor_pos(3, 0);
    buf.put_char('D');
    buf.set_cursor_pos(4, 0);
    buf.put_char('E');

    // Set scroll region to rows 1-3
    buf.set_scroll_region(1, 3);
    // Move cursor to bottom of scroll region
    buf.set_cursor_pos(3, 0);
    // Newline should scroll within region
    buf.newline();

    // Row 0 should still be 'A' (outside region)
    assert_eq!(buf.cells[0][0].c, 'A');
    // Row 1 should now be 'C' (was row 2)
    assert_eq!(buf.cells[1][0].c, 'C');
    // Row 4 should still be 'E' (outside region)
    assert_eq!(buf.cells[4][0].c, 'E');
}

#[test]
fn test_cursor_save_restore() {
    let mut buf = TerminalBuffer::new(80, 24);
    buf.set_cursor_pos(5, 10);
    buf.set_fg(Color::new(255, 0, 0));
    buf.set_bold(true);
    buf.save_cursor();

    // Change cursor state
    buf.set_cursor_pos(0, 0);
    buf.set_fg(Color::new(0, 255, 0));
    buf.set_bold(false);

    buf.restore_cursor();
    assert_eq!(buf.cursor.row, 5);
    assert_eq!(buf.cursor.col, 10);
}

#[test]
fn test_alternate_screen() {
    let mut buf = TerminalBuffer::new(10, 5);
    buf.set_cursor_pos(0, 0);
    buf.put_char('X');

    buf.enter_alternate_screen();
    assert!(buf.in_alternate_screen);
    // Alternate screen should be blank
    assert_eq!(buf.cells[0][0].c, ' ');
    // Write something on alternate
    buf.put_char('Y');

    buf.exit_alternate_screen();
    assert!(!buf.in_alternate_screen);
    // Main screen should be restored
    assert_eq!(buf.cells[0][0].c, 'X');
}

#[test]
fn test_alternate_screen_idempotent() {
    let mut buf = TerminalBuffer::new(10, 5);
    buf.enter_alternate_screen();
    buf.enter_alternate_screen(); // should be no-op
    assert!(buf.in_alternate_screen);
    buf.exit_alternate_screen();
    assert!(!buf.in_alternate_screen);
    buf.exit_alternate_screen(); // should be no-op
    assert!(!buf.in_alternate_screen);
}

#[test]
fn test_insert_lines() {
    let mut buf = TerminalBuffer::new(10, 5);
    buf.set_cursor_pos(1, 0);
    buf.put_char('A');
    buf.set_cursor_pos(2, 0);
    buf.put_char('B');

    buf.set_cursor_pos(1, 0);
    buf.insert_lines(1);

    // Row 1 should now be blank (inserted)
    assert_eq!(buf.cells[1][0].c, ' ');
    // 'A' should have moved down to row 2
    assert_eq!(buf.cells[2][0].c, 'A');
}

#[test]
fn test_delete_lines() {
    let mut buf = TerminalBuffer::new(10, 5);
    buf.set_cursor_pos(1, 0);
    buf.put_char('A');
    buf.set_cursor_pos(2, 0);
    buf.put_char('B');

    buf.set_cursor_pos(1, 0);
    buf.delete_lines(1);

    // Row 1 should now be 'B' (was row 2)
    assert_eq!(buf.cells[1][0].c, 'B');
}

#[test]
fn test_insert_chars() {
    let mut buf = TerminalBuffer::new(10, 5);
    buf.set_cursor_pos(0, 0);
    buf.put_char('A');
    buf.put_char('B');
    buf.put_char('C');

    buf.set_cursor_pos(0, 1);
    buf.insert_chars(1);

    assert_eq!(buf.cells[0][0].c, 'A');
    assert_eq!(buf.cells[0][1].c, ' '); // inserted blank
    assert_eq!(buf.cells[0][2].c, 'B'); // shifted right
    assert_eq!(buf.cells[0][3].c, 'C'); // shifted right
}

#[test]
fn test_delete_chars() {
    let mut buf = TerminalBuffer::new(10, 5);
    buf.set_cursor_pos(0, 0);
    buf.put_char('A');
    buf.put_char('B');
    buf.put_char('C');

    buf.set_cursor_pos(0, 0);
    buf.delete_chars(1);

    assert_eq!(buf.cells[0][0].c, 'B');
    assert_eq!(buf.cells[0][1].c, 'C');
}

#[test]
fn test_tab_stops_default() {
    let buf = TerminalBuffer::new(80, 24);
    assert!(!buf.tab_stops[0]);
    assert!(buf.tab_stops[8]);
    assert!(buf.tab_stops[16]);
    assert!(!buf.tab_stops[7]);
}

#[test]
fn test_tab_stop_next() {
    let mut buf = TerminalBuffer::new(80, 24);
    buf.cursor.col = 0;
    buf.next_tab_stop();
    assert_eq!(buf.cursor.col, 8);

    buf.next_tab_stop();
    assert_eq!(buf.cursor.col, 16);
}

#[test]
fn test_tab_stop_set_clear() {
    let mut buf = TerminalBuffer::new(80, 24);
    buf.cursor.col = 5;
    buf.set_tab_stop();
    assert!(buf.tab_stops[5]);

    buf.cursor.col = 0;
    buf.next_tab_stop();
    assert_eq!(buf.cursor.col, 5);

    buf.clear_tab_stop();
    assert!(!buf.tab_stops[5]);
}

#[test]
fn test_clear_all_tab_stops() {
    let mut buf = TerminalBuffer::new(80, 24);
    buf.clear_all_tab_stops();
    assert!(!buf.tab_stops[8]);
    assert!(!buf.tab_stops[16]);

    // next_tab_stop should go to end of line
    buf.cursor.col = 0;
    buf.next_tab_stop();
    assert_eq!(buf.cursor.col, 79);
}

#[test]
fn test_scrollback_buffer() {
    let mut buf = TerminalBuffer::new(10, 3);
    buf.set_cursor_pos(0, 0);
    buf.put_char('A');
    buf.set_cursor_pos(1, 0);
    buf.put_char('B');
    buf.set_cursor_pos(2, 0);
    buf.put_char('C');

    // Trigger scroll
    buf.set_cursor_pos(2, 0);
    buf.newline();

    // Scrollback should have the first line
    assert_eq!(buf.scrollback.len(), 1);
    assert_eq!(buf.scrollback[0][0].c, 'A');
}

#[test]
fn test_scrollback_max() {
    let mut buf = TerminalBuffer::new(5, 2);
    buf.scrollback_max = 3;

    // Scroll many times to exceed max
    for i in 0..5 {
        buf.set_cursor_pos(0, 0);
        buf.put_char(char::from(b'A' + i));
        buf.set_cursor_pos(1, 0);
        buf.newline();
    }

    assert!(buf.scrollback.len() <= 3);
}

#[test]
fn test_insert_mode() {
    let mut buf = TerminalBuffer::new(10, 5);
    buf.set_cursor_pos(0, 0);
    buf.put_char('A');
    buf.put_char('B');
    buf.put_char('C');

    buf.insert_mode = true;
    buf.set_cursor_pos(0, 1);
    buf.put_char('X');

    // 'X' should be inserted, pushing 'B' and 'C' right
    assert_eq!(buf.cells[0][0].c, 'A');
    assert_eq!(buf.cells[0][1].c, 'X');
    assert_eq!(buf.cells[0][2].c, 'B');
    assert_eq!(buf.cells[0][3].c, 'C');
}

#[test]
fn test_window_title() {
    let mut buf = TerminalBuffer::new(80, 24);
    buf.set_title("My Terminal".to_string());
    assert_eq!(buf.title, "My Terminal");
}

// --- Edge case tests ---

#[test]
fn unicode_cjk_characters() {
    let mut buf = TerminalBuffer::new(20, 5);
    buf.set_cursor_pos(0, 0);
    // CJK characters (each typically 2 cells wide, but we store per-cell)
    for c in "日本語テスト".chars() {
        buf.put_char(c);
    }
    assert_eq!(buf.cells[0][0].c, '日');
    assert_eq!(buf.cells[0][1].c, '本');
    assert_eq!(buf.cells[0][5].c, 'ト');
}

#[test]
fn emoji_in_buffer() {
    let mut buf = TerminalBuffer::new(20, 5);
    buf.set_cursor_pos(0, 0);
    buf.put_char('🚀');
    buf.put_char('✨');
    buf.put_char('🎉');
    assert_eq!(buf.cells[0][0].c, '🚀');
    assert_eq!(buf.cells[0][1].c, '✨');
    assert_eq!(buf.cells[0][2].c, '🎉');
}

#[test]
fn rapid_resize_does_not_panic() {
    let mut buf = TerminalBuffer::new(80, 24);
    buf.set_cursor_pos(10, 40);
    buf.put_char('X');

    // Rapid resize sequence
    for size in [(10, 5), (200, 50), (1, 1), (80, 24), (3, 3)] {
        buf.resize(size.0, size.1);
        // Cursor should be clamped
        assert!(buf.cursor.col < buf.cols);
        assert!(buf.cursor.row < buf.rows);
    }
}

#[test]
fn resize_to_minimum() {
    let mut buf = TerminalBuffer::new(80, 24);
    buf.set_cursor_pos(12, 60);
    buf.put_char('Z');
    buf.resize(1, 1);
    assert_eq!(buf.cols, 1);
    assert_eq!(buf.rows, 1);
    assert_eq!(buf.cursor.col, 0);
    assert_eq!(buf.cursor.row, 0);
}

#[test]
fn high_speed_output_fills_scrollback() {
    let mut buf = TerminalBuffer::new(10, 3);
    buf.scrollback_max = 100;

    // Simulate rapid output: 500 lines
    for i in 0..500u32 {
        buf.set_cursor_pos(buf.rows - 1, 0);
        let c = char::from(b'A' + (i % 26) as u8);
        buf.put_char(c);
        buf.newline();
    }

    // Scrollback should be capped at max
    assert!(buf.scrollback.len() <= buf.scrollback_max);
    assert!(!buf.scrollback.is_empty());
}

#[test]
fn put_char_wraps_at_end_of_line() {
    let mut buf = TerminalBuffer::new(5, 3);
    buf.set_cursor_pos(0, 0);
    for c in "ABCDE".chars() {
        buf.put_char(c);
    }
    // After 5 chars in 5-col buffer, cursor should wrap to next line
    assert_eq!(buf.cursor.row, 1);
    assert_eq!(buf.cursor.col, 0);
    assert_eq!(buf.cells[0][4].c, 'E');
}

#[test]
fn scroll_view_beyond_scrollback() {
    let mut buf = TerminalBuffer::new(10, 3);
    buf.scrollback_max = 10;
    // Add a few lines to scrollback
    for _ in 0..5 {
        buf.set_cursor_pos(2, 0);
        buf.newline();
    }
    // Try to scroll way past available scrollback
    buf.scroll_view_up(1000);
    assert!(buf.scroll_offset <= buf.scrollback.len());
}

#[test]
fn color_constructors() {
    assert_eq!(Color::new(1, 2, 3), Color { r: 1, g: 2, b: 3 });
    assert_eq!(Color::black(), Color { r: 0, g: 0, b: 0 });
    assert_eq!(Color::white(), Color { r: 255, g: 255, b: 255 });
}

#[test]
fn save_then_restore_keeps_position_and_pen() {
    let mut buf = TerminalBuffer::new(80, 24);
    buf.set_cursor_pos(7, 3);
    buf.set_fg(Color::new(1, 2, 3));
    buf.set_italic(true);
    buf.save_cursor();
    buf.restore_cursor();
    assert_eq!(buf.cursor.row, 7);
    assert_eq!(buf.cursor.col, 3);
    assert_eq!(buf.current_fg, Color::new(1, 2, 3));
    assert!(buf.current_attrs.italic);
}

#[test]
fn alternate_round_trip_restores_cursor() {
    let mut buf = TerminalBuffer::new(10, 5);
    buf.set_cursor_pos(2, 3);
    buf.put_char('Q');
    buf.enter_alternate_screen();
    assert_eq!(buf.cursor.row, 0);
    assert_eq!(buf.cursor.col, 0);
    buf.exit_alternate_screen();
    assert_eq!(buf.cursor.row, 2);
    assert_eq!(buf.cursor.col, 4);
    assert_eq!(buf.cells[2][3].c, 'Q');
    assert!(buf.alternate_cells.is_none());
}

#[test]
fn scrollback_max_zero_keeps_nothing() {
    let mut buf = TerminalBuffer::new(5, 2);
    buf.scrollback_max = 0;
    buf.set_cursor_pos(1, 0);
    buf.newline();
    assert!(buf.scrollback.is_empty());
}

#[test]
fn set_then_clear_tab_stop_is_clear() {
    let mut buf = TerminalBuffer::new(80, 24);
    buf.cursor.col = 8;
    buf.set_tab_stop();
    buf.clear_tab_stop();
    assert!(!buf.tab_stops[8]);
    assert!(buf.tab_stops[16]);
}

#[test]
fn resize_to_same_size_keeps_screen() {
    let mut buf = TerminalBuffer::new(10, 4);
    buf.set_cursor_pos(3, 8);
    buf.put_char('W');
    buf.set_cursor_pos(1, 2);
    buf.resize(10, 4);
    assert_eq!(buf.cells[3][8].c, 'W');
    assert_eq!(buf.cursor.row, 1);
    assert_eq!(buf.cursor.col, 2);
}

#[test]
fn resize_keeps_cells_inside_both_sizes() {
    let mut buf = TerminalBuffer::new(10, 4);
    buf.set_cursor_pos(1, 1);
    buf.put_char('K');
    buf.set_cursor_pos(3, 8);
    buf.put_char('L');
    buf.resize(5, 3);
    assert_eq!(buf.cells.len(), 3);
    assert_eq!(buf.cells[0].len(), 5);
    assert_eq!(buf.cells[1][1].c, 'K');
    assert_eq!(buf.scroll_bottom, 2);
    assert_eq!(buf.tab_stops.len(), 5);
}

#[test]
fn erase_in_line_modes() {
    let mut buf = TerminalBuffer::new(5, 2);
    buf.set_cursor_pos(0, 0);
    for c in "ABCDE".chars() {
        buf.put_char(c);
    }
    buf.set_cursor_pos(0, 2);
    buf.erase_in_line(0);
    assert_eq!(buf.cells[0][1].c, 'B');
    assert_eq!(buf.cells[0][2].c, ' ');
    assert_eq!(buf.cells[0][4].c, ' ');
    buf.set_cursor_pos(0, 0);
    for c in "ABCDE".chars() {
        buf.put_char(c);
    }
    buf.set_cursor_pos(0, 2);
    buf.erase_in_line(1);
    assert_eq!(buf.cells[0][2].c, ' ');
    assert_eq!(buf.cells[0][3].c, 'D');
    buf.erase_in_line(2);
    assert_eq!(buf.cells[0][3].c, ' ');
}

#[test]
fn erase_in_display_clears_below() {
    let mut buf = TerminalBuffer::new(3, 3);
    for r in 0..3 {
        buf.set_cursor_pos(r, 0);
        buf.put_char('x');
    }
    buf.set_cursor_pos(1, 0);
    buf.erase_in_display(0);
    assert_eq!(buf.cells[0][0].c, 'x');
    assert_eq!(buf.cells[1][0].c, ' ');
    assert_eq!(buf.cells[2][0].c, ' ');
}

#[test]
fn scroll_view_and_visible_lines() {
    let mut buf = TerminalBuffer::new(4, 2);
    buf.set_cursor_pos(0, 0);
    buf.put_char('1');
    buf.set_cursor_pos(1, 0);
    buf.newline();
    buf.newline();
    assert_eq!(buf.scrollback.len(), 2);
    buf.scroll_view_up(1);
    assert_eq!(buf.scroll_offset, 1);
    let lines = buf.visible_lines();
    assert_eq!(lines.len(), 2);
    buf.scroll_view_down(5);
    assert_eq!(buf.scroll_offset, 0);
    buf.scroll_view_up(7);
    assert_eq!(buf.scroll_offset, 2);
    buf.reset_scroll();
    assert_eq!(buf.scroll_offset, 0);
}

#[test]
fn reverse_index_at_top_scrolls_down() {
    let mut buf = TerminalBuffer::new(3, 3);
    buf.set_cursor_pos(0, 0);
    buf.put_char('T');
    buf.set_cursor_pos(0, 0);
    buf.reverse_index();
    assert_eq!(buf.cells[0][0].c, ' ');
    assert_eq!(buf.cells[1][0].c, 'T');
}

#[test]
fn alternate_stash_fits_after_resize() {
    let mut buf = TerminalBuffer::new(10, 5);
    buf.set_cursor_pos(0, 0);
    buf.put_char('X');
    buf.set_cursor_pos(3, 9);
    buf.put_char('L');
    buf.set_cursor_pos(3, 6);
    buf.put_char('K');
    buf.enter_alternate_screen();
    buf.resize(8, 4);
    buf.put_char('A');
    buf.exit_alternate_screen();
    assert!(!buf.in_alternate_screen);
    assert_eq!(buf.cells.len(), 4);
    for row in &buf.cells {
        assert_eq!(row.len(), 8);
    }
    assert_eq!(buf.cells[0][0].c, 'X');
    assert_eq!(buf.cells[3][6].c, 'K');
    assert_eq!(buf.cells[3][7].c, ' ');
    // The stashed cursor (3, 7) fits the new size and comes back as it was.
    assert_eq!(buf.cursor.row, 3);
    assert_eq!(buf.cursor.col, 7);
    // Writing in the last column of the last row wraps and scrolls the restored screen.
    buf.put_char('Z');
    assert_eq!(buf.cells.len(), 4);
    assert_eq!(buf.cells[2][6].c, 'K');
    assert_eq!(buf.cells[2][7].c, 'Z');
}

#[test]
fn restore_after_many_edits_brings_back_pen() {
    let mut buf = TerminalBuffer::new(10, 5);
    buf.set_cursor_pos(2, 4);
    buf.set_fg(Color::new(9, 8, 7));
    buf.set_bg(Color::new(1, 1, 1));
    buf.set_italic(true);
    buf.save_cursor();
    buf.put_char('a');
    buf.newline();
    buf.set_fg(Color::new(0, 0, 0));
    buf.set_bg(Color::new(2, 2, 2));
    buf.set_italic(false);
    buf.set_underline(true);
    buf.set_cursor_pos(4, 9);
    buf.enter_alternate_screen();
    buf.clear_screen();
    buf.restore_cursor();
    assert_eq!(buf.cursor.row, 2);
    assert_eq!(buf.cursor.col, 4);
    buf.put_char('b');
    let cell = buf.cells[2][4];
    assert_eq!(cell.c, 'b');
    assert_eq!(cell.fg, Color::new(9, 8, 7));
    assert_eq!(cell.bg, Color::new(1, 1, 1));
    assert!(cell.attrs.italic);
    assert!(!cell.attrs.underline);
}

#[test]
fn alternate_round_trip_after_many_edits() {
    let mut buf = TerminalBuffer::new(6, 3);
    buf.set_cursor_pos(1, 2);
    buf.put_char('M');
    let main = buf.cells.clone();
    let cursor = buf.cursor;
    buf.enter_alternate_screen();
    buf.put_char('x');
    buf.newline();
    buf.newline();
    buf.newline();
    buf.insert_lines(1);
    buf.enter_alternate_screen();
    buf.erase_in_display(2);
    buf.set_cursor_pos(2, 5);
    buf.put_char('y');
    buf.exit_alternate_screen();
    assert!(!buf.in_alternate_screen);
    assert_eq!(buf.cells, main);
    assert_eq!(buf.cursor, cursor);
    buf.exit_alternate_screen();
    assert_eq!(buf.cells, main);
    assert_eq!(buf.cursor, cursor);
}
