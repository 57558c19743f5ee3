use clux::boxdraw::{box_segments_of, is_box_drawing, BorderRenderer, Segment};
use clux::buffer::Cell;
use clux::config::{ScrollbackConfig, ShellConfig};
use clux::glyph::{alpha_from_rgba, average_rgb, GlyphCache, GlyphSlot, PackingState};
use clux::selection::{extract_text, trim_trailing_spaces, CellCoord, Selection};

#[test]
fn is_box_drawing_range() {
    assert!(is_box_drawing('─'));
    assert!(is_box_drawing('│'));
    assert!(is_box_drawing('╭'));
    assert!(is_box_drawing('╯'));
    assert!(!is_box_drawing('A'));
    assert!(!is_box_drawing(' '));
}

#[test]
fn box_drawing_bounds() {
    assert!(is_box_drawing('\u{2500}'));
    assert!(is_box_drawing('\u{257F}'));
    assert!(!is_box_drawing('\u{24FF}'));
    assert!(!is_box_drawing('\u{2580}'));
    let _ = BorderRenderer::new();
    let _ = BorderRenderer::default();
}

#[test]
fn selection_ordered_forward() {
    let sel = Selection { anchor: CellCoord { col: 0, row: 0 }, end: CellCoord { col: 5, row: 2 } };
    let (start, end) = sel.ordered();
    assert_eq!(start, CellCoord { col: 0, row: 0 });
    assert_eq!(end, CellCoord { col: 5, row: 2 });
}

#[test]
fn selection_ordered_backward() {
    let sel = Selection { anchor: CellCoord { col: 5, row: 2 }, end: CellCoord { col: 0, row: 0 } };
    let (start, end) = sel.ordered();
    assert_eq!(start, CellCoord { col: 0, row: 0 });
    assert_eq!(end, CellCoord { col: 5, row: 2 });
}

fn cell(c: char) -> Cell {
    Cell { c, ..Default::default() }
}

#[test]
fn extract_text_single_line() {
    let cells = vec![vec![cell('H'), cell('i'), cell(' ')]];
    let text = extract_text(&cells, CellCoord { col: 0, row: 0 }, CellCoord { col: 1, row: 0 }, 3);
    assert_eq!(text, "Hi");
}

fn row(s: &str) -> Vec<Cell> {
    s.chars().map(cell).collect()
}

#[test]
fn extract_text_multi_line() {
    let cells = vec![row("abc  "), row("de   "), row("fgh  "), row("ijklm")];
    let text = extract_text(&cells, CellCoord { col: 1, row: 0 }, CellCoord { col: 2, row: 3 }, 5);
    assert_eq!(text, "bc\nde\nfgh\nijk");
}

#[test]
fn extract_text_rows_past_the_buffer() {
    let cells = vec![row("ab")];
    assert_eq!(extract_text(&cells, CellCoord { col: 0, row: 3 }, CellCoord { col: 1, row: 3 }, 2), "");
    assert_eq!(extract_text(&cells, CellCoord { col: 1, row: 0 }, CellCoord { col: 9, row: 5 }, 2), "b\n");
}

#[test]
fn extract_text_columns_clamped_to_width() {
    let cells = vec![row("abcdef")];
    assert_eq!(extract_text(&cells, CellCoord { col: 2, row: 0 }, CellCoord { col: usize::MAX, row: 0 }, 4), "cd");
}

#[test]
fn selection_new_is_empty() {
    let sel = Selection::new(CellCoord { col: 3, row: 4 });
    assert!(sel.is_empty());
    let moved = Selection { anchor: sel.anchor, end: CellCoord { col: 4, row: 4 } };
    assert!(!moved.is_empty());
}

#[test]
fn trim_trailing_spaces_only_trailing() {
    assert_eq!(trim_trailing_spaces("  a b  "), "  a b");
    assert_eq!(trim_trailing_spaces("   "), "");
    assert_eq!(trim_trailing_spaces("x\t "), "x\t");
}

#[test]
fn default_config_is_valid() {
    assert_eq!(ShellConfig::default().default, "pwsh.exe");
    assert_eq!(ScrollbackConfig::default().max_lines, 10_000);
}

#[test]
fn packing_fills_rows_then_wraps() {
    let mut p = PackingState::new();
    assert_eq!(p.allocate(10, 5, 32, 32), Some((0, 0)));
    assert_eq!(p.allocate(10, 8, 32, 32), Some((11, 0)));
    // 22 + 11 > 32: next row starts below the tallest glyph (9 with padding).
    assert_eq!(p.allocate(10, 5, 32, 32), Some((0, 9)));
    assert_eq!(p, PackingState { current_x: 11, current_y: 9, row_height: 6 });
}

#[test]
fn packing_reports_full_atlas() {
    let mut p = PackingState::new();
    assert_eq!(p.allocate(10, 20, 16, 16), None);
    let mut q = PackingState { current_x: 0, current_y: 10, row_height: 5 };
    assert_eq!(q.allocate(4, 6, 16, 16), None);
    assert_eq!(q.allocate(4, 4, 16, 16), Some((0, 10)));
}

#[test]
fn pixel_conversions() {
    assert_eq!(alpha_from_rgba(&[1, 2, 3, 4, 5, 6, 7, 8]), vec![4, 8]);
    assert_eq!(average_rgb(&[3, 3, 3, 255, 255, 254]), vec![3, 254]);
    assert!(alpha_from_rgba(&[]).is_empty());
}

#[test]
fn box_segments_of_corners_and_lines() {
    assert_eq!(box_segments_of('─'), vec![Segment::HorizontalFull]);
    assert_eq!(box_segments_of('┃'), vec![Segment::HeavyVertical]);
    assert_eq!(box_segments_of('┌'), vec![Segment::RightFromCentre, Segment::DownFromCentre]);
    assert_eq!(box_segments_of('╭'), box_segments_of('┌'));
    assert_eq!(box_segments_of('╯'), vec![Segment::LeftToCentre, Segment::UpToCentre]);
    assert_eq!(box_segments_of('┼'), vec![Segment::HorizontalFull, Segment::VerticalFull]);
    assert_eq!(box_segments_of('═'), vec![Segment::DoubleUpper, Segment::DoubleLower]);
    assert_eq!(box_segments_of('╷'), vec![Segment::HalfDown]);
}

#[test]
fn box_segments_of_other_characters_is_empty() {
    assert!(box_segments_of('a').is_empty());
    assert!(box_segments_of(' ').is_empty());
    // In the box-drawing block but left to the font.
    assert!(box_segments_of('\u{2504}').is_empty());
}

#[test]
fn glyph_cache_finds_what_it_remembers() {
    let mut cache = GlyphCache::new();
    let size = 14.0f32.to_bits();
    let other_size = 16.0f32.to_bits();
    assert_eq!(cache.lookup('a', size), None);
    let slot = GlyphSlot { x: 10, y: 20, width: 7, height: 12, offset_x: 1, offset_y: -3 };
    cache.remember('a', size, slot);
    assert_eq!(cache.lookup('a', size), Some(slot));
    assert_eq!(cache.lookup('a', other_size), None);
    assert_eq!(cache.lookup('b', size), None);
    let blank = GlyphSlot { x: 0, y: 0, width: 0, height: 0, offset_x: 0, offset_y: 0 };
    cache.remember('\u{10FFFF}', u32::MAX, blank);
    assert_eq!(cache.lookup('\u{10FFFF}', u32::MAX), Some(blank));
    assert_eq!(cache.lookup('a', size), Some(slot));
    let moved = GlyphSlot { x: 30, ..slot };
    cache.remember('a', size, moved);
    assert_eq!(cache.lookup('a', size), Some(moved));
}
