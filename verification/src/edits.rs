//! Laws over sequences of edits: what a run of ordinary writes to a buffer
//! leaves alone, so that saving and restoring the cursor, and entering and
//! leaving the alternate screen, undo each other whatever happens in between.
use vstd::prelude::*;
use crate::buffer::{BufferModel, Cell, Color, CursorPos, clamp_below};

verus! {

/// The operations that edit a buffer without resizing it and without saving,
/// restoring or leaving anything: what may happen between a save and a restore,
/// or between entering and leaving the alternate screen.
pub ghost enum Edit {
    PutChar(char),
    Newline,
    CarriageReturn,
    Backspace,
    ReverseIndex,
    ScrollUp,
    ScrollDown,
    EraseChars(usize),
    ClearScreen,
    EraseInLine(u16),
    EraseInDisplay(u16),
    SetCursorPos(usize, usize),
    SetFg(Color),
    SetBg(Color),
    ResetAttrs,
    SetBold(bool),
    SetItalic(bool),
    SetUnderline(bool),
    SetInverse(bool),
    SetInsertMode(bool),
    SetCursorVisible(bool),
    SetScrollRegion(usize, usize),
    InsertLines(usize),
    DeleteLines(usize),
    InsertChars(usize),
    DeleteChars(usize),
    SetTabStop,
    ClearTabStop,
    ClearAllTabStops,
    NextTabStop,
    SetTitle(Seq<char>),
    ScrollViewUp(usize),
    ScrollViewDown(usize),
    ResetScroll,
    EnterAlternateScreen,
}

impl Edit {
    /// The buffer after this edit.
    pub open spec fn apply(self, m: BufferModel) -> BufferModel {
        match self {
            Edit::PutChar(c) => m.put_char(c),
            Edit::Newline => m.newline(),
            Edit::CarriageReturn => m.carriage_return(),
            Edit::Backspace => m.backspace(),
            Edit::ReverseIndex => m.reverse_index(),
            Edit::ScrollUp => m.scroll_up(),
            Edit::ScrollDown => m.scroll_down(),
            Edit::EraseChars(n) => m.erase_chars(n),
            Edit::ClearScreen => m.clear_screen(),
            Edit::EraseInLine(mode) => m.erase_in_line(mode),
            Edit::EraseInDisplay(mode) => m.erase_in_display(mode),
            Edit::SetCursorPos(row, col) => m.set_cursor_pos(row, col),
            Edit::SetFg(color) => m.set_fg(color),
            Edit::SetBg(color) => m.set_bg(color),
            Edit::ResetAttrs => m.reset_attrs(),
            Edit::SetBold(on) => m.set_bold(on),
            Edit::SetItalic(on) => m.set_italic(on),
            Edit::SetUnderline(on) => m.set_underline(on),
            Edit::SetInverse(on) => m.set_inverse(on),
            Edit::SetInsertMode(on) => BufferModel { insert_mode: on, ..m },
            Edit::SetCursorVisible(on) => BufferModel { cursor_visible: on, ..m },
            Edit::SetScrollRegion(top, bottom) => m.set_scroll_region(top, bottom),
            Edit::InsertLines(n) => m.insert_lines(n),
            Edit::DeleteLines(n) => m.delete_lines(n),
            Edit::InsertChars(n) => m.insert_chars(n),
            Edit::DeleteChars(n) => m.delete_chars(n),
            Edit::SetTabStop => m.set_tab_stop(),
            Edit::ClearTabStop => m.clear_tab_stop(),
            Edit::ClearAllTabStops => m.clear_all_tab_stops(),
            Edit::NextTabStop => m.next_tab_stop(),
            Edit::SetTitle(t) => m.set_title(t),
            Edit::ScrollViewUp(n) => m.scroll_view_up(n),
            Edit::ScrollViewDown(n) => m.scroll_view_down(n),
            Edit::ResetScroll => m.reset_scroll(),
            Edit::EnterAlternateScreen => m.enter_alternate_screen(),
        }
    }
}

/// The buffer after the edits, in order.
pub open spec fn apply_edits(m: BufferModel, edits: Seq<Edit>) -> BufferModel
    decreases edits.len(),
{
    if edits.len() == 0 {
        m
    } else {
        apply_edits(edits[0].apply(m), edits.drop_first())
    }
}

/// `after` has the size and the saved cursor of `before`, and when `before` is
/// on the alternate screen, `after` is too, with the same stash.
pub open spec fn keeps(before: BufferModel, after: BufferModel) -> bool {
    &&& after.saved == before.saved
    &&& after.rows == before.rows
    &&& after.cols == before.cols
    &&& before.in_alternate_screen ==> {
        &&& after.in_alternate_screen
        &&& after.stash_grid == before.stash_grid
        &&& after.stash_cursor == before.stash_cursor
    }
}

/// Edits keep the size and the saved cursor, and on the alternate screen they
/// keep the stashed main screen and its cursor.
pub proof fn lemma_edits_keep(m: BufferModel, edits: Seq<Edit>)
    ensures
        keeps(m, apply_edits(m, edits)),
    decreases edits.len(),
{
    if edits.len() > 0 {
        lemma_edit_keeps(edits[0], m);
        lemma_edits_keep(edits[0].apply(m), edits.drop_first());
    }
}

/// Scrolling, line feeds and writing a character keep what `keeps` names.
proof fn lemma_line_feeds_keep(m: BufferModel, c: char)
    ensures
        keeps(m, m.scroll_up()),
        keeps(m, m.scroll_down()),
        keeps(m, m.newline()),
        keeps(m, m.reverse_index()),
        keeps(m, m.put_char(c)),
{
    let w = BufferModel { grid: m.written(c), cursor: CursorPos { col: 0, ..m.cursor }, ..m };
    assert(keeps(w, w.newline()));
}

/// The erasing operations keep what `keeps` names.
proof fn lemma_erasures_keep(m: BufferModel, n: usize, mode: u16)
    ensures
        keeps(m, m.erase_chars(n)),
        keeps(m, m.clear_screen()),
        keeps(m, m.erase_in_line(mode)),
        keeps(m, m.erase_in_display(mode)),
{
}

/// Inserting and deleting lines and characters keep what `keeps` names.
proof fn lemma_shifts_keep(m: BufferModel, n: usize)
    ensures
        keeps(m, m.insert_lines(n)),
        keeps(m, m.delete_lines(n)),
        keeps(m, m.insert_chars(n)),
        keeps(m, m.delete_chars(n)),
{
}

/// One edit keeps the size and the saved cursor, and on the alternate screen
/// the stash.
proof fn lemma_edit_keeps(e: Edit, m: BufferModel)
    ensures
        keeps(m, e.apply(m)),
{
    match e {
        Edit::PutChar(c) => lemma_line_feeds_keep(m, c),
        Edit::Newline => lemma_line_feeds_keep(m, ' '),
        Edit::CarriageReturn => {},
        Edit::Backspace => {},
        Edit::ReverseIndex => lemma_line_feeds_keep(m, ' '),
        Edit::ScrollUp => lemma_line_feeds_keep(m, ' '),
        Edit::ScrollDown => lemma_line_feeds_keep(m, ' '),
        Edit::EraseChars(n) => lemma_erasures_keep(m, n, 0),
        Edit::ClearScreen => lemma_erasures_keep(m, 0, 0),
        Edit::EraseInLine(mode) => lemma_erasures_keep(m, 0, mode),
        Edit::EraseInDisplay(mode) => lemma_erasures_keep(m, 0, mode),
        Edit::SetCursorPos(..) => {},
        Edit::SetFg(..) => {},
        Edit::SetBg(..) => {},
        Edit::ResetAttrs => {},
        Edit::SetBold(..) => {},
        Edit::SetItalic(..) => {},
        Edit::SetUnderline(..) => {},
        Edit::SetInverse(..) => {},
        Edit::SetInsertMode(..) => {},
        Edit::SetCursorVisible(..) => {},
        Edit::SetScrollRegion(..) => {},
        Edit::InsertLines(n) => lemma_shifts_keep(m, n),
        Edit::DeleteLines(n) => lemma_shifts_keep(m, n),
        Edit::InsertChars(n) => lemma_shifts_keep(m, n),
        Edit::DeleteChars(n) => lemma_shifts_keep(m, n),
        Edit::SetTabStop => {},
        Edit::ClearTabStop => {},
        Edit::ClearAllTabStops => {},
        Edit::NextTabStop => {},
        Edit::SetTitle(..) => {},
        Edit::ScrollViewUp(..) => {},
        Edit::ScrollViewDown(..) => {},
        Edit::ResetScroll => {},
        Edit::EnterAlternateScreen => {},
    }
}

/// Restoring the cursor after any edits brings back the position it was saved
/// at, clamped to the screen, and the pen it was saved with, so the next
/// character is written in the saved colours and attributes.
pub proof fn lemma_restore_after_edits(m: BufferModel, edits: Seq<Edit>, c: char)
    ensures
        ({
            let r = apply_edits(m.save_cursor(), edits).restore_cursor();
            &&& r.cursor == (CursorPos { col: clamp_below(m.cursor.col, m.cols), row: clamp_below(m.cursor.row, m.rows) })
            &&& r.pen_fg == m.pen_fg
            &&& r.pen_bg == m.pen_bg
            &&& r.pen_attrs == m.pen_attrs
            &&& r.pen_cell(c) == (Cell { c, fg: m.pen_fg, bg: m.pen_bg, attrs: m.pen_attrs })
        }),
{
    lemma_edits_keep(m.save_cursor(), edits);
}

/// Entering the alternate screen from the main screen, editing (entering again
/// included), and leaving gives back the main screen and its cursor; leaving
/// once more changes nothing.
pub proof fn lemma_alternate_screen_after_edits(m: BufferModel, edits: Seq<Edit>)
    requires
        !m.in_alternate_screen,
    ensures
        ({
            let r = apply_edits(m.enter_alternate_screen(), edits).exit_alternate_screen();
            &&& !r.in_alternate_screen
            &&& r.grid == m.grid
            &&& r.cursor == m.cursor
            &&& r.exit_alternate_screen() == r
        }),
{
    lemma_edits_keep(m.enter_alternate_screen(), edits);
}

} // verus!
