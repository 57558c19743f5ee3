//! The terminal screen: a grid of cells, the cursor and pen, the scroll region,
//! scrollback history, the alternate screen and tab stops. Every operation is
//! specified over `BufferModel`, the buffer's abstract state.
use vstd::prelude::*;

verus! {

/// An RGB colour.
#[derive(Debug, Clone, Copy, PartialEq, Eq, Structural)]
pub struct Color {
    pub r: u8,
    pub g: u8,
    pub b: u8,
}

pub open spec fn white() -> Color {
    Color { r: 255, g: 255, b: 255 }
}

pub open spec fn black() -> Color {
    Color { r: 0, g: 0, b: 0 }
}

impl Color {
    pub fn new(r: u8, g: u8, b: u8) -> (c: Self)
        ensures
            c == (Color { r, g, b }),
    {
        Self { r, g, b }
    }

    pub fn black() -> (c: Self)
        ensures
            c == black(),
    {
        Self::new(0, 0, 0)
    }

    pub fn white() -> (c: Self)
        ensures
            c == white(),
    {
        Self::new(255, 255, 255)
    }
}

impl Default for Color {
    fn default() -> (c: Self)
        ensures
            c == white(),
    {
        Self::white()
    }
}

/// Text attributes of a cell.
#[derive(Debug, Clone, Copy, PartialEq, Eq, Structural)]
pub struct CellAttrs {
    pub bold: bool,
    pub italic: bool,
    pub underline: bool,
    pub inverse: bool,
}

pub open spec fn plain_attrs() -> CellAttrs {
    CellAttrs { bold: false, italic: false, underline: false, inverse: false }
}

impl Default for CellAttrs {
    fn default() -> (a: Self)
        ensures
            a == plain_attrs(),
    {
        CellAttrs { bold: false, italic: false, underline: false, inverse: false }
    }
}

/// One character cell of the screen.
#[derive(Debug, Clone, Copy, PartialEq, Eq, Structural)]
pub struct Cell {
    pub c: char,
    pub fg: Color,
    pub bg: Color,
    pub attrs: CellAttrs,
}

/// A space in white on black with no attributes.
pub open spec fn blank_cell() -> Cell {
    Cell { c: ' ', fg: white(), bg: black(), attrs: plain_attrs() }
}

impl Default for Cell {
    fn default() -> (cell: Self)
        ensures
            cell == blank_cell(),
    {
        Cell { c: ' ', fg: Color::white(), bg: Color::black(), attrs: CellAttrs::default() }
    }
}

#[derive(Debug, Clone, Copy, PartialEq, Eq, Structural)]
pub struct CursorPos {
    pub col: usize,
    pub row: usize,
}

pub open spec fn home() -> CursorPos {
    CursorPos { col: 0, row: 0 }
}

impl Default for CursorPos {
    fn default() -> (p: Self)
        ensures
            p == home(),
    {
        CursorPos { col: 0, row: 0 }
    }
}

/// Saved cursor state for save/restore operations.
#[derive(Debug, Clone, Copy, PartialEq, Eq, Structural)]
pub struct SavedCursor {
    pub pos: CursorPos,
    pub fg: Color,
    pub bg: Color,
    pub attrs: CellAttrs,
}

pub open spec fn initial_saved_cursor() -> SavedCursor {
    SavedCursor { pos: home(), fg: white(), bg: black(), attrs: plain_attrs() }
}

impl Default for SavedCursor {
    fn default() -> (s: Self)
        ensures
            s == initial_saved_cursor(),
    {
        SavedCursor {
            pos: CursorPos::default(),
            fg: Color::white(),
            bg: Color::black(),
            attrs: CellAttrs::default(),
        }
    }
}

/// Default scrollback buffer capacity in lines.
pub const DEFAULT_SCROLLBACK_MAX: usize = 10_000;

/// A row of `cols` blank cells.
pub open spec fn blank_row(cols: nat) -> Seq<Cell> {
    crate::seqs::fill(cols as int, blank_cell())
}

/// `rows` rows of `cols` blank cells.
pub open spec fn blank_grid(cols: nat, rows: nat) -> Seq<Seq<Cell>> {
    crate::seqs::fill(rows as int, blank_row(cols))
}

/// The rows of a grid as sequences.
pub open spec fn grid_of(v: Seq<Vec<Cell>>) -> Seq<Seq<Cell>> {
    Seq::new(v.len(), |i: int| v[i]@)
}

/// Default tab stops: every eighth column, not column 0.
pub open spec fn default_tab_stops(cols: nat) -> Seq<bool> {
    Seq::new(cols, |i: int| i > 0 && i % 8 == 0)
}

/// `x` clamped to at most `n - 1` (0 when `n` is 0).
pub open spec fn clamp_below(x: usize, n: usize) -> usize {
    if n == 0 {
        0
    } else if x < n {
        x
    } else {
        (n - 1) as usize
    }
}

/// A fresh vector of `cols` blank cells.
pub fn new_blank_row(cols: usize) -> (row: Vec<Cell>)
    ensures
        row@ == blank_row(cols as nat),
{
    let mut row: Vec<Cell> = Vec::new();
    let mut i: usize = 0;
    while i < cols
        invariant
            i <= cols,
            row@ == blank_row(i as nat),
        decreases cols - i,
    {
        row.push(Cell::default());
        i = i + 1;
        assert(row@ =~= blank_row(i as nat));
    }
    row
}

/// A fresh grid of `rows` rows of `cols` blank cells.
pub fn new_blank_grid(cols: usize, rows: usize) -> (grid: Vec<Vec<Cell>>)
    ensures
        grid_of(grid@) == blank_grid(cols as nat, rows as nat),
{
    let mut grid: Vec<Vec<Cell>> = Vec::new();
    let mut i: usize = 0;
    while i < rows
        invariant
            i <= rows,
            grid@.len() == i,
            grid_of(grid@) == blank_grid(cols as nat, i as nat),
        decreases rows - i,
    {
        let ghost prev = grid@;
        let row = new_blank_row(cols);
        grid.push(row);
        i = i + 1;
        assert forall|j: int| 0 <= j < i implies #[trigger] grid@[j]@ == blank_row(cols as nat) by {
            if j < i - 1 {
                assert(grid@[j] == prev[j]);
                assert(grid_of(prev)[j] == blank_row(cols as nat));
            }
        }
        assert(grid_of(grid@) =~= blank_grid(cols as nat, i as nat));
    }
    grid
}

/// Initialize tab stops at every 8 columns.
pub fn init_tab_stops(cols: usize) -> (stops: Vec<bool>)
    ensures
        stops@ == default_tab_stops(cols as nat),
{
    let mut stops: Vec<bool> = Vec::new();
    let mut i: usize = 0;
    while i < cols
        invariant
            i <= cols,
            stops@ == default_tab_stops(i as nat),
        decreases cols - i,
    {
        stops.push(i > 0 && i % 8 == 0);
        i = i + 1;
        assert(stops@ =~= default_tab_stops(i as nat));
    }
    stops
}


/// The terminal screen buffer.
pub struct TerminalBuffer {
    pub cols: usize,
    pub rows: usize,
    pub cells: Vec<Vec<Cell>>,
    pub cursor: CursorPos,
    pub default_fg: Color,
    pub default_bg: Color,
    pub current_fg: Color,
    pub current_bg: Color,
    pub current_attrs: CellAttrs,
    /// Top of the scroll region (inclusive, 0-indexed).
    pub scroll_top: usize,
    /// Bottom of the scroll region (inclusive, 0-indexed).
    pub scroll_bottom: usize,
    /// Lines scrolled off the top of the main screen, oldest first.
    pub scrollback: Vec<Vec<Cell>>,
    pub scrollback_max: usize,
    pub saved_cursor: SavedCursor,
    pub alternate_cells: Option<Vec<Vec<Cell>>>,
    pub alternate_cursor: Option<CursorPos>,
    /// True when the alternate screen is active.
    pub in_alternate_screen: bool,
    pub insert_mode: bool,
    pub tab_stops: Vec<bool>,
    /// Window title (set via OSC).
    pub title: String,
    /// Current scroll offset (0 = at the bottom / live view).
    /// Positive values scroll back into history.
    pub scroll_offset: usize,
    /// Whether the cursor should be displayed (DECTCEM).
    pub cursor_visible: bool,
}

/// The abstract state of a terminal buffer: what every operation is specified over.
pub ghost struct BufferModel {
    pub cols: usize,
    pub rows: usize,
    pub grid: Seq<Seq<Cell>>,
    pub cursor: CursorPos,
    pub default_fg: Color,
    pub default_bg: Color,
    pub pen_fg: Color,
    pub pen_bg: Color,
    pub pen_attrs: CellAttrs,
    pub scroll_top: usize,
    pub scroll_bottom: usize,
    pub history: Seq<Seq<Cell>>,
    pub scrollback_max: usize,
    pub saved: SavedCursor,
    pub stash_grid: Option<Seq<Seq<Cell>>>,
    pub stash_cursor: Option<CursorPos>,
    pub in_alternate_screen: bool,
    pub insert_mode: bool,
    pub tab_stops: Seq<bool>,
    pub title: Seq<char>,
    pub scroll_offset: usize,
    pub cursor_visible: bool,
}

impl BufferModel {
    /// The grid has `rows` rows of `cols` cells, the tab-stop table has `cols` entries,
    /// the cursor and the scroll region's bottom lie on the screen (or at 0 on an
    /// empty one), and the stashed main screen, if any, fits the current size.
    pub open spec fn wf(self) -> bool {
        &&& self.grid.len() == self.rows
        &&& forall|r: int| 0 <= r < self.rows ==> (#[trigger] self.grid[r]).len() == self.cols
        &&& self.tab_stops.len() == self.cols
        &&& (self.scroll_bottom < self.rows || self.scroll_bottom == 0)
        &&& (self.cursor.row < self.rows || self.cursor.row == 0)
        &&& (self.cursor.col < self.cols || self.cursor.col == 0)
        &&& self.stash_fits()
    }

    /// Scrolling is possible: both ends of the scroll region lie on the screen.
    pub open spec fn scroll_ok(self) -> bool {
        self.scroll_top < self.rows && self.scroll_bottom < self.rows
    }

    /// A line feed here cannot fail: scrolling, when it happens, has a region on the screen.
    pub open spec fn newline_ok(self) -> bool {
        self.cursor.row == self.scroll_bottom ==> self.scroll_ok()
    }

    /// A reverse line feed here cannot fail.
    pub open spec fn reverse_index_ok(self) -> bool {
        self.cursor.row == self.scroll_top ==> self.scroll_ok()
    }

    /// Writing a character here cannot fail: a wrap at the bottom of the region scrolls a
    /// region whose top is on the screen.
    pub open spec fn put_char_ok(self) -> bool {
        self.cursor.col + 1 == self.cols && self.cursor.row == self.scroll_bottom && self.cursor.row
            < self.rows ==> self.scroll_top < self.rows
    }

    /// `erase_in_line(mode)` cannot fail: the modes that touch the cursor's line need it
    /// on the screen, and mode 1 needs at least one column.
    pub open spec fn erase_in_line_ok(self, mode: u16) -> bool {
        &&& mode <= 2 ==> self.cursor.row < self.rows
        &&& mode == 1 ==> self.cols > 0
    }

    /// `erase_in_display(mode)` cannot fail.
    pub open spec fn erase_in_display_ok(self, mode: u16) -> bool {
        &&& mode <= 1 ==> self.cursor.row < self.rows
        &&& mode == 1 ==> self.cols > 0
    }

    /// Both the stashed main screen and its cursor fit the current size.
    pub open spec fn stash_fits(self) -> bool {
        &&& (self.stash_grid matches Some(g) ==> g.len() == self.rows && forall|r: int|
            0 <= r < self.rows ==> (#[trigger] g[r]).len() == self.cols)
        &&& (self.stash_cursor matches Some(p) ==> (p.row < self.rows || p.row == 0) && (p.col
            < self.cols || p.col == 0))
    }

    /// The cell that `put_char(c)` writes.
    pub open spec fn pen_cell(self, c: char) -> Cell {
        Cell { c, fg: self.pen_fg, bg: self.pen_bg, attrs: self.pen_attrs }
    }

    /// A fresh `cols` x `rows` screen.
    pub open spec fn fresh(cols: usize, rows: usize) -> Self {
        BufferModel {
            cols,
            rows,
            grid: blank_grid(cols as nat, rows as nat),
            cursor: home(),
            default_fg: white(),
            default_bg: black(),
            pen_fg: white(),
            pen_bg: black(),
            pen_attrs: plain_attrs(),
            scroll_top: 0,
            scroll_bottom: clamp_below(usize::MAX, rows),
            history: Seq::empty(),
            scrollback_max: DEFAULT_SCROLLBACK_MAX,
            saved: initial_saved_cursor(),
            stash_grid: None,
            stash_cursor: None,
            in_alternate_screen: false,
            insert_mode: false,
            tab_stops: default_tab_stops(cols as nat),
            title: Seq::empty(),
            scroll_offset: 0,
            cursor_visible: true,
        }
    }

    /// The screen cut or padded with blank cells to `cols` x `rows`, the cursor
    /// clamped, the scroll region the whole screen and the tab stops reset. A
    /// stashed main screen and its cursor are fitted to the new size too, so that
    /// leaving the alternate screen puts back a screen of the current size.
    pub open spec fn resize(self, cols: usize, rows: usize) -> Self {
        BufferModel {
            cols,
            rows,
            grid: resized_grid(self.grid, self.cols as nat, self.rows as nat, cols as nat, rows as nat),
            cursor: CursorPos { col: clamp_below(self.cursor.col, cols), row: clamp_below(self.cursor.row, rows) },
            scroll_bottom: clamp_below(usize::MAX, rows),
            tab_stops: default_tab_stops(cols as nat),
            stash_grid: match self.stash_grid {
                Some(g) => Some(resized_grid(g, self.cols as nat, self.rows as nat, cols as nat, rows as nat)),
                None => None,
            },
            stash_cursor: match self.stash_cursor {
                Some(p) => Some(CursorPos { col: clamp_below(p.col, cols), row: clamp_below(p.row, rows) }),
                None => None,
            },
            ..self
        }
    }

    /// The history after the region scrolls up: the top line is kept only when the main
    /// screen scrolls from its first row.
    pub open spec fn history_after_scroll(self) -> Seq<Seq<Cell>> {
        if !self.in_alternate_screen && self.scroll_top == 0 {
            push_history(self.history, self.grid[0], self.scrollback_max as nat)
        } else {
            self.history
        }
    }

    pub open spec fn scroll_up(self) -> Self {
        BufferModel {
            grid: scroll_grid_up(self.grid, self.scroll_top as int, self.scroll_bottom as int, self.cols as nat),
            history: self.history_after_scroll(),
            ..self
        }
    }

    pub open spec fn scroll_down(self) -> Self {
        BufferModel {
            grid: scroll_grid_down(self.grid, self.scroll_top as int, self.scroll_bottom as int, self.cols as nat),
            ..self
        }
    }

    /// Line feed: at the bottom of the scroll region the region scrolls up, elsewhere
    /// the cursor moves down unless it is on the last row.
    pub open spec fn newline(self) -> Self {
        if self.cursor.row == self.scroll_bottom {
            self.scroll_up()
        } else if self.cursor.row + 1 < self.rows {
            BufferModel { cursor: CursorPos { row: (self.cursor.row + 1) as usize, ..self.cursor }, ..self }
        } else {
            self
        }
    }

    /// Reverse line feed: at the top of the scroll region the region scrolls down,
    /// elsewhere the cursor moves up unless it is on the first row.
    pub open spec fn reverse_index(self) -> Self {
        if self.cursor.row == self.scroll_top {
            self.scroll_down()
        } else if self.cursor.row > 0 {
            BufferModel { cursor: CursorPos { row: (self.cursor.row - 1) as usize, ..self.cursor }, ..self }
        } else {
            self
        }
    }

    pub open spec fn carriage_return(self) -> Self {
        BufferModel { cursor: CursorPos { col: 0, ..self.cursor }, ..self }
    }

    pub open spec fn backspace(self) -> Self {
        BufferModel {
            cursor: CursorPos {
                col: if self.cursor.col > 0 { (self.cursor.col - 1) as usize } else { 0 },
                ..self.cursor
            },
            ..self
        }
    }

    /// The grid once `put_char(c)` has written its cell: in insert mode the rest of
    /// the line first moves one column right, losing its last cell.
    pub open spec fn written(self, c: char) -> Seq<Seq<Cell>> {
        let row = self.cursor.row as int;
        let col = self.cursor.col as int;
        let line = if self.insert_mode {
            crate::seqs::shift_in(self.grid[row], col, self.cols - 1, 1, blank_cell())
        } else {
            self.grid[row]
        };
        self.grid.update(row, line.update(col, self.pen_cell(c)))
    }

    /// Write `c` at the cursor and advance, wrapping to the next line past the last
    /// column; off the screen nothing happens.
    pub open spec fn put_char(self, c: char) -> Self {
        if self.cursor.col < self.cols && self.cursor.row < self.rows {
            if self.cursor.col + 1 < self.cols {
                BufferModel {
                    grid: self.written(c),
                    cursor: CursorPos { col: (self.cursor.col + 1) as usize, ..self.cursor },
                    ..self
                }
            } else {
                BufferModel {
                    grid: self.written(c),
                    cursor: CursorPos { col: 0, ..self.cursor },
                    ..self
                }.newline()
            }
        } else {
            self
        }
    }

    pub open spec fn erase_chars(self, n: usize) -> Self {
        BufferModel {
            grid: if self.cursor.row < self.rows {
                self.grid.update(
                    self.cursor.row as int,
                    blank_span(
                        self.grid[self.cursor.row as int],
                        self.cursor.col as int,
                        crate::seqs::min_int(self.cursor.col + n, self.cols as int),
                    ),
                )
            } else {
                self.grid
            },
            ..self
        }
    }

    pub open spec fn clear_screen(self) -> Self {
        BufferModel { grid: blank_grid(self.cols as nat, self.rows as nat), cursor: home(), ..self }
    }

    pub open spec fn erase_in_line(self, mode: u16) -> Self {
        let row = self.cursor.row as int;
        BufferModel {
            grid: if mode == 0 {
                self.grid.update(row, blank_span(self.grid[row], self.cursor.col as int, self.cols as int))
            } else if mode == 1 {
                self.grid.update(
                    row,
                    blank_span(self.grid[row], 0, crate::seqs::min_int(self.cursor.col as int, self.cols - 1) + 1),
                )
            } else if mode == 2 {
                self.grid.update(row, blank_row(self.cols as nat))
            } else {
                self.grid
            },
            ..self
        }
    }

    /// The grid after `erase_in_display(mode)` for modes other than 2 and 3.
    pub open spec fn display_erased(self, mode: u16) -> Seq<Seq<Cell>> {
        let row = self.cursor.row as int;
        let col = self.cursor.col as int;
        let cols = self.cols as int;
        if mode == 0 {
            Seq::new(
                self.grid.len(),
                |r: int|
                    if r > row {
                        blank_row(self.cols as nat)
                    } else if r == row {
                        blank_span(self.grid[r], col, cols)
                    } else {
                        self.grid[r]
                    },
            )
        } else if mode == 1 {
            Seq::new(
                self.grid.len(),
                |r: int|
                    if r < row {
                        blank_row(self.cols as nat)
                    } else if r == row {
                        blank_span(self.grid[r], 0, crate::seqs::min_int(col, cols - 1) + 1)
                    } else {
                        self.grid[r]
                    },
            )
        } else {
            self.grid
        }
    }

    pub open spec fn erase_in_display(self, mode: u16) -> Self {
        if mode == 2 || mode == 3 {
            self.clear_screen()
        } else {
            BufferModel { grid: self.display_erased(mode), ..self }
        }
    }

    pub open spec fn set_cursor_pos(self, row: usize, col: usize) -> Self {
        BufferModel {
            cursor: CursorPos { col: clamp_below(col, self.cols), row: clamp_below(row, self.rows) },
            ..self
        }
    }

    pub open spec fn set_fg(self, color: Color) -> Self {
        BufferModel { pen_fg: color, ..self }
    }

    pub open spec fn set_bg(self, color: Color) -> Self {
        BufferModel { pen_bg: color, ..self }
    }

    pub open spec fn reset_attrs(self) -> Self {
        BufferModel { pen_fg: self.default_fg, pen_bg: self.default_bg, pen_attrs: plain_attrs(), ..self }
    }

    pub open spec fn set_bold(self, on: bool) -> Self {
        BufferModel { pen_attrs: CellAttrs { bold: on, ..self.pen_attrs }, ..self }
    }

    pub open spec fn set_italic(self, on: bool) -> Self {
        BufferModel { pen_attrs: CellAttrs { italic: on, ..self.pen_attrs }, ..self }
    }

    pub open spec fn set_underline(self, on: bool) -> Self {
        BufferModel { pen_attrs: CellAttrs { underline: on, ..self.pen_attrs }, ..self }
    }

    pub open spec fn set_inverse(self, on: bool) -> Self {
        BufferModel { pen_attrs: CellAttrs { inverse: on, ..self.pen_attrs }, ..self }
    }

    /// The region becomes the clamped `[top, bottom]` when that is non-empty and more
    /// than one row; the cursor goes home either way.
    pub open spec fn set_scroll_region(self, top: usize, bottom: usize) -> Self {
        let t = clamp_below(top, self.rows);
        let b = clamp_below(bottom, self.rows);
        BufferModel {
            scroll_top: if t < b { t } else { self.scroll_top },
            scroll_bottom: if t < b { b } else { self.scroll_bottom },
            cursor: home(),
            ..self
        }
    }

    pub open spec fn save_cursor(self) -> Self {
        BufferModel {
            saved: SavedCursor { pos: self.cursor, fg: self.pen_fg, bg: self.pen_bg, attrs: self.pen_attrs },
            ..self
        }
    }

    /// The saved pen comes back, and the saved position clamped to the screen.
    pub open spec fn restore_cursor(self) -> Self {
        BufferModel {
            cursor: CursorPos {
                col: clamp_below(self.saved.pos.col, self.cols),
                row: clamp_below(self.saved.pos.row, self.rows),
            },
            pen_fg: self.saved.fg,
            pen_bg: self.saved.bg,
            pen_attrs: self.saved.attrs,
            ..self
        }
    }

    pub open spec fn enter_alternate_screen(self) -> Self {
        if self.in_alternate_screen {
            self
        } else {
            BufferModel {
                in_alternate_screen: true,
                stash_grid: Some(self.grid),
                stash_cursor: Some(self.cursor),
                grid: blank_grid(self.cols as nat, self.rows as nat),
                cursor: home(),
                ..self
            }
        }
    }

    pub open spec fn exit_alternate_screen(self) -> Self {
        if !self.in_alternate_screen {
            self
        } else {
            BufferModel {
                in_alternate_screen: false,
                grid: match self.stash_grid {
                    Some(g) => g,
                    None => self.grid,
                },
                cursor: match self.stash_cursor {
                    Some(p) => p,
                    None => self.cursor,
                },
                stash_grid: None,
                stash_cursor: None,
                ..self
            }
        }
    }

    pub open spec fn in_region(self) -> bool {
        self.scroll_top <= self.cursor.row <= self.scroll_bottom
    }

    pub open spec fn insert_lines(self, n: usize) -> Self {
        if !self.in_region() {
            self
        } else {
            BufferModel {
                grid: if self.rows > 0 {
                    crate::seqs::shift_in(
                        self.grid,
                        self.cursor.row as int,
                        self.scroll_bottom as int,
                        crate::seqs::min_int(n as int, self.scroll_bottom - self.cursor.row + 1),
                        blank_row(self.cols as nat),
                    )
                } else if n > 0 {
                    seq![blank_row(self.cols as nat)]
                } else {
                    self.grid
                },
                cursor: CursorPos { col: 0, ..self.cursor },
                ..self
            }
        }
    }

    pub open spec fn delete_lines(self, n: usize) -> Self {
        if !self.in_region() {
            self
        } else {
            BufferModel {
                grid: if self.rows > 0 {
                    crate::seqs::shift_out(
                        self.grid,
                        self.cursor.row as int,
                        self.scroll_bottom as int,
                        crate::seqs::min_int(n as int, self.scroll_bottom - self.cursor.row + 1),
                        blank_row(self.cols as nat),
                    )
                } else if n > 0 {
                    seq![blank_row(self.cols as nat)]
                } else {
                    self.grid
                },
                cursor: CursorPos { col: 0, ..self.cursor },
                ..self
            }
        }
    }

    pub open spec fn on_screen(self) -> bool {
        self.cursor.row < self.rows && self.cursor.col < self.cols
    }

    pub open spec fn insert_chars(self, n: usize) -> Self {
        if !self.on_screen() {
            self
        } else {
            BufferModel {
                grid: self.grid.update(
                    self.cursor.row as int,
                    crate::seqs::shift_in(
                        self.grid[self.cursor.row as int],
                        self.cursor.col as int,
                        self.cols - 1,
                        crate::seqs::min_int(n as int, self.cols - self.cursor.col),
                        blank_cell(),
                    ),
                ),
                ..self
            }
        }
    }

    pub open spec fn delete_chars(self, n: usize) -> Self {
        if !self.on_screen() {
            self
        } else {
            BufferModel {
                grid: self.grid.update(
                    self.cursor.row as int,
                    crate::seqs::shift_out(
                        self.grid[self.cursor.row as int],
                        self.cursor.col as int,
                        self.cols - 1,
                        crate::seqs::min_int(n as int, self.cols - self.cursor.col),
                        blank_cell(),
                    ),
                ),
                ..self
            }
        }
    }

    pub open spec fn set_tab_stop(self) -> Self {
        BufferModel {
            tab_stops: if self.cursor.col < self.tab_stops.len() {
                self.tab_stops.update(self.cursor.col as int, true)
            } else {
                self.tab_stops
            },
            ..self
        }
    }

    pub open spec fn clear_tab_stop(self) -> Self {
        BufferModel {
            tab_stops: if self.cursor.col < self.tab_stops.len() {
                self.tab_stops.update(self.cursor.col as int, false)
            } else {
                self.tab_stops
            },
            ..self
        }
    }

    pub open spec fn clear_all_tab_stops(self) -> Self {
        BufferModel { tab_stops: no_tab_stops(self.tab_stops.len()), ..self }
    }

    pub open spec fn next_tab_stop(self) -> Self {
        BufferModel {
            cursor: CursorPos {
                col: next_stop(self.tab_stops, self.cursor.col as int, self.cols as int) as usize,
                ..self.cursor
            },
            ..self
        }
    }

    pub open spec fn set_title(self, title: Seq<char>) -> Self {
        BufferModel { title, ..self }
    }

    pub open spec fn scroll_view_up(self, n: usize) -> Self {
        BufferModel {
            scroll_offset: crate::seqs::min_int(self.scroll_offset + n, self.history.len() as int) as usize,
            ..self
        }
    }

    pub open spec fn scroll_view_down(self, n: usize) -> Self {
        BufferModel {
            scroll_offset: if self.scroll_offset >= n { (self.scroll_offset - n) as usize } else { 0 },
            ..self
        }
    }

    pub open spec fn reset_scroll(self) -> Self {
        BufferModel { scroll_offset: 0, ..self }
    }

    /// The lines shown: the live screen, or when scrolled back the last `scroll_offset`
    /// history lines (at most a screenful) followed by the top of the screen.
    pub open spec fn visible(self) -> Seq<Seq<Cell>> {
        if self.scroll_offset == 0 {
            self.grid
        } else {
            let sb_len = self.history.len() as int;
            let offset = crate::seqs::min_int(self.scroll_offset as int, sb_len);
            let sb_visible = crate::seqs::min_int(offset, self.rows as int);
            let sb_start = sb_len - offset;
            self.history.subrange(sb_start, sb_start + sb_visible) + self.grid.take(
                crate::seqs::min_int(self.rows - sb_visible, self.grid.len() as int),
            )
        }
    }
}

/// A `cols` x `rows` grid holding the cells of `old` that lie inside both sizes,
/// blank elsewhere.
fn resized_cells(old: &Vec<Vec<Cell>>, old_cols: usize, old_rows: usize, cols: usize, rows: usize) -> (new_cells: Vec<Vec<Cell>>)
    ensures
        grid_of(new_cells@) == resized_grid(grid_of(old@), old_cols as nat, old_rows as nat, cols as nat, rows as nat),
{
        let mut new_cells = new_blank_grid(cols, rows);
        let copy_rows = if old_rows < rows { old_rows } else { rows };
        let copy_cols = if old_cols < cols { old_cols } else { cols };
        let n_rows = if copy_rows < old.len() { copy_rows } else { old.len() };
        let ghost old_grid = grid_of(old@);
        let ghost target = resized_grid(old_grid, old_cols as nat, old_rows as nat, cols as nat, rows as nat);
        proof {
            assert(new_cells@.len() == grid_of(new_cells@).len());
            assert forall|i: int| 0 <= i < rows implies (#[trigger] new_cells@[i])@ == blank_row(cols as nat) by {
                assert(grid_of(new_cells@)[i] == new_cells@[i]@);
            }
        }
        let mut r: usize = 0;
        while r < n_rows
            invariant
                n_rows <= copy_rows,
                n_rows <= old@.len(),
                copy_rows <= rows,
                copy_rows <= old_rows,
                copy_cols <= cols,
                copy_cols <= old_cols,
                copy_cols == old_cols || copy_cols == cols,
                old_grid == grid_of(old@),
                target == resized_grid(old_grid, old_cols as nat, old_rows as nat, cols as nat, rows as nat),
                r <= n_rows,
                new_cells@.len() == rows,
                forall|i: int| 0 <= i < rows ==> (#[trigger] new_cells@[i])@.len() == cols,
                forall|i: int, j: int| 0 <= i < r && 0 <= j < cols ==> (#[trigger] new_cells@[i]@[j]) == target[i][j],
                forall|i: int, j: int| r <= i < rows && 0 <= j < cols ==> (#[trigger] new_cells@[i]@[j]) == blank_cell(),
            decreases n_rows - r,
        {
            let old_len = old[r].len();
            let n_cols = if copy_cols < old_len { copy_cols } else { old_len };
            let mut c: usize = 0;
            while c < n_cols
                invariant
                    n_rows <= copy_rows,
                    n_rows <= old@.len(),
                    copy_rows <= rows,
                    copy_cols <= cols,
                    copy_rows <= old_rows,
                    copy_cols <= old_cols,
                    old_grid == grid_of(old@),
                    target == resized_grid(old_grid, old_cols as nat, old_rows as nat, cols as nat, rows as nat),
                    r < n_rows,
                    old_len == old@[r as int]@.len(),
                    n_cols <= copy_cols,
                    n_cols <= old_len,
                    n_cols == copy_cols || n_cols == old_len,
                    copy_cols == old_cols || copy_cols == cols,
                    c <= n_cols,
                    new_cells@.len() == rows,
                    forall|i: int| 0 <= i < rows ==> (#[trigger] new_cells@[i])@.len() == cols,
                    forall|i: int, j: int| 0 <= i < r && 0 <= j < cols ==> (#[trigger] new_cells@[i]@[j]) == target[i][j],
                    forall|i: int, j: int| r < i < rows && 0 <= j < cols ==> (#[trigger] new_cells@[i]@[j]) == blank_cell(),
                    forall|j: int| 0 <= j < c ==> (#[trigger] new_cells@[r as int]@[j]) == old_grid[r as int][j],
                    forall|j: int| c <= j < cols ==> (#[trigger] new_cells@[r as int]@[j]) == blank_cell(),
                decreases n_cols - c,
            {
                let cell = old[r][c];
                new_cells[r][c] = cell;
                c = c + 1;
            }
            proof {
                assert(old_grid[r as int] == old@[r as int]@);
                assert forall|j: int| 0 <= j < cols implies (#[trigger] new_cells@[r as int]@[j]) == target[r as int][j] by {
                    let ri = r as int;
                    assert(target[ri][j] == (if ri < old_rows && ri < old_grid.len() && j < old_cols && j < old_grid[ri].len() {
                        old_grid[ri][j]
                    } else {
                        blank_cell()
                    }));
                    if j < n_cols {
                    } else {
                    }
                }
            }
            r = r + 1;
        }
        proof {
            assert(grid_of(old@) =~= old_grid);
            assert(grid_of(new_cells@) =~= target) by {
                assert forall|i: int| 0 <= i < rows implies grid_of(new_cells@)[i] =~= target[i] by {
                }
            }
        }
    new_cells
}

impl View for TerminalBuffer {
    type V = BufferModel;

    open spec fn view(&self) -> BufferModel {
        BufferModel {
            cols: self.cols,
            rows: self.rows,
            grid: grid_of(self.cells@),
            cursor: self.cursor,
            default_fg: self.default_fg,
            default_bg: self.default_bg,
            pen_fg: self.current_fg,
            pen_bg: self.current_bg,
            pen_attrs: self.current_attrs,
            scroll_top: self.scroll_top,
            scroll_bottom: self.scroll_bottom,
            history: grid_of(self.scrollback@),
            scrollback_max: self.scrollback_max,
            saved: self.saved_cursor,
            stash_grid: match self.alternate_cells {
                Some(g) => Some(grid_of(g@)),
                None => None,
            },
            stash_cursor: self.alternate_cursor,
            in_alternate_screen: self.in_alternate_screen,
            insert_mode: self.insert_mode,
            tab_stops: self.tab_stops@,
            title: self.title@,
            scroll_offset: self.scroll_offset,
            cursor_visible: self.cursor_visible,
        }
    }
}

impl TerminalBuffer {
    /// The screen as rows of cells.
    pub open spec fn grid(&self) -> Seq<Seq<Cell>> {
        grid_of(self.cells@)
    }

    /// The scrollback history as rows of cells, oldest first.
    pub open spec fn history(&self) -> Seq<Seq<Cell>> {
        grid_of(self.scrollback@)
    }

    pub open spec fn wf(&self) -> bool {
        self@.wf()
    }

    pub fn new(cols: usize, rows: usize) -> (b: Self)
        ensures
            b.wf(),
            b@ == BufferModel::fresh(cols, rows),
    {
        let cells = new_blank_grid(cols, rows);
        let tab_stops = init_tab_stops(cols);
        let b = Self {
            cols,
            rows,
            cells,
            cursor: CursorPos::default(),
            default_fg: Color::white(),
            default_bg: Color::black(),
            current_fg: Color::white(),
            current_bg: Color::black(),
            current_attrs: CellAttrs::default(),
            scroll_top: 0,
            scroll_bottom: rows.saturating_sub(1),
            scrollback: Vec::new(),
            scrollback_max: DEFAULT_SCROLLBACK_MAX,
            saved_cursor: SavedCursor::default(),
            alternate_cells: None,
            alternate_cursor: None,
            in_alternate_screen: false,
            insert_mode: false,
            tab_stops,
            title: String::new(),
            scroll_offset: 0,
            cursor_visible: true,
        };
        proof {
            assert(b.history() =~= Seq::<Seq<Cell>>::empty());
        }
        b
    }

    /// Resize the screen: cells inside both sizes stay, the rest is blank, the
    /// cursor is clamped, the scroll region becomes the whole screen and the tab
    /// stops are reset. A stashed main screen and its cursor are fitted the same
    /// way, so that leaving the alternate screen later puts back a screen of the
    /// current size.
    pub fn resize(&mut self, cols: usize, rows: usize)
        ensures
            final(self).wf(),
            final(self)@ == old(self)@.resize(cols, rows),
    {
        let new_cells = resized_cells(&self.cells, self.cols, self.rows, cols, rows);
        // The stashed main screen is fitted to the new size as well.
        let stash = self.alternate_cells.take();
        self.alternate_cells = match stash {
            Some(main_cells) => Some(resized_cells(&main_cells, self.cols, self.rows, cols, rows)),
            None => None,
        };
        self.alternate_cursor = match self.alternate_cursor {
            Some(p) => Some(
                CursorPos {
                    col: if p.col < cols.saturating_sub(1) { p.col } else { cols.saturating_sub(1) },
                    row: if p.row < rows.saturating_sub(1) { p.row } else { rows.saturating_sub(1) },
                },
            ),
            None => None,
        };
        self.cells = new_cells;
        self.cols = cols;
        self.rows = rows;
        self.cursor.col = if self.cursor.col < cols.saturating_sub(1) { self.cursor.col } else { cols.saturating_sub(1) };
        self.cursor.row = if self.cursor.row < rows.saturating_sub(1) { self.cursor.row } else { rows.saturating_sub(1) };
        self.scroll_bottom = rows.saturating_sub(1);
        self.tab_stops = init_tab_stops(cols);
    }

    /// Scroll the scroll region up by one line.
    /// The top line of the region is moved to scrollback (if in main screen and region is full
    /// screen) and a blank line is inserted at the bottom of the region.
    pub fn scroll_up(&mut self)
        requires
            old(self).wf(),
            old(self)@.scroll_ok(),
        ensures
            final(self).wf(),
            final(self)@ == old(self)@.scroll_up(),
    {
        let top = self.scroll_top;
        let bottom = self.scroll_bottom;
        let ghost g0 = self.cells@;
        if !self.in_alternate_screen && top == 0 {
            let ghost h0 = self.scrollback@;
            let removed = self.cells.remove(top);
            self.scrollback.push(removed);
            proof {
                lemma_grid_of_push(h0, removed);
                assert(removed@ == grid_of(g0)[0]);
            }
            if self.scrollback.len() > self.scrollback_max {
                let ghost h1 = self.scrollback@;
                self.scrollback.remove(0);
                proof {
                    lemma_grid_of_drop_first(h1);
                }
            }
            let blank = new_blank_row(self.cols);
            self.cells.insert(bottom, blank);
            proof {
                lemma_grid_of_remove_insert(g0, top as int, bottom as int, blank);
            }
        } else {
            self.cells.remove(top);
            let blank = new_blank_row(self.cols);
            self.cells.insert(bottom, blank);
            proof {
                lemma_grid_of_remove_insert(g0, top as int, bottom as int, blank);
            }
        }
    }

    /// Scroll the scroll region down by one line.
    /// A blank line is inserted at the top of the region and the bottom line is removed.
    pub fn scroll_down(&mut self)
        requires
            old(self).wf(),
            old(self)@.scroll_ok(),
        ensures
            final(self).wf(),
            final(self)@ == old(self)@.scroll_down(),
    {
        let top = self.scroll_top;
        let bottom = self.scroll_bottom;
        let ghost g0 = self.cells@;
        self.cells.remove(bottom);
        let blank = new_blank_row(self.cols);
        self.cells.insert(top, blank);
        proof {
            lemma_grid_of_remove_insert(g0, bottom as int, top as int, blank);
        }
    }

    /// Line feed: at the bottom of the scroll region the region scrolls up, elsewhere
    /// the cursor moves down unless it is on the last row.
    pub fn newline(&mut self)
        requires
            old(self).wf(),
            old(self)@.newline_ok(),
        ensures
            final(self).wf(),
            final(self)@ == old(self)@.newline(),
    {
        if self.cursor.row == self.scroll_bottom {
            self.scroll_up();
        } else if self.cursor.row + 1 < self.rows {
            self.cursor.row += 1;
        }
    }

    pub fn carriage_return(&mut self)
        requires
            old(self).wf(),
        ensures
            final(self).wf(),
            final(self)@ == old(self)@.carriage_return(),
    {
        self.cursor.col = 0;
    }

    /// Index: move cursor down one line. If at the bottom of the scroll region,
    /// scroll the region up. If below the scroll region, just move down.
    pub fn index(&mut self)
        requires
            old(self).wf(),
            old(self)@.newline_ok(),
        ensures
            final(self).wf(),
            final(self)@ == old(self)@.newline(),
    {
        if self.cursor.row == self.scroll_bottom {
            self.scroll_up();
        } else if self.cursor.row + 1 < self.rows {
            self.cursor.row += 1;
        }
    }

    /// Reverse Index: move cursor up one line. If at the top of the scroll region,
    /// scroll the region down. If above the scroll region, just move up.
    pub fn reverse_index(&mut self)
        requires
            old(self).wf(),
            old(self)@.reverse_index_ok(),
        ensures
            final(self).wf(),
            final(self)@ == old(self)@.reverse_index(),
    {
        if self.cursor.row == self.scroll_top {
            self.scroll_down();
        } else if self.cursor.row > 0 {
            self.cursor.row -= 1;
        }
    }

    pub fn backspace(&mut self)
        requires
            old(self).wf(),
        ensures
            final(self).wf(),
            final(self)@ == old(self)@.backspace(),
    {
        if self.cursor.col > 0 {
            self.cursor.col -= 1;
        }
    }

    /// Write `c` with the current pen at the cursor (shifting the rest of the line right
    /// in insert mode) and advance; past the last column the cursor wraps to the next line.
    pub fn put_char(&mut self, c: char)
        requires
            old(self).wf(),
            old(self)@.put_char_ok(),
        ensures
            final(self).wf(),
            final(self)@ == old(self)@.put_char(c),
    {
        if self.cursor.col < self.cols && self.cursor.row < self.rows {
            let row = self.cursor.row;
            let col = self.cursor.col;
            let ghost g0 = self.cells@;
            proof {
                assert(grid_of(g0)[row as int] == g0[row as int]@);
            }
            if self.insert_mode {
                // Shift characters right from cursor position: drop the last cell,
                // insert a blank at the cursor.
                let mut line: Vec<Cell> = Vec::new();
                std::mem::swap(&mut line, &mut self.cells[row]);
                let ghost l0 = line@;
                line.pop();
                line.insert(col, Cell::default());
                proof {
                    crate::seqs::lemma_shift_in_zero(l0, col as int, self.cols - 1, blank_cell());
                    crate::seqs::lemma_shift_in_step(l0, col as int, self.cols - 1, 0, blank_cell());
                    assert(l0.drop_last() == l0.remove(self.cols - 1));
                }
                self.cells[row] = line;
            }
            let cell = Cell { c, fg: self.current_fg, bg: self.current_bg, attrs: self.current_attrs };
            self.cells[row][col] = cell;
            proof {
                assert(self.grid() =~= old(self)@.written(c));
            }
            self.cursor.col += 1;
            if self.cursor.col >= self.cols {
                self.cursor.col = 0;
                self.newline();
            }
        }
    }

    /// Erase `n` characters starting at the cursor position (ECH).
    /// Does not move the cursor.
    pub fn erase_chars(&mut self, n: usize)
        requires
            old(self).wf(),
            old(self).cursor.col + n <= usize::MAX,
        ensures
            final(self).wf(),
            final(self)@ == old(self)@.erase_chars(n),
    {
        let row = self.cursor.row;
        let col = self.cursor.col;
        if row < self.rows {
            let end = if col + n < self.cols { col + n } else { self.cols };
            self.blank_cells(row, col, end);
        }
    }

    /// Blank columns `from..to` of row `row`.
    fn blank_cells(&mut self, row: usize, from: usize, to: usize)
        requires
            old(self).wf(),
            row < old(self).rows,
            to <= old(self).cols,
        ensures
            final(self).wf(),
            final(self)@ == (BufferModel {
                grid: old(self)@.grid.update(row as int, blank_span(old(self)@.grid[row as int], from as int, to as int)),
                ..old(self)@
            }),
    {
        let mut line: Vec<Cell> = Vec::new();
        std::mem::swap(&mut line, &mut self.cells[row]);
        let ghost l0 = line@;
        let ghost g0 = self.cells@;
        proof {
            assert(l0 == old(self).grid()[row as int]);
        }
        let mut c = from;
        while c < to
            invariant
                from <= c,
                c <= to || c == from,
                to <= l0.len(),
                line@.len() == l0.len(),
                forall|j: int| 0 <= j < l0.len() ==> (#[trigger] line@[j]) == (if from <= j < c {
                    blank_cell()
                } else {
                    l0[j]
                }),
            decreases to - c,
        {
            line.set(c, Cell::default());
            c = c + 1;
        }
        self.cells[row] = line;
        proof {
            assert(line@ =~= blank_span(l0, from as int, to as int));
            lemma_grid_of_update(g0, row as int, line);
            assert(grid_of(g0) =~= old(self).grid().update(row as int, Seq::<Cell>::empty()));
            assert(self.grid() =~= old(self).grid().update(
                row as int,
                blank_span(old(self).grid()[row as int], from as int, to as int),
            ));
        }
    }

    pub fn clear_screen(&mut self)
        requires
            old(self).wf(),
        ensures
            final(self).wf(),
            final(self)@ == old(self)@.clear_screen(),
    {
        self.cells = new_blank_grid(self.cols, self.rows);
        self.cursor = CursorPos::default();
    }

    /// Erase in line (EL): 0 from the cursor to the end, 1 from the start to the
    /// cursor, 2 the whole line; other modes do nothing.
    pub fn erase_in_line(&mut self, mode: u16)
        requires
            old(self).wf(),
            old(self)@.erase_in_line_ok(mode),
        ensures
            final(self).wf(),
            final(self)@ == old(self)@.erase_in_line(mode),
    {
        let row = self.cursor.row;
        let col = self.cursor.col;
        if mode == 0 {
            // Clear from cursor to end of line
            let cols = self.cols;
            self.blank_cells(row, col, cols);
        } else if mode == 1 {
            // Clear from start of line to cursor
            let last = if col < self.cols - 1 { col } else { self.cols - 1 };
            self.blank_cells(row, 0, last + 1);
        } else if mode == 2 {
            // Clear entire line
            let ghost g0 = self.cells@;
            let blank = new_blank_row(self.cols);
            self.cells.set(row, blank);
            proof {
                lemma_grid_of_update(g0, row as int, blank);
            }
        }
    }

    /// Erase in display (ED): 0 from the cursor to the end of the screen, 1 from the
    /// start of the screen to the cursor, 2 and 3 the whole screen (homing the cursor);
    /// other modes do nothing.
    pub fn erase_in_display(&mut self, mode: u16)
        requires
            old(self).wf(),
            old(self)@.erase_in_display_ok(mode),
        ensures
            final(self).wf(),
            final(self)@ == old(self)@.erase_in_display(mode),
    {
        if mode == 0 {
            // Clear from cursor to end of screen
            self.erase_in_line(0);
            let mut r = self.cursor.row + 1;
            let ghost g1 = self.grid();
            while r < self.rows
                invariant
                    old(self).wf(),
                    self.wf(),
                    self@ == (BufferModel { grid: self@.grid, ..old(self)@ }),
                    old(self).cursor.row < r,
                    r <= self.rows || r == old(self).cursor.row + 1,
                    self.grid().len() == g1.len(),
                    forall|i: int| 0 <= i < self.rows ==> (#[trigger] self.grid()[i]) == (if old(self).cursor.row < i < r {
                        blank_row(self.cols as nat)
                    } else {
                        g1[i]
                    }),
                decreases self.rows - r,
            {
                let ghost g0 = self.cells@;
                let blank = new_blank_row(self.cols);
                self.cells.set(r, blank);
                proof {
                    lemma_grid_of_update(g0, r as int, blank);
                }
                r = r + 1;
            }
            proof {
                assert(self.grid() =~= old(self)@.display_erased(mode));
            }
        } else if mode == 1 {
            // Clear from start of screen to cursor
            let mut r: usize = 0;
            while r < self.cursor.row
                invariant
                    old(self).wf(),
                    self.wf(),
                    self@ == (BufferModel { grid: self@.grid, ..old(self)@ }),
                    r <= self.cursor.row,
                    forall|i: int| 0 <= i < self.rows ==> (#[trigger] self@.grid[i]) == (if i < r {
                        blank_row(self.cols as nat)
                    } else {
                        old(self)@.grid[i]
                    }),
                decreases self.cursor.row - r,
            {
                let ghost g0 = self.cells@;
                let blank = new_blank_row(self.cols);
                self.cells.set(r, blank);
                proof {
                    lemma_grid_of_update(g0, r as int, blank);
                    assert forall|i: int| 0 <= i < self.rows implies (#[trigger] self@.grid[i]) == (if i < r + 1 {
                        blank_row(self.cols as nat)
                    } else {
                        old(self)@.grid[i]
                    }) by {
                        if i != r {
                            assert(self@.grid[i] == grid_of(g0)[i]);
                        }
                    }
                }
                r = r + 1;
            }
            let ghost g2 = self@.grid;
            self.erase_in_line(1);
            proof {
                assert forall|i: int| 0 <= i < self.rows implies (#[trigger] self@.grid[i]) == old(self)@.display_erased(mode)[i] by {
                    if i != self.cursor.row {
                        assert(self@.grid[i] == g2[i]);
                    } else {
                        assert(g2[i] == old(self)@.grid[i]);
                    }
                }
                assert(self@.grid =~= old(self)@.display_erased(mode));
            }
        } else if mode == 2 || mode == 3 {
            self.clear_screen();
        }
    }

    pub fn set_cursor_pos(&mut self, row: usize, col: usize)
        requires
            old(self).wf(),
        ensures
            final(self).wf(),
            final(self)@ == old(self)@.set_cursor_pos(row, col),
    {
        self.cursor.row = if row < self.rows.saturating_sub(1) { row } else { self.rows.saturating_sub(1) };
        self.cursor.col = if col < self.cols.saturating_sub(1) { col } else { self.cols.saturating_sub(1) };
    }

    pub fn set_fg(&mut self, color: Color)
        requires
            old(self).wf(),
        ensures
            final(self).wf(),
            final(self)@ == old(self)@.set_fg(color),
    {
        self.current_fg = color;
    }

    pub fn set_bg(&mut self, color: Color)
        requires
            old(self).wf(),
        ensures
            final(self).wf(),
            final(self)@ == old(self)@.set_bg(color),
    {
        self.current_bg = color;
    }

    pub fn reset_attrs(&mut self)
        requires
            old(self).wf(),
        ensures
            final(self).wf(),
            final(self)@ == old(self)@.reset_attrs(),
    {
        self.current_fg = self.default_fg;
        self.current_bg = self.default_bg;
        self.current_attrs = CellAttrs::default();
    }

    pub fn set_bold(&mut self, on: bool)
        requires
            old(self).wf(),
        ensures
            final(self).wf(),
            final(self)@ == old(self)@.set_bold(on),
    {
        self.current_attrs.bold = on;
    }

    pub fn set_italic(&mut self, on: bool)
        requires
            old(self).wf(),
        ensures
            final(self).wf(),
            final(self)@ == old(self)@.set_italic(on),
    {
        self.current_attrs.italic = on;
    }

    pub fn set_underline(&mut self, on: bool)
        requires
            old(self).wf(),
        ensures
            final(self).wf(),
            final(self)@ == old(self)@.set_underline(on),
    {
        self.current_attrs.underline = on;
    }

    pub fn set_inverse(&mut self, on: bool)
        requires
            old(self).wf(),
        ensures
            final(self).wf(),
            final(self)@ == old(self)@.set_inverse(on),
    {
        self.current_attrs.inverse = on;
    }

    // --- Scroll region ---

    /// Set the scroll region (DECSTBM). Both `top` and `bottom` are 0-indexed inclusive.
    /// The region changes only when the clamped `top` lies above the clamped `bottom`;
    /// the cursor goes home either way.
    pub fn set_scroll_region(&mut self, top: usize, bottom: usize)
        requires
            old(self).wf(),
        ensures
            final(self).wf(),
            final(self)@ == old(self)@.set_scroll_region(top, bottom),
    {
        let last = self.rows.saturating_sub(1);
        let top = if top < last { top } else { last };
        let bottom = if bottom < last { bottom } else { last };
        if top < bottom {
            self.scroll_top = top;
            self.scroll_bottom = bottom;
        }
        // Move cursor to home position after setting scroll region
        self.cursor.row = 0;
        self.cursor.col = 0;
    }

    // --- Cursor save/restore ---

    pub fn save_cursor(&mut self)
        requires
            old(self).wf(),
        ensures
            final(self).wf(),
            final(self)@ == old(self)@.save_cursor(),
    {
        self.saved_cursor = SavedCursor {
            pos: self.cursor,
            fg: self.current_fg,
            bg: self.current_bg,
            attrs: self.current_attrs,
        };
    }

    /// Restore the saved cursor and pen; the position is clamped to the screen.
    /// Whatever edits came after the save, the position and pen saved come back
    /// (`crate::edits::lemma_restore_after_edits`).
    pub fn restore_cursor(&mut self)
        requires
            old(self).wf(),
        ensures
            final(self).wf(),
            final(self)@ == old(self)@.restore_cursor(),
    {
        let saved = self.saved_cursor;
        self.cursor = saved.pos;
        self.current_fg = saved.fg;
        self.current_bg = saved.bg;
        self.current_attrs = saved.attrs;
        // Clamp to valid range
        let last_row = self.rows.saturating_sub(1);
        let last_col = self.cols.saturating_sub(1);
        self.cursor.row = if self.cursor.row < last_row { self.cursor.row } else { last_row };
        self.cursor.col = if self.cursor.col < last_col { self.cursor.col } else { last_col };
    }


    // --- Insert/delete lines ---

    /// Insert `n` blank lines at the current cursor row, scrolling lines below down.
    /// Operates within the scroll region; outside it nothing happens.
    pub fn insert_lines(&mut self, n: usize)
        requires
            old(self).wf(),
        ensures
            old(self).rows > 0 || n == 0 ==> final(self).wf(),
            final(self)@ == old(self)@.insert_lines(n),
    {
        let row = self.cursor.row;
        if row < self.scroll_top || row > self.scroll_bottom {
            return;
        }
        let mut cells: Vec<Vec<Cell>> = Vec::new();
        std::mem::swap(&mut cells, &mut self.cells);
        insert_blank_lines(&mut cells, row, self.scroll_bottom, self.cols, n);
        std::mem::swap(&mut cells, &mut self.cells);
        self.cursor.col = 0;
        proof {
            if old(self).rows == 0 {
                assert(old(self).grid() =~= Seq::<Seq<Cell>>::empty());
            }
        }
    }

    /// Delete `n` lines at the current cursor row, scrolling lines below up.
    /// Operates within the scroll region; outside it nothing happens.
    pub fn delete_lines(&mut self, n: usize)
        requires
            old(self).wf(),
        ensures
            old(self).rows > 0 || n == 0 ==> final(self).wf(),
            final(self)@ == old(self)@.delete_lines(n),
    {
        let row = self.cursor.row;
        if row < self.scroll_top || row > self.scroll_bottom {
            return;
        }
        let mut cells: Vec<Vec<Cell>> = Vec::new();
        std::mem::swap(&mut cells, &mut self.cells);
        delete_blank_lines(&mut cells, row, self.scroll_bottom, self.cols, n);
        std::mem::swap(&mut cells, &mut self.cells);
        self.cursor.col = 0;
        proof {
            if old(self).rows == 0 {
                assert(old(self).grid() =~= Seq::<Seq<Cell>>::empty());
            }
        }
    }

    // --- Insert/delete characters ---

    /// Insert `n` blank characters at the cursor position, shifting existing characters
    /// right; those pushed past the last column are lost. Off the screen nothing happens.
    pub fn insert_chars(&mut self, n: usize)
        requires
            old(self).wf(),
        ensures
            final(self).wf(),
            final(self)@ == old(self)@.insert_chars(n),
    {
        let row = self.cursor.row;
        let col = self.cursor.col;
        if row >= self.rows || col >= self.cols {
            return;
        }
        let ghost g0 = self.cells@;
        let mut line: Vec<Cell> = Vec::new();
        std::mem::swap(&mut line, &mut self.cells[row]);
        proof {
            assert(line@ == old(self).grid()[row as int]);
        }
        insert_blank_cells(&mut line, col, self.cols, n);
        self.cells[row] = line;
        proof {
            lemma_grid_of_update(g0, row as int, line);
            assert(self@.grid =~= old(self)@.grid.update(row as int, line@));
            assert forall|r: int| 0 <= r < self.rows implies (#[trigger] self@.grid[r]).len() == self.cols by {
                if r != row {
                    assert(old(self)@.grid[r].len() == self.cols);
                }
            }
        }
    }

    /// Delete `n` characters at the cursor position, shifting remaining characters left
    /// and filling the end of the line with blanks. Off the screen nothing happens.
    pub fn delete_chars(&mut self, n: usize)
        requires
            old(self).wf(),
        ensures
            final(self).wf(),
            final(self)@ == old(self)@.delete_chars(n),
    {
        let row = self.cursor.row;
        let col = self.cursor.col;
        if row >= self.rows || col >= self.cols {
            return;
        }
        let ghost g0 = self.cells@;
        let mut line: Vec<Cell> = Vec::new();
        std::mem::swap(&mut line, &mut self.cells[row]);
        proof {
            assert(line@ == old(self).grid()[row as int]);
        }
        delete_blank_cells(&mut line, col, self.cols, n);
        self.cells[row] = line;
        proof {
            lemma_grid_of_update(g0, row as int, line);
            assert(self@.grid =~= old(self)@.grid.update(row as int, line@));
            assert forall|r: int| 0 <= r < self.rows implies (#[trigger] self@.grid[r]).len() == self.cols by {
                if r != row {
                    assert(old(self)@.grid[r].len() == self.cols);
                }
            }
        }
    }


    // --- Tab stops ---

    /// Set a tab stop at the current cursor column.
    pub fn set_tab_stop(&mut self)
        requires
            old(self).wf(),
        ensures
            final(self).wf(),
            final(self)@ == old(self)@.set_tab_stop(),
    {
        if self.cursor.col < self.tab_stops.len() {
            let col = self.cursor.col;
            self.tab_stops.set(col, true);
        }
    }

    /// Clear the tab stop at the current cursor column.
    pub fn clear_tab_stop(&mut self)
        requires
            old(self).wf(),
        ensures
            final(self).wf(),
            final(self)@ == old(self)@.clear_tab_stop(),
    {
        if self.cursor.col < self.tab_stops.len() {
            let col = self.cursor.col;
            self.tab_stops.set(col, false);
        }
    }

    /// Clear all tab stops.
    pub fn clear_all_tab_stops(&mut self)
        requires
            old(self).wf(),
        ensures
            final(self).wf(),
            final(self)@ == old(self)@.clear_all_tab_stops(),
    {
        let mut i: usize = 0;
        while i < self.tab_stops.len()
            invariant
                self.wf(),
                self@ == (BufferModel { tab_stops: self@.tab_stops, ..old(self)@ }),
                self.tab_stops@.len() == old(self).tab_stops@.len(),
                i <= self.tab_stops@.len(),
                forall|j: int| 0 <= j < i ==> !(#[trigger] self.tab_stops@[j]),
            decreases self.tab_stops@.len() - i,
        {
            self.tab_stops.set(i, false);
            i = i + 1;
        }
        proof {
            assert(self.tab_stops@ =~= no_tab_stops(old(self).tab_stops@.len()));
        }
    }

    /// Move cursor to the next tab stop (or end of line).
    pub fn next_tab_stop(&mut self)
        requires
            old(self).wf(),
        ensures
            final(self).wf(),
            final(self)@ == old(self)@.next_tab_stop(),
    {
        let start = self.cursor.col + 1;
        let mut i = start;
        while i < self.cols
            invariant
                self.wf(),
                *self == *old(self),
                start == self.cursor.col + 1,
                start <= i,
                forall|j: int| self.cursor.col < j < i ==> !(#[trigger] self.tab_stops@[j]),
            decreases self.cols - i,
        {
            if self.tab_stops[i] {
                proof {
                    lemma_next_stop_is(self.tab_stops@, self.cursor.col as int, self.cols as int, i as int);
                }
                self.cursor.col = i;
                return;
            }
            i = i + 1;
        }
        proof {
            assert(!(exists|k: int| self.cursor.col < k < self.cols && #[trigger] self.tab_stops@[k]));
        }
        // No tab stop found, go to last column
        self.cursor.col = self.cols.saturating_sub(1);
    }

    // --- Window title ---

    pub fn set_title(&mut self, title: String)
        requires
            old(self).wf(),
        ensures
            final(self).wf(),
            final(self)@ == old(self)@.set_title(title@),
    {
        self.title = title;
    }

    // --- Scroll offset (user-initiated scrollback viewing) ---

    /// Scroll the viewport up (into scrollback history) by `n` lines, no further than
    /// the history reaches.
    pub fn scroll_view_up(&mut self, n: usize)
        requires
            old(self).wf(),
            old(self).scroll_offset + n <= usize::MAX,
        ensures
            final(self).wf(),
            final(self)@ == old(self)@.scroll_view_up(n),
    {
        let max_offset = self.scrollback.len();
        let sum = self.scroll_offset + n;
        self.scroll_offset = if sum < max_offset { sum } else { max_offset };
    }

    /// Scroll the viewport down (toward present) by `n` lines.
    pub fn scroll_view_down(&mut self, n: usize)
        requires
            old(self).wf(),
        ensures
            final(self).wf(),
            final(self)@ == old(self)@.scroll_view_down(n),
    {
        self.scroll_offset = self.scroll_offset.saturating_sub(n);
    }

    /// Reset scroll offset to show the live view.
    pub fn reset_scroll(&mut self)
        requires
            old(self).wf(),
        ensures
            final(self).wf(),
            final(self)@ == old(self)@.reset_scroll(),
    {
        self.scroll_offset = 0;
    }

    /// Return the visible lines for rendering, accounting for scroll offset.
    /// When `scroll_offset == 0`, this returns the live screen buffer.
    /// When scrolled back, it blends scrollback history with the top of the screen.
    pub fn visible_lines(&self) -> (lines: Vec<&Vec<Cell>>)
        ensures
            lines@.len() == self@.visible().len(),
            forall|i: int| 0 <= i < lines@.len() ==> (#[trigger] lines@[i])@ == self@.visible()[i],
    {
        let mut lines: Vec<&Vec<Cell>> = Vec::new();
        if self.scroll_offset == 0 {
            let mut r: usize = 0;
            while r < self.cells.len()
                invariant
                    r <= self.cells@.len(),
                    lines@.len() == r,
                    forall|i: int| 0 <= i < r ==> (#[trigger] lines@[i])@ == self.grid()[i],
                decreases self.cells@.len() - r,
            {
                lines.push(&self.cells[r]);
                r = r + 1;
            }
            return lines;
        }
        let sb_len = self.scrollback.len();
        let offset = if self.scroll_offset < sb_len { self.scroll_offset } else { sb_len };
        // How many scrollback lines are visible
        let sb_visible = if offset < self.rows { offset } else { self.rows };
        let sb_start = sb_len - offset;
        let mut k: usize = 0;
        while k < sb_visible
            invariant
                sb_visible <= offset,
                offset <= sb_len,
                sb_len == self.scrollback@.len(),
                sb_start == sb_len - offset,
                k <= sb_visible,
                lines@.len() == k,
                forall|i: int| 0 <= i < k ==> (#[trigger] lines@[i])@ == self.history()[sb_start + i],
            decreases sb_visible - k,
        {
            lines.push(&self.scrollback[sb_start + k]);
            k = k + 1;
        }
        // Fill remaining rows from the live screen buffer
        let screen_lines = self.rows - sb_visible;
        let take = if screen_lines < self.cells.len() { screen_lines } else { self.cells.len() };
        let mut r: usize = 0;
        while r < take
            invariant
                take <= self.cells@.len(),
                sb_visible <= offset,
                offset <= sb_len,
                sb_len == self.scrollback@.len(),
                sb_start == sb_len - offset,
                r <= take,
                lines@.len() == sb_visible + r,
                forall|i: int| 0 <= i < sb_visible ==> (#[trigger] lines@[i])@ == self.history()[sb_start + i],
                forall|i: int| 0 <= i < r ==> (#[trigger] lines@[sb_visible + i])@ == self.grid()[i],
            decreases take - r,
        {
            lines.push(&self.cells[r]);
            r = r + 1;
        }
        proof {
            let v = self@.visible();
            assert(sb_visible == crate::seqs::min_int(crate::seqs::min_int(self.scroll_offset as int, sb_len as int), self.rows as int));
            assert(take == crate::seqs::min_int(self.rows - sb_visible, self.grid().len() as int));
            assert forall|i: int| 0 <= i < lines@.len() implies (#[trigger] lines@[i])@ == v[i] by {
                if i >= sb_visible {
                    let j = i - sb_visible;
                    assert(lines@[sb_visible + j]@ == self.grid()[j]);
                }
            }
        }
        lines
    }

    // --- Alternate screen buffer ---

    /// Enter the alternate screen buffer (used by fullscreen apps like vim, less):
    /// the main screen and its cursor are put aside, the screen is cleared and the
    /// cursor homed. Does nothing when the alternate screen is already shown.
    pub fn enter_alternate_screen(&mut self)
        requires
            old(self).wf(),
        ensures
            final(self).wf(),
            final(self)@ == old(self)@.enter_alternate_screen(),
    {
        if self.in_alternate_screen {
            return;
        }
        self.in_alternate_screen = true;
        // Save current main screen cells and cursor
        let mut main_cells = new_blank_grid(self.cols, self.rows);
        std::mem::swap(&mut main_cells, &mut self.cells);
        self.alternate_cells = Some(main_cells);
        self.alternate_cursor = Some(self.cursor);
        self.cursor = CursorPos::default();
    }

    /// Exit the alternate screen buffer and restore the main screen (and its cursor)
    /// put aside by `enter_alternate_screen`. Does nothing on the main screen.
    /// Whatever edits came after entering, the main screen and cursor come back
    /// (`crate::edits::lemma_alternate_screen_after_edits`).
    pub fn exit_alternate_screen(&mut self)
        requires
            old(self).wf(),
        ensures
            final(self).wf(),
            final(self)@ == old(self)@.exit_alternate_screen(),
    {
        if !self.in_alternate_screen {
            return;
        }
        self.in_alternate_screen = false;
        if let Some(main_cells) = self.alternate_cells.take() {
            self.cells = main_cells;
        }
        if let Some(main_cursor) = self.alternate_cursor.take() {
            self.cursor = main_cursor;
        }
    }
}



/// `line` with the cells at columns `from..to` blanked.
pub open spec fn blank_span(line: Seq<Cell>, from: int, to: int) -> Seq<Cell> {
    Seq::new(line.len(), |j: int| if from <= j < to { blank_cell() } else { line[j] })
}

/// The first `n` entries of `stops` set to false... the whole table cleared.
pub open spec fn no_tab_stops(n: nat) -> Seq<bool> {
    Seq::new(n, |_i: int| false)
}

/// Column of the first tab stop right of `col`, or the last column when there is none.
pub open spec fn next_stop(stops: Seq<bool>, col: int, cols: int) -> int {
    if exists|i: int| col < i < cols && #[trigger] stops[i] {
        choose|i: int| col < i < cols && stops[i] && forall|j: int| col < j < i ==> !stops[j]
    } else if cols == 0 {
        0
    } else {
        cols - 1
    }
}


/// Insert `n` blank rows of `cols` cells at `row`, each time dropping the row at
/// `bottom` when there is one.
fn insert_blank_lines(cells: &mut Vec<Vec<Cell>>, row: usize, bottom: usize, cols: usize, n: usize)
    requires
        row <= bottom,
        bottom < old(cells)@.len() || (old(cells)@.len() == 0 && row == 0 && bottom == 0),
    ensures
        old(cells)@.len() > 0 ==> grid_of(final(cells)@) == crate::seqs::shift_in(
            grid_of(old(cells)@),
            row as int,
            bottom as int,
            crate::seqs::min_int(n as int, bottom - row + 1),
            blank_row(cols as nat),
        ),
        old(cells)@.len() == 0 ==> grid_of(final(cells)@) == (if n > 0 {
            seq![blank_row(cols as nat)]
        } else {
            Seq::<Seq<Cell>>::empty()
        }),
{
    let ghost g0 = grid_of(cells@);
    let ghost len0 = cells@.len();
    let ghost w = bottom - row + 1;
    proof {
        if len0 > 0 {
            crate::seqs::lemma_shift_in_zero(g0, row as int, bottom as int, blank_row(cols as nat));
        } else {
            assert(grid_of(cells@) =~= Seq::<Seq<Cell>>::empty());
        }
    }
    let mut i: usize = 0;
    while i < n
        invariant
            i <= n,
            row <= bottom,
            w == bottom - row + 1,
            g0.len() == len0,
            len0 > 0 ==> bottom < len0,
            len0 == 0 ==> row == 0 && bottom == 0,
            len0 > 0 ==> cells@.len() == len0 && grid_of(cells@) == crate::seqs::shift_in(
                g0,
                row as int,
                bottom as int,
                crate::seqs::min_int(i as int, w),
                blank_row(cols as nat),
            ),
            len0 == 0 ==> cells@.len() == (if i > 0 { 1int } else { 0 }) && grid_of(cells@) == (if i > 0 {
                seq![blank_row(cols as nat)]
            } else {
                Seq::<Seq<Cell>>::empty()
            }),
        decreases n - i,
    {
        let ghost v0 = cells@;
        if bottom < cells.len() {
            cells.remove(bottom);
        }
        let blank = new_blank_row(cols);
        cells.insert(row, blank);
        proof {
            if len0 > 0 {
                lemma_grid_of_remove_insert(v0, bottom as int, row as int, blank);
                crate::seqs::lemma_shift_in_step(g0, row as int, bottom as int, crate::seqs::min_int(i as int, w), blank_row(cols as nat));
            } else {
                assert(grid_of(cells@) =~= seq![blank_row(cols as nat)]);
            }
        }
        i = i + 1;
    }
}

/// Drop `n` rows at `row`, each time putting a blank row of `cols` cells in at `bottom`.
fn delete_blank_lines(cells: &mut Vec<Vec<Cell>>, row: usize, bottom: usize, cols: usize, n: usize)
    requires
        row <= bottom,
        bottom < old(cells)@.len() || (old(cells)@.len() == 0 && row == 0 && bottom == 0),
    ensures
        old(cells)@.len() > 0 ==> grid_of(final(cells)@) == crate::seqs::shift_out(
            grid_of(old(cells)@),
            row as int,
            bottom as int,
            crate::seqs::min_int(n as int, bottom - row + 1),
            blank_row(cols as nat),
        ),
        old(cells)@.len() == 0 ==> grid_of(final(cells)@) == (if n > 0 {
            seq![blank_row(cols as nat)]
        } else {
            Seq::<Seq<Cell>>::empty()
        }),
{
    let ghost g0 = grid_of(cells@);
    let ghost len0 = cells@.len();
    let ghost w = bottom - row + 1;
    proof {
        if len0 > 0 {
            crate::seqs::lemma_shift_out_zero(g0, row as int, bottom as int, blank_row(cols as nat));
        } else {
            assert(grid_of(cells@) =~= Seq::<Seq<Cell>>::empty());
        }
    }
    let mut i: usize = 0;
    while i < n
        invariant
            i <= n,
            row <= bottom,
            w == bottom - row + 1,
            g0.len() == len0,
            len0 > 0 ==> bottom < len0,
            len0 == 0 ==> row == 0 && bottom == 0,
            len0 > 0 ==> cells@.len() == len0 && grid_of(cells@) == crate::seqs::shift_out(
                g0,
                row as int,
                bottom as int,
                crate::seqs::min_int(i as int, w),
                blank_row(cols as nat),
            ),
            len0 == 0 ==> cells@.len() == (if i > 0 { 1int } else { 0 }) && grid_of(cells@) == (if i > 0 {
                seq![blank_row(cols as nat)]
            } else {
                Seq::<Seq<Cell>>::empty()
            }),
        decreases n - i,
    {
        let ghost v0 = cells@;
        if row < cells.len() {
            cells.remove(row);
        }
        let blank = new_blank_row(cols);
        cells.insert(bottom, blank);
        proof {
            if len0 > 0 {
                lemma_grid_of_remove_insert(v0, row as int, bottom as int, blank);
                crate::seqs::lemma_shift_out_step(g0, row as int, bottom as int, crate::seqs::min_int(i as int, w), blank_row(cols as nat));
            } else {
                assert(grid_of(cells@) =~= seq![blank_row(cols as nat)]);
            }
        }
        i = i + 1;
    }
}


/// Insert `n` blank cells at `col` into a line of `cols` cells, the line keeping its length.
fn insert_blank_cells(line: &mut Vec<Cell>, col: usize, cols: usize, n: usize)
    requires
        col < cols,
        old(line)@.len() == cols,
    ensures
        final(line)@.len() == cols,
        final(line)@ == crate::seqs::shift_in(
            old(line)@,
            col as int,
            cols - 1,
            crate::seqs::min_int(n as int, cols - col),
            blank_cell(),
        ),
{
    let ghost l0 = line@;
    proof {
        crate::seqs::lemma_shift_in_zero(l0, col as int, cols - 1, blank_cell());
    }
    let mut i: usize = 0;
    while i < n
        invariant
            i <= n,
            col < cols,
            l0.len() == cols,
            line@.len() == cols,
            line@ == crate::seqs::shift_in(l0, col as int, cols - 1, crate::seqs::min_int(i as int, cols - col), blank_cell()),
        decreases n - i,
    {
        let ghost v0 = line@;
        if line.len() > cols.saturating_sub(1) {
            line.pop();
        }
        line.insert(col, Cell::default());
        proof {
            assert(v0.drop_last() == v0.remove(cols - 1));
            crate::seqs::lemma_shift_in_step(l0, col as int, cols - 1, crate::seqs::min_int(i as int, cols - col), blank_cell());
        }
        i = i + 1;
    }
    // Ensure row length stays at cols
    line.truncate(cols);
}

/// Drop `n` cells at `col` from a line of `cols` cells, blanks filling in at the end.
fn delete_blank_cells(line: &mut Vec<Cell>, col: usize, cols: usize, n: usize)
    requires
        col < cols,
        old(line)@.len() == cols,
    ensures
        final(line)@.len() == cols,
        final(line)@ == crate::seqs::shift_out(
            old(line)@,
            col as int,
            cols - 1,
            crate::seqs::min_int(n as int, cols - col),
            blank_cell(),
        ),
{
    let ghost l0 = line@;
    proof {
        crate::seqs::lemma_shift_out_zero(l0, col as int, cols - 1, blank_cell());
    }
    let mut i: usize = 0;
    while i < n
        invariant
            i <= n,
            col < cols,
            l0.len() == cols,
            line@.len() == cols,
            line@ == crate::seqs::shift_out(l0, col as int, cols - 1, crate::seqs::min_int(i as int, cols - col), blank_cell()),
        decreases n - i,
    {
        let ghost v0 = line@;
        if col < line.len() {
            line.remove(col);
        }
        line.push(Cell::default());
        proof {
            assert(v0.remove(col as int).push(blank_cell()) == v0.remove(col as int).insert(cols - 1, blank_cell()));
            crate::seqs::lemma_shift_out_step(l0, col as int, cols - 1, crate::seqs::min_int(i as int, cols - col), blank_cell());
        }
        i = i + 1;
    }
    line.truncate(cols);
}

pub proof fn lemma_next_stop_is(stops: Seq<bool>, col: int, cols: int, i: int)
    requires
        col < i < cols,
        stops[i],
        forall|j: int| col < j < i ==> !(#[trigger] stops[j]),
    ensures
        next_stop(stops, col, cols) == i,
{
    assert(exists|k: int| col < k < cols && #[trigger] stops[k]);
    let c = choose|k: int| col < k < cols && stops[k] && forall|j: int| col < j < k ==> !stops[j];
    assert(col < c < cols && stops[c] && forall|j: int| col < j < c ==> !stops[j]);
    if c < i {
        assert(!stops[c]);
    } else if c > i {
        assert(!stops[i]);
    }
}

/// `g` with row `top` taken out and a blank row put in at `bottom`.
pub open spec fn scroll_grid_up(g: Seq<Seq<Cell>>, top: int, bottom: int, cols: nat) -> Seq<Seq<Cell>> {
    g.remove(top).insert(bottom, blank_row(cols))
}

/// `g` with row `bottom` taken out and a blank row put in at `top`.
pub open spec fn scroll_grid_down(g: Seq<Seq<Cell>>, top: int, bottom: int, cols: nat) -> Seq<Seq<Cell>> {
    g.remove(bottom).insert(top, blank_row(cols))
}

/// `h` with `line` appended, dropping the oldest line when it would hold more than `max`.
pub open spec fn push_history(h: Seq<Seq<Cell>>, line: Seq<Cell>, max: nat) -> Seq<Seq<Cell>> {
    if h.push(line).len() > max {
        h.push(line).drop_first()
    } else {
        h.push(line)
    }
}

/// The grid after a resize: old cells inside both the old and the new size stay, the
/// rest is blank.
pub open spec fn resized_grid(
    old: Seq<Seq<Cell>>,
    old_cols: nat,
    old_rows: nat,
    cols: nat,
    rows: nat,
) -> Seq<Seq<Cell>> {
    Seq::new(
        rows,
        |r: int|
            Seq::new(
                cols,
                |c: int|
                    if r < old_rows && r < old.len() && c < old_cols && c < old[r].len() {
                        old[r][c]
                    } else {
                        blank_cell()
                    },
            ),
    )
}

/// Restoring right after saving puts the cursor and the pen back as they were.
/// With edits in between, see `crate::edits::lemma_restore_after_edits`.
pub proof fn lemma_save_restore_cursor(m: BufferModel)
    requires
        m.wf(),
    ensures
        m.save_cursor().restore_cursor() == m.save_cursor(),
{
}

/// Leaving the alternate screen right after entering it from the main screen
/// gives back the main screen and its cursor; the stash is emptied. With edits
/// in between, see `crate::edits::lemma_alternate_screen_after_edits`.
pub proof fn lemma_alternate_screen_round_trip(m: BufferModel)
    requires
        !m.in_alternate_screen,
    ensures
        m.enter_alternate_screen().exit_alternate_screen() == (BufferModel { stash_grid: None, stash_cursor: None, ..m }),
{
}

/// Entering the alternate screen twice is entering it once.
pub proof fn lemma_enter_alternate_screen_idempotent(m: BufferModel)
    ensures
        m.enter_alternate_screen().enter_alternate_screen() == m.enter_alternate_screen(),
{
}

/// The scrollback never grows beyond its maximum: a line feed, and so every
/// scroll, keeps a bounded history within bounds.
pub proof fn lemma_history_bounded(m: BufferModel, c: char)
    requires
        m.history.len() <= m.scrollback_max,
    ensures
        m.scroll_up().history.len() <= m.scrollback_max,
        m.newline().history.len() <= m.scrollback_max,
        m.put_char(c).history.len() <= m.scrollback_max,
{
}

/// Clearing the tab stop under the cursor undoes setting it.
pub proof fn lemma_tab_stop_set_clear(m: BufferModel)
    ensures
        m.set_tab_stop().clear_tab_stop() == m.clear_tab_stop(),
{
    assert(m.set_tab_stop().clear_tab_stop().tab_stops =~= m.clear_tab_stop().tab_stops);
}

/// Resizing a well-formed buffer to its own size keeps the screen and the cursor.
pub proof fn lemma_resize_same_size(m: BufferModel)
    requires
        m.wf(),
    ensures
        m.resize(m.cols, m.rows).grid == m.grid,
        m.resize(m.cols, m.rows).cursor == m.cursor,
{
    let g = m.resize(m.cols, m.rows).grid;
    assert forall|r: int| 0 <= r < m.rows implies g[r] =~= m.grid[r] by {
        assert(m.grid[r].len() == m.cols);
    }
    assert(g =~= m.grid);
}

pub proof fn lemma_grid_of_remove_insert(v: Seq<Vec<Cell>>, i: int, j: int, row: Vec<Cell>)
    requires
        0 <= i < v.len(),
        0 <= j < v.len(),
    ensures
        grid_of(v.remove(i).insert(j, row)) == grid_of(v).remove(i).insert(j, row@),
{
    assert(grid_of(v.remove(i).insert(j, row)) =~= grid_of(v).remove(i).insert(j, row@));
}

pub proof fn lemma_grid_of_update(v: Seq<Vec<Cell>>, i: int, row: Vec<Cell>)
    requires
        0 <= i < v.len(),
    ensures
        grid_of(v.update(i, row)) == grid_of(v).update(i, row@),
{
    assert(grid_of(v.update(i, row)) =~= grid_of(v).update(i, row@));
}

pub proof fn lemma_grid_of_push(v: Seq<Vec<Cell>>, row: Vec<Cell>)
    ensures
        grid_of(v.push(row)) == grid_of(v).push(row@),
{
    assert(grid_of(v.push(row)) =~= grid_of(v).push(row@));
}

pub proof fn lemma_grid_of_drop_first(v: Seq<Vec<Cell>>)
    requires
        v.len() > 0,
    ensures
        grid_of(v.remove(0)) == grid_of(v).drop_first(),
{
    assert(grid_of(v.remove(0)) =~= grid_of(v).drop_first());
}


/// When the main screen scrolls from its first row and history is kept, the old
/// top row becomes the newest history line, and the history is the old history
/// with that row added and, if it grew past the limit, its oldest line dropped.
pub proof fn lemma_scroll_up_keeps_newest_history(m: BufferModel)
    requires
        !m.in_alternate_screen,
        m.scroll_top == 0,
        m.scrollback_max > 0,
    ensures
        ({
            let h = m.scroll_up().history;
            let all = m.history.push(m.grid[0]);
            &&& h.len() > 0
            &&& h.last() == m.grid[0]
            &&& h.len() == if all.len() > m.scrollback_max { all.len() - 1 } else { all.len() as int }
            &&& h == all.subrange(all.len() - h.len(), all.len() as int)
        }),
{
    let all = m.history.push(m.grid[0]);
    if all.len() > m.scrollback_max {
        assert(all.drop_first() =~= all.subrange(1, all.len() as int));
    } else {
        assert(all =~= all.subrange(0, all.len() as int));
    }
}

/// Scrolled back by `k` lines (at most the history and at most a screenful), the
/// view shows the last `k` history lines in order, the newest last, followed by
/// the top `rows - k` rows of the screen.
pub proof fn lemma_visible_when_scrolled_back(m: BufferModel)
    requires
        m.wf(),
        0 < m.scroll_offset <= m.history.len(),
        m.scroll_offset <= m.rows,
    ensures
        ({
            let v = m.visible();
            let k = m.scroll_offset as int;
            let n = m.history.len() as int;
            &&& v.len() == m.rows
            &&& v[0] == m.history[n - k]
            &&& forall|i: int| 0 <= i < k ==> #[trigger] v[i] == m.history[n - k + i]
            &&& forall|j: int| 0 <= j < m.rows - k ==> #[trigger] v[k + j] == m.grid[j]
        }),
{
    let v = m.visible();
    let k = m.scroll_offset as int;
    let n = m.history.len() as int;
    assert forall|j: int| 0 <= j < m.rows - k implies #[trigger] v[k + j] == m.grid[j] by {
        assert(v[k + j] == m.grid.take(m.rows - k)[j]);
    }
}

} // verus!
