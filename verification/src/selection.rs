//! Mouse selection over the cells of a terminal buffer, and the text it covers.
use vstd::prelude::*;
use crate::buffer::Cell;
use crate::text::{chars_of, string_from_chars};

verus! {

/// A cell coordinate in the terminal buffer.
#[derive(Debug, Clone, Copy, PartialEq, Eq, Structural)]
pub struct CellCoord {
    pub col: usize,
    pub row: usize,
}

/// Represents a text selection across terminal buffer cells.
#[derive(Debug, Clone, Copy)]
pub struct Selection {
    /// Where the mouse was first pressed.
    pub anchor: CellCoord,
    /// Current end of the selection (follows the cursor).
    pub end: CellCoord,
}

/// `a` comes no later than `b` in reading order (row first, then column).
pub open spec fn reads_before(a: CellCoord, b: CellCoord) -> bool {
    a.row < b.row || (a.row == b.row && a.col <= b.col)
}

impl Selection {
    pub fn new(anchor: CellCoord) -> (s: Self)
        ensures
            s.anchor == anchor,
            s.end == anchor,
    {
        Selection { anchor, end: anchor }
    }

    /// Return the selection bounds in normalized order (start <= end).
    pub fn ordered(&self) -> (r: (CellCoord, CellCoord))
        ensures
            r == if reads_before(self.anchor, self.end) { (self.anchor, self.end) } else { (self.end, self.anchor) },
            reads_before(r.0, r.1),
    {
        if self.anchor.row < self.end.row || (self.anchor.row == self.end.row && self.anchor.col <= self.end.col) {
            (self.anchor, self.end)
        } else {
            (self.end, self.anchor)
        }
    }

    /// Return `true` if the selection starts and ends on the same cell.
    pub fn is_empty(&self) -> (b: bool)
        ensures
            b == (self.anchor == self.end),
    {
        self.anchor == self.end
    }
}

/// `s` without its trailing spaces.
pub open spec fn trim_end(s: Seq<char>) -> Seq<char>
    decreases s.len(),
{
    if s.len() > 0 && s.last() == ' ' {
        trim_end(s.drop_last())
    } else {
        s
    }
}

/// The characters of a row of cells.
pub open spec fn row_chars(row: Seq<Cell>) -> Seq<char> {
    row.map_values(|c: Cell| c.c)
}

/// The elements of `s` at positions `from` up to, not including, `to`, as far as
/// `s` reaches.
pub open spec fn window(s: Seq<char>, from: int, to: int) -> Seq<char> {
    let hi = if to < s.len() { to } else { s.len() as int };
    if from < hi { s.subrange(from, hi) } else { Seq::empty() }
}

pub open spec fn min_usize(a: int, b: int) -> int {
    if a <= b { a } else { b }
}

/// A full line of the selection, which lies strictly between its first and last
/// rows: the row without trailing spaces, and a newline; nothing for a missing row.
pub open spec fn middle_line(cells: Seq<Vec<Cell>>, r: int) -> Seq<char> {
    if 0 <= r < cells.len() {
        trim_end(row_chars(cells[r]@)).push('\n')
    } else {
        Seq::empty()
    }
}

/// The full lines for the rows from `lo` up to, not including, `hi`.
pub open spec fn middle_lines(cells: Seq<Vec<Cell>>, lo: int, hi: int) -> Seq<char>
    decreases hi - lo,
{
    if hi <= lo {
        Seq::empty()
    } else {
        middle_lines(cells, lo, hi - 1) + middle_line(cells, hi - 1)
    }
}

/// The text that a selection from `start` to `end` covers, each line without its
/// trailing spaces; rows beyond the buffer contribute nothing, and columns stop
/// at `cols`.
pub open spec fn selected_text(cells: Seq<Vec<Cell>>, start: CellCoord, end: CellCoord, cols: int) -> Seq<char> {
    let from = min_usize(start.col as int, cols);
    let to = min_usize(end.col + 1, cols);
    if start.row == end.row {
        if start.row < cells.len() {
            trim_end(window(row_chars(cells[start.row as int]@), from, to))
        } else {
            Seq::empty()
        }
    } else {
        let first = if start.row < cells.len() {
            let row = row_chars(cells[start.row as int]@);
            trim_end(window(row, from, row.len() as int)).push('\n')
        } else {
            Seq::empty()
        };
        let last = if end.row < cells.len() {
            trim_end(window(row_chars(cells[end.row as int]@), 0, to))
        } else {
            Seq::empty()
        };
        first + middle_lines(cells, start.row + 1, end.row as int) + last
    }
}

/// Append the characters of `row` from `from` up to `to` to `out`.
fn push_window(out: &mut Vec<char>, row: &Vec<Cell>, from: usize, to: usize)
    ensures
        final(out)@ == old(out)@ + window(row_chars(row@), from as int, to as int),
{
    let hi = if to < row.len() { to } else { row.len() };
    let ghost chars = row_chars(row@);
    if from < hi {
        let mut i = from;
        while i < hi
            invariant
                from <= i <= hi,
                hi <= row@.len(),
                chars == row_chars(row@),
                out@ == old(out)@ + chars.subrange(from as int, i as int),
            decreases hi - i,
        {
            out.push(row[i].c);
            proof {
                assert(chars.subrange(from as int, i + 1) =~= chars.subrange(from as int, i as int).push(chars[i as int]));
            }
            i = i + 1;
        }
    }
    proof {
        if from >= hi {
            assert(window(chars, from as int, to as int) =~= Seq::<char>::empty());
        }
        assert(out@ =~= old(out)@ + window(chars, from as int, to as int));
    }
}

/// Drop the trailing spaces of `v`.
fn trim_chars(v: &mut Vec<char>)
    ensures
        final(v)@ == trim_end(old(v)@),
{
    let ghost whole = v@;
    while v.len() > 0 && v[v.len() - 1] == ' '
        invariant
            trim_end(v@) == trim_end(whole),
        decreases v.len(),
    {
        proof {
            assert(v@.drop_last() =~= v@.take(v@.len() - 1));
        }
        v.pop();
    }
}

/// Extract selected text from the buffer cells.
pub fn extract_text(cells: &[Vec<Cell>], start: CellCoord, end: CellCoord, cols: usize) -> (text: String)
    ensures
        text@ == selected_text(cells@, start, end, cols as int),
{
    let from = if start.col < cols { start.col } else { cols };
    let to = if end.col < cols { end.col + 1 } else { cols };
    if start.row == end.row {
        // Single-line selection
        let mut line: Vec<char> = Vec::new();
        if start.row < cells.len() {
            push_window(&mut line, &cells[start.row], from, to);
        }
        trim_chars(&mut line);
        proof {
            if start.row >= cells.len() {
                assert(line@ =~= Seq::<char>::empty());
            }
        }
        return string_from_chars(line.as_slice());
    }
    // Multi-line selection
    // First line: from start.col to end of line
    let mut result: Vec<char> = Vec::new();
    if start.row < cells.len() {
        let row = &cells[start.row];
        push_window(&mut result, row, from, row.len());
        trim_chars(&mut result);
        result.push('\n');
    }
    let ghost first = result@;
    // Middle lines: full lines
    let mut r: usize = start.row;
    while r < end.row && r + 1 < end.row
        invariant
            start.row <= r,
            start.row < end.row ==> r < end.row,
            start.row >= end.row ==> r == start.row,
            result@ == first + middle_lines(cells@, start.row + 1, r + 1),
        decreases end.row - r,
    {
        r = r + 1;
        let ghost before = result@;
        if r < cells.len() {
            let mut line: Vec<char> = Vec::new();
            push_window(&mut line, &cells[r], 0, cells[r].len());
            trim_chars(&mut line);
            line.push('\n');
            proof {
                assert(window(row_chars(cells@[r as int]@), 0, cells@[r as int]@.len() as int) =~= row_chars(cells@[r as int]@));
            }
            result.append(&mut line);
        }
        proof {
            assert(result@ =~= first + middle_lines(cells@, start.row + 1, r + 1));
        }
    }
    proof {
        if start.row < end.row {
            assert(r + 1 == end.row);
        } else {
            assert(middle_lines(cells@, start.row + 1, r + 1) =~= middle_lines(cells@, start.row + 1, end.row as int));
        }
    }
    // Last line: from start of line to end.col
    if end.row < cells.len() {
        let mut line: Vec<char> = Vec::new();
        push_window(&mut line, &cells[end.row], 0, to);
        trim_chars(&mut line);
        result.append(&mut line);
    }
    proof {
        assert(result@ =~= selected_text(cells@, start, end, cols as int));
    }
    string_from_chars(result.as_slice())
}

/// `s` without its trailing spaces.
pub fn trim_trailing_spaces(s: &str) -> (t: String)
    ensures
        t@ == trim_end(s@),
{
    let mut v = chars_of(s);
    trim_chars(&mut v);
    string_from_chars(v.as_slice())
}

} // verus!
