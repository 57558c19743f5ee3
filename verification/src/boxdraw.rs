//! Which characters are drawn as geometry rather than from the font, which
//! straight pieces each of them is made of, and the renderer of pane borders.
use vstd::prelude::*;

verus! {

/// Returns `true` if the character is a box-drawing character (U+2500 to U+257F).
pub fn is_box_drawing(c: char) -> (b: bool)
    ensures
        b == ('\u{2500}' <= c && c <= '\u{257F}'),
{
    '\u{2500}' <= c && c <= '\u{257F}'
}

/// One straight piece of a box-drawing character, drawn as one filled rectangle
/// of the cell: full lines pass through the cell's centre, the half lines run
/// from the centre to an edge, the heavy lines are twice as thick, and the
/// double lines are two lines set one line-width either side of the centre.
#[derive(Debug, Clone, Copy, PartialEq, Eq, Structural)]
pub enum Segment {
    /// Horizontal, edge to edge.
    HorizontalFull,
    /// Vertical, edge to edge.
    VerticalFull,
    /// Horizontal, from the centre to the right edge.
    RightFromCentre,
    /// Horizontal, from the left edge to the centre.
    LeftToCentre,
    /// Vertical, from the centre to the bottom edge.
    DownFromCentre,
    /// Vertical, from the top edge to the centre.
    UpToCentre,
    /// Horizontal, edge to edge, twice as thick.
    HeavyHorizontal,
    /// Vertical, edge to edge, twice as thick.
    HeavyVertical,
    /// Horizontal, edge to edge, above the centre.
    DoubleUpper,
    /// Horizontal, edge to edge, below the centre.
    DoubleLower,
    /// Vertical, edge to edge, left of the centre.
    DoubleLeft,
    /// Vertical, edge to edge, right of the centre.
    DoubleRight,
    /// Horizontal, the left half of the cell.
    HalfLeft,
    /// Vertical, the upper half of the cell.
    HalfUp,
    /// Horizontal, the right half of the cell.
    HalfRight,
    /// Vertical, the lower half of the cell.
    HalfDown,
}

/// The pieces a box-drawing character is drawn with; none for a character that
/// is left to the font. Rounded corners are drawn as square ones.
pub open spec fn box_segments(c: char) -> Seq<Segment> {
    if c == '\u{2500}' {
        seq![Segment::HorizontalFull]
    } else if c == '\u{2501}' {
        seq![Segment::HeavyHorizontal]
    } else if c == '\u{2502}' {
        seq![Segment::VerticalFull]
    } else if c == '\u{2503}' {
        seq![Segment::HeavyVertical]
    } else if c == '\u{250C}' || c == '\u{256D}' {
        seq![Segment::RightFromCentre, Segment::DownFromCentre]
    } else if c == '\u{2510}' || c == '\u{256E}' {
        seq![Segment::LeftToCentre, Segment::DownFromCentre]
    } else if c == '\u{2514}' || c == '\u{2570}' {
        seq![Segment::RightFromCentre, Segment::UpToCentre]
    } else if c == '\u{2518}' || c == '\u{256F}' {
        seq![Segment::LeftToCentre, Segment::UpToCentre]
    } else if c == '\u{251C}' {
        seq![Segment::VerticalFull, Segment::RightFromCentre]
    } else if c == '\u{2524}' {
        seq![Segment::VerticalFull, Segment::LeftToCentre]
    } else if c == '\u{252C}' {
        seq![Segment::HorizontalFull, Segment::DownFromCentre]
    } else if c == '\u{2534}' {
        seq![Segment::HorizontalFull, Segment::UpToCentre]
    } else if c == '\u{253C}' {
        seq![Segment::HorizontalFull, Segment::VerticalFull]
    } else if c == '\u{2550}' {
        seq![Segment::DoubleUpper, Segment::DoubleLower]
    } else if c == '\u{2551}' {
        seq![Segment::DoubleLeft, Segment::DoubleRight]
    } else if c == '\u{2574}' {
        seq![Segment::HalfLeft]
    } else if c == '\u{2575}' {
        seq![Segment::HalfUp]
    } else if c == '\u{2576}' {
        seq![Segment::HalfRight]
    } else if c == '\u{2577}' {
        seq![Segment::HalfDown]
    } else {
        Seq::empty()
    }
}

/// The pieces `c` is drawn with, in drawing order; empty when the font draws it.
pub fn box_segments_of(c: char) -> (v: Vec<Segment>)
    ensures
        v@ == box_segments(c),
{
    let v = match c {
        '\u{2500}' => vec![Segment::HorizontalFull],
        '\u{2501}' => vec![Segment::HeavyHorizontal],
        '\u{2502}' => vec![Segment::VerticalFull],
        '\u{2503}' => vec![Segment::HeavyVertical],
        '\u{250C}' | '\u{256D}' => vec![Segment::RightFromCentre, Segment::DownFromCentre],
        '\u{2510}' | '\u{256E}' => vec![Segment::LeftToCentre, Segment::DownFromCentre],
        '\u{2514}' | '\u{2570}' => vec![Segment::RightFromCentre, Segment::UpToCentre],
        '\u{2518}' | '\u{256F}' => vec![Segment::LeftToCentre, Segment::UpToCentre],
        '\u{251C}' => vec![Segment::VerticalFull, Segment::RightFromCentre],
        '\u{2524}' => vec![Segment::VerticalFull, Segment::LeftToCentre],
        '\u{252C}' => vec![Segment::HorizontalFull, Segment::DownFromCentre],
        '\u{2534}' => vec![Segment::HorizontalFull, Segment::UpToCentre],
        '\u{253C}' => vec![Segment::HorizontalFull, Segment::VerticalFull],
        '\u{2550}' => vec![Segment::DoubleUpper, Segment::DoubleLower],
        '\u{2551}' => vec![Segment::DoubleLeft, Segment::DoubleRight],
        '\u{2574}' => vec![Segment::HalfLeft],
        '\u{2575}' => vec![Segment::HalfUp],
        '\u{2576}' => vec![Segment::HalfRight],
        '\u{2577}' => vec![Segment::HalfDown],
        _ => Vec::new(),
    };
    proof {
        assert(v@ =~= box_segments(c));
    }
    v
}

/// Only box-drawing characters are drawn as geometry.
pub proof fn lemma_segments_only_for_box_drawing(c: char)
    requires
        box_segments(c).len() > 0,
    ensures
        '\u{2500}' <= c && c <= '\u{257F}',
{
}

/// Renderer for pane borders and separators; it draws nothing yet.
#[derive(Debug)]
pub struct BorderRenderer {
    _private: (),
}

impl BorderRenderer {
    /// Create a new border renderer.
    pub fn new() -> Self {
        BorderRenderer { _private: () }
    }
}

impl Default for BorderRenderer {
    fn default() -> Self {
        Self::new()
    }
}

} // verus!
