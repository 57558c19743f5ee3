//! Glyph-atlas bookkeeping: where rasterized glyphs are packed in the atlas
//! texture, which glyphs are there already, and how rasterizer output becomes
//! one coverage byte per pixel.
use vstd::prelude::*;
use std::collections::HashMap;

verus! {

/// Row-based packing state for the glyph atlas: glyphs are laid left to right
/// in rows; a row is as tall as its tallest glyph.
#[derive(Debug, Clone, Copy, PartialEq, Eq, Structural)]
pub struct PackingState {
    pub current_x: u32,
    pub current_y: u32,
    pub row_height: u32,
}

/// A rectangle of the atlas, in pixels.
pub struct AtlasRect {
    pub x: int,
    pub y: int,
    pub w: int,
    pub h: int,
}

/// Two rectangles share no pixel.
pub open spec fn disjoint(a: AtlasRect, b: AtlasRect) -> bool {
    a.x + a.w <= b.x || b.x + b.w <= a.x || a.y + a.h <= b.y || b.y + b.h <= a.y
}

impl PackingState {
    /// An empty atlas.
    pub fn new() -> (p: Self)
        ensures
            p.current_x == 0 && p.current_y == 0 && p.row_height == 0,
    {
        PackingState { current_x: 0, current_y: 0, row_height: 0 }
    }

    /// The current row ends inside an atlas of the given height.
    pub open spec fn wf(self, height: u32) -> bool {
        self.current_y + self.row_height <= height
    }

    /// A rectangle lies in the part of the atlas already handed out: in a row
    /// above the current one, or in the current row left of the cursor.
    pub open spec fn behind(self, r: AtlasRect) -> bool {
        &&& 0 <= r.x && 0 <= r.y && 0 <= r.w && 0 <= r.h
        &&& (r.y + r.h <= self.current_y || (r.y == self.current_y && r.x + r.w <= self.current_x && r.h
            <= self.row_height))
    }

    /// The row that a glyph of padded width `pw` goes into starts at this height.
    pub open spec fn row_for(self, pw: int, width: u32) -> int {
        if self.current_x + pw > width { self.current_y + self.row_height } else { self.current_y as int }
    }

    /// The packing of a `w` by `h` glyph: its place, or `None` when the atlas is
    /// full, and the state after it.
    pub open spec fn allocate_spec(self, w: u32, h: u32, width: u32, height: u32) -> (Option<(u32, u32)>, PackingState) {
        let pw = w + 1;
        let ph = h + 1;
        let wraps = self.current_x + pw > width;
        let p = if wraps {
            PackingState { current_x: 0, current_y: (self.current_y + self.row_height) as u32, row_height: 0 }
        } else {
            self
        };
        if p.current_y + ph > height {
            (None, p)
        } else {
            (
                Some((p.current_x, p.current_y)),
                PackingState {
                    current_x: (p.current_x + pw) as u32,
                    current_y: p.current_y,
                    row_height: if p.row_height >= ph { p.row_height } else { ph as u32 },
                },
            )
        }
    }

    /// The additions in `allocate` stay within `u32`.
    pub open spec fn allocate_ok(self, w: u32, h: u32, width: u32) -> bool {
        &&& w < u32::MAX
        &&& h < u32::MAX
        &&& self.current_x + w + 1 <= u32::MAX
        &&& self.row_for(w + 1, width) + h + 1 <= u32::MAX
    }

    /// Allocate a rectangle in the atlas using simple row packing, with 1px
    /// padding between glyphs. Returns `None` when the atlas is full.
    pub fn allocate(&mut self, w: u32, h: u32, width: u32, height: u32) -> (r: Option<(u32, u32)>)
        requires
            old(self).wf(height),
            old(self).allocate_ok(w, h, width),
        ensures
            (r, *final(self)) == old(self).allocate_spec(w, h, width, height),
            final(self).wf(height),
    {
        // Add 1px padding between glyphs
        let padded_w = w + 1;
        let padded_h = h + 1;
        if self.current_x + padded_w > width {
            // Move to next row
            self.current_y = self.current_y + self.row_height;
            self.current_x = 0;
            self.row_height = 0;
        }
        if self.current_y + padded_h > height {
            return None;
        }
        let x = self.current_x;
        let y = self.current_y;
        self.current_x = self.current_x + padded_w;
        self.row_height = if self.row_height >= padded_h { self.row_height } else { padded_h };
        Some((x, y))
    }
}

/// A glyph placed by `allocate` lies inside the atlas when it is no wider than
/// the atlas, shares no pixel with anything handed out before, and everything
/// handed out before stays handed out; the new glyph with its padding is handed
/// out afterwards. So no two glyphs of the atlas overlap.
pub proof fn lemma_allocation_disjoint(p: PackingState, w: u32, h: u32, width: u32, height: u32, earlier: AtlasRect)
    requires
        p.wf(height),
        p.allocate_ok(w, h, width),
        p.behind(earlier),
        p.allocate_spec(w, h, width, height).0 is Some,
    ensures
        ({
            let (r, q) = p.allocate_spec(w, h, width, height);
            let (x, y) = r->0;
            let placed = AtlasRect { x: x as int, y: y as int, w: w + 1, h: h + 1 };
            &&& y + h + 1 <= height
            &&& (w + 1 <= width ==> x + w + 1 <= width)
            &&& disjoint(placed, earlier)
            &&& q.behind(earlier)
            &&& q.behind(placed)
        }),
{
}

/// The alpha channel of RGBA pixels.
pub open spec fn alpha_of(data: Seq<u8>) -> Seq<u8> {
    Seq::new(data.len() / 4, |i: int| data[4 * i + 3])
}

/// The mean of the three subpixel channels of RGB pixels, rounded down.
pub open spec fn rgb_mean(data: Seq<u8>) -> Seq<u8> {
    Seq::new(data.len() / 3, |i: int| ((data[3 * i] + data[3 * i + 1] + data[3 * i + 2]) / 3) as u8)
}

/// Convert RGBA pixels to single-channel coverage: their alpha.
pub fn alpha_from_rgba(data: &[u8]) -> (out: Vec<u8>)
    requires
        data@.len() % 4 == 0,
    ensures
        out@ == alpha_of(data@),
{
    let mut out: Vec<u8> = Vec::new();
    let mut i: usize = 0;
    let len = data.len();
    let n = len / 4;
    while i < n
        invariant
            len == data@.len(),
            n == data@.len() / 4,
            i <= n,
            out@ == alpha_of(data@).take(i as int),
        decreases n - i,
    {
        proof {
            assert(4 * i + 3 < data@.len()) by (nonlinear_arith)
                requires
                    i < n,
                    n == data@.len() / 4,
            ;
        }
        out.push(data[4 * i + 3]);
        proof {
            assert(out@ =~= alpha_of(data@).take(i + 1));
        }
        i = i + 1;
    }
    proof {
        assert(out@ =~= alpha_of(data@));
    }
    out
}

/// Convert subpixel (RGB) coverage to single-channel coverage: the mean of the
/// three channels.
pub fn average_rgb(data: &[u8]) -> (out: Vec<u8>)
    requires
        data@.len() % 3 == 0,
    ensures
        out@ == rgb_mean(data@),
{
    let mut out: Vec<u8> = Vec::new();
    let mut i: usize = 0;
    let len = data.len();
    let n = len / 3;
    while i < n
        invariant
            len == data@.len(),
            n == data@.len() / 3,
            i <= n,
            out@ == rgb_mean(data@).take(i as int),
        decreases n - i,
    {
        proof {
            assert(3 * i + 2 < data@.len()) by (nonlinear_arith)
                requires
                    i < n,
                    n == data@.len() / 3,
            ;
        }
        let sum = data[3 * i] as u32 + data[3 * i + 1] as u32 + data[3 * i + 2] as u32;
        out.push((sum / 3) as u8);
        proof {
            assert(out@ =~= rgb_mean(data@).take(i + 1));
        }
        i = i + 1;
    }
    proof {
        assert(out@ =~= rgb_mean(data@));
    }
    out
}

/// Where a rasterized glyph lies in the atlas, in pixels, and how far it is
/// offset from the pen position. A glyph with no pixels has zero size at `(0, 0)`.
#[derive(Debug, Clone, Copy, PartialEq, Eq, Structural)]
pub struct GlyphSlot {
    pub x: u32,
    pub y: u32,
    pub width: u32,
    pub height: u32,
    pub offset_x: i32,
    pub offset_y: i32,
}

/// The key of a glyph: its character, and the bit pattern of the font size it
/// was rasterized at.
pub open spec fn glyph_key(c: char, size_bits: u32) -> u64 {
    ((c as u64) * 0x1_0000_0000 + size_bits as u64) as u64
}

/// Two glyphs share a key only when they have the same character and size.
pub proof fn lemma_glyph_key_distinct(c: char, size_bits: u32, d: char, other_bits: u32)
    requires
        c != d || size_bits != other_bits,
    ensures
        glyph_key(c, size_bits) != glyph_key(d, other_bits),
{
    if c != d {
        assert((c as u64) != (d as u64));
    }
}

/// The glyphs already in the atlas, by character and font size.
pub struct GlyphCache {
    slots: HashMap<u64, GlyphSlot>,
}

impl GlyphCache {
    /// The cached glyphs, by key.
    pub closed spec fn slots(&self) -> Map<u64, GlyphSlot> {
        self.slots@
    }

    /// An empty cache.
    pub fn new() -> (cache: Self)
        ensures
            cache.slots() == Map::<u64, GlyphSlot>::empty(),
    {
        GlyphCache { slots: HashMap::new() }
    }

    fn key(c: char, size_bits: u32) -> (k: u64)
        ensures
            k == glyph_key(c, size_bits),
    {
        let code = c as u32 as u64;
        assert(code == c as u64);
        code * 0x1_0000_0000 + size_bits as u64
    }

    /// The glyph of `c` at the font size with bit pattern `size_bits`, if cached.
    pub fn lookup(&self, c: char, size_bits: u32) -> (slot: Option<GlyphSlot>)
        ensures
            slot == if self.slots().contains_key(glyph_key(c, size_bits)) {
                Some(self.slots()[glyph_key(c, size_bits)])
            } else {
                None
            },
    {
        broadcast use vstd::std_specs::hash::group_hash_axioms;

        let k = Self::key(c, size_bits);
        match self.slots.get(&k) {
            Some(slot) => Some(*slot),
            None => None,
        }
    }

    /// Remember where the glyph of `c` at the given size lies.
    pub fn remember(&mut self, c: char, size_bits: u32, slot: GlyphSlot)
        ensures
            final(self).slots() == old(self).slots().insert(glyph_key(c, size_bits), slot),
    {
        broadcast use vstd::std_specs::hash::group_hash_axioms;

        let k = Self::key(c, size_bits);
        self.slots.insert(k, slot);
    }
}

/// A glyph remembered is found again, under its character and size, and
/// remembering it changes no other glyph.
pub proof fn lemma_lookup_after_remember(
    before: Map<u64, GlyphSlot>,
    c: char,
    size_bits: u32,
    slot: GlyphSlot,
    d: char,
    other_bits: u32,
)
    ensures
        ({
            let after = before.insert(glyph_key(c, size_bits), slot);
            &&& after.contains_key(glyph_key(c, size_bits)) && after[glyph_key(c, size_bits)] == slot
            &&& (c != d || size_bits != other_bits) ==> (after.contains_key(glyph_key(d, other_bits))
                == before.contains_key(glyph_key(d, other_bits))) && after[glyph_key(d, other_bits)]
                == before[glyph_key(d, other_bits)]
        }),
{
    if c != d || size_bits != other_bits {
        lemma_glyph_key_distinct(c, size_bits, d, other_bits);
    }
}

} // verus!
