//! Shelf packing: rectangles are laid out in rows from left to right, and a row
//! is as high as its highest rectangle.

use vstd::prelude::*;

verus! {

/// A packer's cursor, as numbers.
pub struct Cursor {
    /// The edge of the square to fill.
    pub size: int,
    /// The space kept free right of and below each rectangle.
    pub gap: int,
    /// Where the next rectangle of the row starts.
    pub x: int,
    /// Where the row starts.
    pub y: int,
    /// The height of the row so far.
    pub row: int,
}

impl Cursor {
    /// The cursor before the first rectangle.
    pub open spec fn start(size: int, gap: int) -> Cursor {
        Cursor { size, gap, x: 0, y: 0, row: 0 }
    }

    /// The cursor at which a rectangle `w` wide is tried: here if the row has
    /// room for it, else at the start of the next row.
    pub open spec fn wrapped(self, w: int) -> Cursor {
        if self.x + w + self.gap > self.size {
            Cursor { x: 0, y: self.y + self.row + self.gap, row: 0, ..self }
        } else {
            self
        }
    }

    /// Where a rectangle goes; nowhere if no row is left that is high enough.
    pub open spec fn place(self, w: int, h: int) -> Option<(int, int)> {
        let at = self.wrapped(w);
        if at.y + h + at.gap > at.size {
            None
        } else {
            Some((at.x, at.y))
        }
    }

    /// The cursor after a rectangle was tried.
    pub open spec fn after(self, w: int, h: int) -> Cursor {
        let at = self.wrapped(w);
        if self.place(w, h) is None {
            at
        } else {
            Cursor { x: at.x + w + at.gap, row: if h > at.row { h } else { at.row }, ..at }
        }
    }

    /// The rows that were opened lie inside the square.
    pub open spec fn wf(self) -> bool {
        &&& 0 <= self.gap
        &&& 0 <= self.x
        &&& 0 <= self.y
        &&& 0 <= self.row
        &&& self.y + self.row + self.gap <= self.size
    }
}

/// A packer of a square.
pub struct Shelf {
    pub size: u32,
    pub gap: u32,
    pub x: u64,
    pub y: u32,
    pub row: u32,
}

impl View for Shelf {
    type V = Cursor;

    open spec fn view(&self) -> Cursor {
        Cursor {
            size: self.size as int,
            gap: self.gap as int,
            x: self.x as int,
            y: self.y as int,
            row: self.row as int,
        }
    }
}

impl Shelf {
    pub open spec fn wf(&self) -> bool {
        self@.wf() && self.x <= 0x2_0000_0000
    }

    /// An empty square.
    pub fn new(size: u32, gap: u32) -> (shelf: Self)
        requires
            gap <= size,
        ensures
            shelf.wf(),
            shelf@ == Cursor::start(size as int, gap as int),
    {
        Shelf { size, gap, x: 0, y: 0, row: 0 }
    }

    /// Places a rectangle and returns its corner, or returns nothing where it
    /// does not fit. A packer with a gap is done once something did not fit.
    pub fn place(&mut self, w: u32, h: u32) -> (corner: Option<(u32, u32)>)
        requires
            old(self).wf(),
        ensures
            final(self)@ == old(self)@.after(w as int, h as int),
            corner is Some || old(self).gap == 0 ==> final(self).wf(),
            match corner {
                Some((x, y)) => old(self)@.place(w as int, h as int) == Some((x as int, y as int)),
                None => old(self)@.place(w as int, h as int) is None,
            },
    {
        if self.x + w as u64 + self.gap as u64 > self.size as u64 {
            self.x = 0;
            self.y = self.y + self.row + self.gap;
            self.row = 0;
        }
        if self.y as u64 + h as u64 + self.gap as u64 > self.size as u64 {
            return None;
        }
        let corner: (u32, u32) = (self.x as u32, self.y);
        self.x = self.x + w as u64 + self.gap as u64;
        if h > self.row {
            self.row = h;
        }
        Some(corner)
    }
}

/// A rectangle that was placed.
pub struct Rect {
    pub x: int,
    pub y: int,
    pub w: int,
    pub h: int,
}

/// Whether two rectangles have no point in common.
pub open spec fn disjoint(a: Rect, b: Rect) -> bool {
    ||| a.x + a.w <= b.x
    ||| b.x + b.w <= a.x
    ||| a.y + a.h <= b.y
    ||| b.y + b.h <= a.y
}

/// The cursor after the first `n` of the rectangles `sizes`.
pub open spec fn cursor_after(start: Cursor, sizes: Seq<(int, int)>, n: nat) -> Cursor
    decreases n,
{
    if n == 0 {
        start
    } else {
        let i = (n - 1) as nat;
        cursor_after(start, sizes, i).after(sizes[i as int].0, sizes[i as int].1)
    }
}

/// Where the `i`th of the rectangles `sizes` goes.
pub open spec fn placement(start: Cursor, sizes: Seq<(int, int)>, i: nat) -> Option<(int, int)> {
    cursor_after(start, sizes, i).place(sizes[i as int].0, sizes[i as int].1)
}

/// The rectangle that the `i`th of `sizes` covers once placed.
pub open spec fn covered(start: Cursor, sizes: Seq<(int, int)>, i: nat) -> Rect {
    let corner = placement(start, sizes, i).unwrap();
    Rect { x: corner.0, y: corner.1, w: sizes[i as int].0, h: sizes[i as int].1 }
}

/// Whether a placed rectangle lies before the cursor: in a finished row, or
/// further left in the open one.
spec fn before(r: Rect, c: Cursor) -> bool {
    &&& r.y + r.h <= c.y + c.row
    &&& r.y + r.h <= c.y || (r.y == c.y && r.x + r.w <= c.x)
}

proof fn lemma_before(start: Cursor, sizes: Seq<(int, int)>, i: nat, n: nat)
    requires
        start.gap >= 0,
        start.row >= 0,
        start.x >= 0,
        i < n <= sizes.len(),
        placement(start, sizes, i) is Some,
        forall|k: int|
            0 <= k < sizes.len() ==> 0 <= (#[trigger] sizes[k]).0 && 0 <= sizes[k].1,
    ensures
        before(covered(start, sizes, i), cursor_after(start, sizes, n)),
    decreases n,
{
    let m = (n - 1) as nat;
    lemma_cursor_gap(start, sizes, m);
    assert(0 <= sizes[m as int].0);
    if i < m {
        lemma_before(start, sizes, i, m);
    }
}

proof fn lemma_cursor_gap(start: Cursor, sizes: Seq<(int, int)>, n: nat)
    requires
        start.gap >= 0,
        start.row >= 0,
        start.x >= 0,
        n <= sizes.len(),
        forall|k: int|
            0 <= k < sizes.len() ==> 0 <= (#[trigger] sizes[k]).0 && 0 <= sizes[k].1,
    ensures
        cursor_after(start, sizes, n).gap == start.gap,
        cursor_after(start, sizes, n).size == start.size,
        cursor_after(start, sizes, n).row >= 0,
        cursor_after(start, sizes, n).x >= 0,
        cursor_after(start, sizes, n).y >= start.y,
    decreases n,
{
    if n > 0 {
        lemma_cursor_gap(start, sizes, (n - 1) as nat);
        assert(0 <= sizes[n - 1].0);
    }
}

/// No two placed rectangles overlap.
pub proof fn placed_rectangles_are_disjoint(
    start: Cursor,
    sizes: Seq<(int, int)>,
    i: nat,
    j: nat,
)
    requires
        start.wf(),
        i < j < sizes.len(),
        placement(start, sizes, i) is Some,
        placement(start, sizes, j) is Some,
        forall|k: int|
            0 <= k < sizes.len() ==> 0 <= (#[trigger] sizes[k]).0 && 0 <= sizes[k].1,
    ensures
        disjoint(covered(start, sizes, i), covered(start, sizes, j)),
{
    lemma_before(start, sizes, i, j);
    lemma_cursor_gap(start, sizes, j);
}

/// A placed rectangle that is no wider than the square lies inside it.
pub proof fn placed_rectangles_lie_inside(start: Cursor, sizes: Seq<(int, int)>, i: nat)
    requires
        start.wf(),
        i < sizes.len(),
        placement(start, sizes, i) is Some,
        sizes[i as int].0 + start.gap <= start.size,
        forall|k: int|
            0 <= k < sizes.len() ==> 0 <= (#[trigger] sizes[k]).0 && 0 <= sizes[k].1,
    ensures
        ({
            let r = covered(start, sizes, i);
            &&& 0 <= r.x && r.x + r.w <= start.size
            &&& 0 <= r.y && r.y + r.h <= start.size
        }),
{
    lemma_cursor_gap(start, sizes, i);
}

} // verus!
