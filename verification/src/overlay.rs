//! Planning how the interface is drawn: the order of its vertices, the draw
//! calls and their clipping, and the images that are made for it.

use crate::pixels::byte_at;
use crate::shelf::{cursor_after, placement, Cursor, Shelf};
use vstd::prelude::*;

verus! {

/// The vertices that the vertex buffer holds.
pub const MAX_VERTICES: u32 = 16384;

/// An element of the interface, as far as the plan depends on it.
#[derive(Clone, Copy, Debug, PartialEq, Eq, Structural)]
pub enum OverlayItem {
    /// Clips what follows to a region.
    ScissorPush,
    /// Ends the innermost clipping.
    ScissorPop,
    /// A tooltip, which is drawn after everything else.
    Tooltip { vertices: u32 },
    /// Anything else.
    Shape { vertices: u32 },
}

/// A draw call: a range of the vertices, and the push that clips it.
#[derive(Clone, Copy, Debug, PartialEq, Eq, Structural)]
pub struct DrawOp {
    pub start: u32,
    pub count: u32,
    pub scissor: Option<usize>,
}

/// A clipping: the item that begins it, and the one that it lies within.
#[derive(Clone, Copy, Debug, PartialEq, Eq, Structural)]
pub struct Clip {
    pub item: usize,
    pub within: Option<usize>,
}

/// The plan of the first items.
pub struct Planned {
    /// The vertices of the shapes so far.
    pub total: int,
    /// The first vertex that no draw call covers yet.
    pub start: int,
    pub ops: Seq<DrawOp>,
    /// The pushes that are open, from the outermost.
    pub stack: Seq<usize>,
    pub clips: Seq<Clip>,
    /// The shapes, then the tooltips, by their items' places.
    pub shapes: Seq<usize>,
    pub tooltips: Seq<usize>,
}

/// The innermost of some open pushes.
pub open spec fn innermost(stack: Seq<usize>) -> Option<usize> {
    if stack.len() == 0 {
        None
    } else {
        Some(stack.last())
    }
}

/// The draw calls with one more for the vertices from `start` to `total`, if
/// there are any.
pub open spec fn flushed(ops: Seq<DrawOp>, start: int, total: int, stack: Seq<usize>) -> Seq<DrawOp> {
    if total > start {
        ops.push(
            DrawOp {
                start: start as u32,
                count: (total - start) as u32,
                scissor: innermost(stack),
            },
        )
    } else {
        ops
    }
}

/// The plan with one more item.
pub open spec fn planned_item(p: Planned, item: OverlayItem, i: usize) -> Planned {
    match item {
        OverlayItem::Tooltip { .. } => Planned { tooltips: p.tooltips.push(i), ..p },
        OverlayItem::Shape { vertices } => Planned {
            total: p.total + vertices,
            shapes: p.shapes.push(i),
            ..p
        },
        OverlayItem::ScissorPush => Planned {
            ops: flushed(p.ops, p.start, p.total, p.stack),
            start: p.total,
            stack: p.stack.push(i),
            clips: p.clips.push(Clip { item: i, within: innermost(p.stack) }),
            ..p
        },
        OverlayItem::ScissorPop => Planned {
            ops: flushed(p.ops, p.start, p.total, p.stack),
            start: p.total,
            stack: if p.stack.len() == 0 {
                p.stack
            } else {
                p.stack.drop_last()
            },
            ..p
        },
    }
}

/// The plan of the first `n` items.
pub open spec fn planned(items: Seq<OverlayItem>, n: nat) -> Planned
    decreases n,
{
    if n == 0 {
        Planned {
            total: 0,
            start: 0,
            ops: Seq::empty(),
            stack: Seq::empty(),
            clips: Seq::empty(),
            shapes: Seq::empty(),
            tooltips: Seq::empty(),
        }
    } else {
        planned_item(planned(items, (n - 1) as nat), items[n - 1], (n - 1) as usize)
    }
}

/// The vertices of the first `n` tooltips among the items.
pub open spec fn tooltip_vertices(items: Seq<OverlayItem>, n: nat) -> int
    decreases n,
{
    if n == 0 {
        0
    } else {
        tooltip_vertices(items, (n - 1) as nat) + match items[n - 1] {
            OverlayItem::Tooltip { vertices } => vertices as int,
            _ => 0,
        }
    }
}

/// All vertices of some items.
pub open spec fn all_vertices(items: Seq<OverlayItem>) -> int {
    planned(items, items.len()).total + tooltip_vertices(items, items.len())
}

/// The draw calls of some items: those of the shapes, then one for what is left
/// and the tooltips, clipped by what is still open.
pub open spec fn all_ops(items: Seq<OverlayItem>) -> Seq<DrawOp> {
    let p = planned(items, items.len());
    flushed(p.ops, p.start, all_vertices(items), p.stack)
}

/// How many of some vertices fit into the buffer from `base` on.
pub open spec fn fitting(base: int, vertices: int) -> int {
    let room = if base < 16384 {
        16384 - base
    } else {
        0
    };
    if vertices < room {
        vertices
    } else {
        room
    }
}

/// A plan for drawing.
pub struct DrawPlan {
    /// The draw calls, with their ranges counted from the first vertex of this
    /// plan.
    pub ops: Vec<DrawOp>,
    pub clips: Vec<Clip>,
    /// The items whose vertices are written, in that order.
    pub order: Vec<usize>,
    /// How many vertices fit into the buffer.
    pub written: u32,
    /// The first free vertex after this plan.
    pub next_base: u32,
}

proof fn lemma_totals_grow(items: Seq<OverlayItem>, m: nat, n: nat)
    requires
        m <= n,
    ensures
        0 <= planned(items, m).total <= planned(items, n).total,
        0 <= tooltip_vertices(items, m) <= tooltip_vertices(items, n),
    decreases n,
{
    if m < n {
        lemma_totals_grow(items, m, (n - 1) as nat);
    } else if n > 0 {
        lemma_totals_grow(items, (n - 1) as nat, (n - 1) as nat);
    }
}

/// Plans the drawing of some items whose vertices go to the buffer from
/// `vertex_base` on.
pub fn draw_from(items: &Vec<OverlayItem>, vertex_base: u32) -> (plan: DrawPlan)
    requires
        all_vertices(items@) + vertex_base <= u32::MAX,
    ensures
        plan.ops@ == all_ops(items@),
        plan.clips@ == planned(items@, items@.len()).clips,
        plan.order@ == planned(items@, items@.len()).shapes + planned(
            items@,
            items@.len(),
        ).tooltips,
        plan.written == fitting(vertex_base as int, all_vertices(items@)),
        plan.next_base == vertex_base + fitting(vertex_base as int, all_vertices(items@)),
{
    let mut ops: Vec<DrawOp> = Vec::new();
    let mut clips: Vec<Clip> = Vec::new();
    let mut stack: Vec<usize> = Vec::new();
    let mut order: Vec<usize> = Vec::new();
    let mut tooltips: Vec<usize> = Vec::new();
    let mut total: u32 = 0;
    let mut tips: u32 = 0;
    let mut start: u32 = 0;
    let mut i: usize = 0;
    while i < items.len()
        invariant
            i <= items@.len(),
            all_vertices(items@) <= u32::MAX,
            start <= total,
            tips == tooltip_vertices(items@, i as nat),
            planned(items@, i as nat) == (Planned {
                total: total as int,
                start: start as int,
                ops: ops@,
                stack: stack@,
                clips: clips@,
                shapes: order@,
                tooltips: tooltips@,
            }),
        decreases items@.len() - i,
    {
        let ghost before = planned(items@, i as nat);
        proof {
            lemma_totals_grow(items@, (i + 1) as nat, items@.len());
            assert(planned(items@, (i + 1) as nat) == planned_item(before, items@[i as int], i));
        }
        let scissor: Option<usize> = if stack.len() > 0 {
            Some(stack[stack.len() - 1])
        } else {
            None
        };
        assert(scissor == innermost(stack@));
        match items[i] {
            OverlayItem::Tooltip { vertices } => {
                tooltips.push(i);
                tips = tips + vertices;
            },
            OverlayItem::Shape { vertices } => {
                order.push(i);
                total = total + vertices;
            },
            OverlayItem::ScissorPush => {
                if total > start {
                    ops.push(DrawOp { start, count: total - start, scissor });
                }
                start = total;
                clips.push(Clip { item: i, within: scissor });
                stack.push(i);
            },
            OverlayItem::ScissorPop => {
                if total > start {
                    ops.push(DrawOp { start, count: total - start, scissor });
                }
                start = total;
                let ghost open = stack@;
                let top: Option<usize> = stack.pop();
                assert(stack@ =~= if open.len() == 0 { open } else { open.drop_last() });
            },
        }
        i = i + 1;
    }
    let scissor: Option<usize> = if stack.len() > 0 {
        Some(stack[stack.len() - 1])
    } else {
        None
    };
    let all: u32 = total + tips;
    if all > start {
        ops.push(DrawOp { start, count: all - start, scissor });
    }
    order.append(&mut tooltips);
    let room: u32 = if vertex_base < MAX_VERTICES { MAX_VERTICES - vertex_base } else { 0 };
    let written: u32 = if all < room { all } else { room };
    proof {
        lemma_totals_grow(items@, items@.len(), items@.len());
        assert(all == all_vertices(items@));
    }
    DrawPlan { ops, clips, order, written, next_base: vertex_base + written }
}

/// Whether draw calls cover the vertices from 0 to `end` once each, in order.
pub open spec fn tile(ops: Seq<DrawOp>, end: int) -> bool
    decreases ops.len(),
{
    if ops.len() == 0 {
        end == 0
    } else {
        &&& ops.last().count > 0
        &&& ops.last().start + ops.last().count == end
        &&& tile(ops.drop_last(), ops.last().start as int)
    }
}

proof fn lemma_planned_tiles(items: Seq<OverlayItem>, n: nat)
    requires
        n <= items.len(),
        all_vertices(items) <= u32::MAX,
    ensures
        tile(planned(items, n).ops, planned(items, n).start),
        0 <= planned(items, n).start <= planned(items, n).total <= u32::MAX,
    decreases n,
{
    lemma_totals_grow(items, n, items.len());
    if n > 0 {
        let m = (n - 1) as nat;
        lemma_planned_tiles(items, m);
        let p = planned(items, m);
        lemma_flushed_tiles(p.ops, p.start, p.total, p.stack);
    }
}

proof fn lemma_flushed_tiles(ops: Seq<DrawOp>, start: int, total: int, stack: Seq<usize>)
    requires
        tile(ops, start),
        0 <= start <= total <= u32::MAX,
    ensures
        tile(flushed(ops, start, total, stack), total),
{
    if total > start {
        let all = flushed(ops, start, total, stack);
        assert(all.drop_last() =~= ops);
    }
}

/// The draw calls cover every vertex exactly once, in order, and none is empty.
pub proof fn draw_calls_cover_every_vertex(items: Seq<OverlayItem>)
    requires
        all_vertices(items) <= u32::MAX,
    ensures
        tile(all_ops(items), all_vertices(items)),
{
    lemma_planned_tiles(items, items.len());
    let p = planned(items, items.len());
    lemma_totals_grow(items, 0, items.len());
    lemma_flushed_tiles(p.ops, p.start, all_vertices(items), p.stack);
}

/// Two plans after one another write to separate parts of the buffer, and
/// neither writes beyond it.
pub proof fn plans_share_the_buffer(base: int, first: int, second: int)
    requires
        0 <= base <= 16384,
        0 <= first,
        0 <= second,
    ensures
        base + fitting(base, first) <= 16384,
        ({
            let next = base + fitting(base, first);
            next + fitting(next, second) <= 16384
        }),
        fitting(base, first) == first || base + fitting(base, first) == 16384,
{
}

/// An icon that was loaded: its pixels, the edge of its square.
pub struct Favicon {
    pub key: String,
    pub rgba: Vec<u8>,
    pub size: u32,
}

/// The edge of an icon in the icon atlas.
pub const ICON_SIZE: u32 = 64;

/// Whether `cols` is the smallest number whose square is at least `n`.
pub open spec fn is_ceil_sqrt(n: int, cols: int) -> bool {
    &&& 0 <= cols
    &&& n <= cols * cols
    &&& cols > 0 ==> (cols - 1) * (cols - 1) < n
}

/// The smallest number whose square is at least `n`.
pub fn ceil_sqrt(n: u32) -> (cols: u32)
    requires
        n <= 0x100_0000,
    ensures
        is_ceil_sqrt(n as int, cols as int),
        cols <= 4096,
        n > 0 ==> cols > 0,
{
    let mut cols: u32 = 0;
    assert(cols * cols == 0) by (nonlinear_arith)
        requires
            cols == 0,
    ;
    while (cols as u64) * (cols as u64) < n as u64
        invariant
            n <= 0x100_0000,
            cols <= 4096,
            cols * cols <= 0x100_0000,
            cols > 0 ==> (cols - 1) * (cols - 1) < n,
        decreases 4097 - cols,
    {
        assert(cols < 4096) by (nonlinear_arith)
            requires
                cols * cols < n,
                n <= 0x100_0000,
        ;
        cols = cols + 1;
        assert(cols * cols <= 0x100_0000) by (nonlinear_arith)
            requires
                0 <= cols <= 4096,
        ;
    }
    cols
}

/// A place in the icon atlas.
#[derive(Clone, Copy, Debug, PartialEq, Eq, Structural)]
pub struct IconCell {
    pub x: u32,
    pub y: u32,
}

/// The icon atlas: one cell for each icon, row by row.
pub struct IconAtlas {
    pub width: u32,
    pub height: u32,
    pub pixels: Vec<u8>,
    pub cells: Vec<IconCell>,
}

/// The coordinate of an icon's pixel that is shown at coordinate `p` of its
/// cell.
pub open spec fn sampled(p: int, size: int) -> int {
    let s = p * size / 64;
    if s < size - 1 {
        s
    } else {
        size - 1
    }
}

/// Channel `c` of the pixel at column `px`, row `py` of an icon's cell: the
/// nearest pixel of the icon, or clear where the icon's bytes end before it.
pub open spec fn shown_icon(icon: Favicon, px: int, py: int, c: int) -> u8 {
    let at = byte_at(icon.size as int, sampled(px, icon.size as int), sampled(py, icon.size as int), 0);
    if at + 3 < icon.rgba@.len() {
        icon.rgba@[at + c]
    } else {
        0
    }
}

/// Channel `c` of the pixel at column `x`, row `y` of the atlas of some icons
/// in `cols` columns.
pub open spec fn shown_atlas(icons: Seq<Favicon>, cols: int, x: int, y: int, c: int) -> u8 {
    let i = y / 64 * cols + x / 64;
    if i < icons.len() {
        shown_icon(icons[i], x % 64, y % 64, c)
    } else {
        0
    }
}

/// Builds the icon atlas: the icons scaled to cells of one size, in a grid
/// about as wide as high. There is none without icons.
pub fn update_favicon_atlas(icons: &Vec<Favicon>) -> (atlas: Option<IconAtlas>)
    requires
        icons@.len() <= 0x3_FE00,
        forall|i: int|
            0 <= i < icons@.len() ==> 1 <= (#[trigger] icons@[i]).size <= 0x8000,
    ensures
        atlas is None <==> icons@.len() == 0,
        atlas matches Some(a) ==> exists|cols: int|
            #![trigger is_ceil_sqrt(icons@.len() as int, cols)]
            {
                &&& is_ceil_sqrt(icons@.len() as int, cols)
                &&& a.width == cols * 64
                &&& a.height == (icons@.len() + cols - 1) / cols * 64
                &&& a.pixels@.len() == a.width * a.height * 4
                &&& a.cells@.len() == icons@.len()
                &&& forall|i: int|
                    0 <= i < icons@.len() ==> #[trigger] a.cells@[i] == (IconCell {
                        x: (i % cols * 64) as u32,
                        y: (i / cols * 64) as u32,
                    })
                &&& forall|x: int, y: int, c: int|
                    #![trigger a.pixels@[byte_at(a.width as int, x, y, c)]]
                    0 <= x < a.width && 0 <= y < a.height && 0 <= c < 4
                        ==> a.pixels@[byte_at(a.width as int, x, y, c)] == shown_atlas(
                        icons@,
                        cols,
                        x,
                        y,
                        c,
                    )
            },
{
    if icons.len() == 0 {
        return None;
    }
    let n: u32 = icons.len() as u32;
    let cols: u32 = ceil_sqrt(n);
    let rows: u32 = (n + cols - 1) / cols;
    proof {
        assert(cols <= 512) by (nonlinear_arith)
            requires
                (cols - 1) * (cols - 1) < n,
                n <= 0x3_FE00,
                cols > 0,
        ;
        assert(0 < rows && rows <= cols && rows * cols >= n) by (nonlinear_arith)
            requires
                rows == (n + cols - 1) / (cols as int),
                0 < n <= cols * cols,
                cols > 0,
        ;
    }
    let width: u32 = cols * ICON_SIZE;
    let height: u32 = rows * ICON_SIZE;
    let ghost (gc, gw) = (cols as int, width as int);
    let mut pixels: Vec<u8> = Vec::new();
    let mut y: u32 = 0;
    assert(0 * width * 4 == 0) by (nonlinear_arith);
    while y < height
        invariant
            0 < cols <= 512,
            width == cols * 64,
            gc == cols && gw == width,
            height <= 512 * 64,
            y <= height,
            icons@.len() <= 0x3_FE00,
            forall|i: int|
                0 <= i < icons@.len() ==> 1 <= (#[trigger] icons@[i]).size <= 0x8000,
            pixels@.len() == y * width * 4,
            forall|u: int, v: int, c: int|
                #![trigger pixels@[byte_at(gw, u, v, c)]]
                0 <= u < width && 0 <= v < y && 0 <= c < 4 ==> pixels@[byte_at(gw, u, v, c)]
                    == shown_atlas(icons@, gc, u, v, c),
        decreases height - y,
    {
        let mut x: u32 = 0;
        while x < width
            invariant
                0 < cols <= 512,
                width == cols * 64,
                gc == cols && gw == width,
                height <= 512 * 64,
                y < height,
                x <= width,
                icons@.len() <= 0x3_FE00,
                forall|i: int|
                    0 <= i < icons@.len() ==> 1 <= (#[trigger] icons@[i]).size <= 0x8000,
                pixels@.len() == (y * width + x) * 4,
                forall|u: int, v: int, c: int|
                    #![trigger pixels@[byte_at(gw, u, v, c)]]
                    0 <= u < width && 0 <= v && (v < y || (v == y && u < x)) && 0 <= c < 4
                        ==> pixels@[byte_at(gw, u, v, c)] == shown_atlas(icons@, gc, u, v, c),
            decreases width - x,
        {
            let ghost before = pixels@;
            assert(0 <= y / 64 * cols <= 512 * 512) by (nonlinear_arith)
                requires
                    0 <= y / 64 <= 512,
                    0 <= cols <= 512,
            ;
            let cell: u32 = y / 64 * cols + x / 64;
            let mut out: [u8; 4] = [0u8, 0, 0, 0];
            if (cell as usize) < icons.len() {
                let icon = &icons[cell as usize];
                out = sample_icon(icon, x % 64, y % 64);
            }
            pixels.push(out[0]);
            pixels.push(out[1]);
            pixels.push(out[2]);
            pixels.push(out[3]);
            proof {
                assert forall|c: int| 0 <= c < 4 implies #[trigger] out@[c] == shown_atlas(
                    icons@,
                    gc,
                    x as int,
                    y as int,
                    c,
                ) by {}
                assert forall|u: int, v: int, c: int|
                    #![trigger pixels@[byte_at(gw, u, v, c)]]
                    0 <= u < width && 0 <= v && (v < y || (v == y && u < x + 1)) && 0 <= c
                        < 4 implies pixels@[byte_at(gw, u, v, c)] == shown_atlas(
                    icons@,
                    gc,
                    u,
                    v,
                    c,
                ) by {
                    let k = byte_at(gw, u, v, c);
                    if v < y || u < x {
                        assert(0 <= k < before.len()) by (nonlinear_arith)
                            requires
                                k == (v * gw + u) * 4 + c,
                                0 <= u < gw,
                                0 <= v,
                                v < y || (v == y && u < x),
                                0 <= c < 4,
                                before.len() == (y * gw + x) * 4,
                                0 <= x,
                        ;
                        assert(pixels@[k] == before[k]);
                    } else {
                        assert(k == before.len() + c);
                        assert(pixels@[k] == out@[c]);
                    }
                }
            }
            x = x + 1;
        }
        assert((y + 1) * width * 4 == (y * width + width) * 4) by (nonlinear_arith);
        y = y + 1;
    }
    let mut cells: Vec<IconCell> = Vec::new();
    let mut i: u32 = 0;
    while i < n
        invariant
            0 < cols <= 512,
            gc == cols,
            i <= n <= 0x3_FE00,
            n <= rows * cols,
            rows <= cols,
            cells@.len() == i,
            forall|k: int|
                0 <= k < i ==> #[trigger] cells@[k] == (IconCell {
                    x: (k % gc * 64) as u32,
                    y: (k / gc * 64) as u32,
                }),
        decreases n - i,
    {
        assert(i / cols <= 512) by (nonlinear_arith)
            requires
                i < rows * cols,
                rows <= cols <= 512,
                0 < cols,
        ;
        cells.push(IconCell { x: i % cols * ICON_SIZE, y: i / cols * ICON_SIZE });
        i = i + 1;
    }
    assert(height * width * 4 == width * height * 4) by (nonlinear_arith);
    assert(is_ceil_sqrt(icons@.len() as int, gc));
    Some(IconAtlas { width, height, pixels, cells })
}

/// The pixel of an icon that is shown at column `px`, row `py` of its cell.
fn sample_icon(icon: &Favicon, px: u32, py: u32) -> (out: [u8; 4])
    requires
        1 <= icon.size <= 0x8000,
        px < 64,
        py < 64,
    ensures
        forall|c: int|
            0 <= c < 4 ==> #[trigger] out@[c] == shown_icon(*icon, px as int, py as int, c),
{
    let size: u32 = icon.size;
    assert(px * size <= 63 * size && py * size <= 63 * size && 0 <= px * size && 0 <= py * size)
        by (nonlinear_arith)
        requires
            0 <= px <= 63,
            0 <= py <= 63,
            0 <= size,
    ;
    let sx0: u32 = px * size / ICON_SIZE;
    let sy0: u32 = py * size / ICON_SIZE;
    let sx: u32 = if sx0 < size - 1 { sx0 } else { size - 1 };
    let sy: u32 = if sy0 < size - 1 { sy0 } else { size - 1 };
    assert(0 <= sy * size <= 0x4000_0000 - 0x8000) by (nonlinear_arith)
        requires
            0 <= sy,
            sy + 1 <= size,
            size <= 0x8000,
    ;
    let at: usize = ((sy * size + sx) * 4) as usize;
    let len: usize = icon.rgba.len();
    if at < len && 3 < len - at {
        [icon.rgba[at], icon.rgba[at + 1], icon.rgba[at + 2], icon.rgba[at + 3]]
    } else {
        [0u8, 0, 0, 0]
    }
}

/// A glyph that was drawn to a bitmap of one byte of coverage per pixel.
pub struct RasterGlyph {
    pub ch: char,
    pub width: u32,
    pub height: u32,
    pub coverage: Vec<u8>,
}

/// A glyph's place in the glyph atlas.
#[derive(Clone, Copy, Debug, PartialEq, Eq, Structural)]
pub struct PlacedGlyph {
    pub ch: char,
    pub x: u32,
    pub y: u32,
    pub width: u32,
    pub height: u32,
}

/// The edge of the glyph atlas.
pub const FONT_ATLAS_SIZE: u32 = 512;

/// The icons of the icon font, by their code points.
pub const ICONS: [char; 11] = [
    '\u{f007}', '\u{f0c1}', '\u{f1fc}', '\u{f013}', '\u{f0ac}', '\u{f075}', '\u{f121}', '\u{f00c}',
    '\u{f0c0}', '\u{f1ab}', '\u{f29a}',
];

/// The glyph atlas: white, with the glyphs' coverage as alpha.
pub struct FontAtlas {
    pub glyphs: Vec<PlacedGlyph>,
    pub pixels: Vec<u8>,
}

/// The widths and heights of some glyphs.
pub open spec fn glyph_sizes(glyphs: Seq<RasterGlyph>) -> Seq<(int, int)> {
    Seq::new(glyphs.len(), |i: int| (glyphs[i].width as int, glyphs[i].height as int))
}

/// Where the `i`th of some glyphs goes.
pub open spec fn glyph_corner(glyphs: Seq<RasterGlyph>, i: nat) -> Option<(int, int)> {
    placement(Cursor::start(512, 1), glyph_sizes(glyphs), i)
}

/// Whether the first `n` glyphs all fit. Packing ends at the first that does
/// not.
pub open spec fn first_fit(glyphs: Seq<RasterGlyph>, n: nat) -> bool {
    forall|i: nat| i < n ==> #[trigger] glyph_corner(glyphs, i) is Some
}

/// The atlas's bytes with one glyph's pixel `m` set.
pub open spec fn with_coverage(
    pixels: Seq<u8>,
    glyph: RasterGlyph,
    corner: (int, int),
    m: int,
) -> Seq<u8> {
    let at = byte_at(
        512,
        corner.0 + m % (glyph.width as int),
        corner.1 + m / (glyph.width as int),
        0,
    );
    Seq::new(
        pixels.len(),
        |k: int|
            if at <= k < at + 3 {
                255u8
            } else if k == at + 3 {
                glyph.coverage@[m]
            } else {
                pixels[k]
            },
    )
}

/// The atlas's bytes with the first `n` pixels of a glyph set.
pub open spec fn with_glyph(
    pixels: Seq<u8>,
    glyph: RasterGlyph,
    corner: (int, int),
    n: nat,
) -> Seq<u8>
    decreases n,
{
    if n == 0 {
        pixels
    } else {
        with_coverage(
            with_glyph(pixels, glyph, corner, (n - 1) as nat),
            glyph,
            corner,
            n - 1,
        )
    }
}

/// The atlas's bytes after the first `n` glyphs, which all fit, were drawn into
/// a clear atlas.
pub open spec fn glyphs_drawn(glyphs: Seq<RasterGlyph>, n: nat) -> Seq<u8>
    decreases n,
{
    if n == 0 {
        Seq::new(0x10_0000, |k: int| 0u8)
    } else {
        let i = (n - 1) as nat;
        with_glyph(
            glyphs_drawn(glyphs, i),
            glyphs[i as int],
            glyph_corner(glyphs, i).unwrap(),
            (glyphs[i as int].width * glyphs[i as int].height) as nat,
        )
    }
}

/// Whether a glyph can be drawn at a corner: its coverage is complete, and its
/// last pixel does not lie beyond the end of the atlas.
pub open spec fn drawable(glyph: RasterGlyph, corner: (int, int)) -> bool {
    &&& glyph.coverage@.len() >= glyph.width * glyph.height
    &&& glyph.width <= 0x4_0000
    &&& glyph.height > 0 ==> (corner.1 + glyph.height - 1) * 512 + corner.0 + glyph.width
        <= 0x4_0000
}

/// A glyph that is up to twice as wide as the atlas can be drawn wherever it fits.
pub proof fn narrow_glyphs_can_be_drawn(glyphs: Seq<RasterGlyph>, n: nat)
    requires
        n < glyphs.len(),
        glyphs[n as int].width <= 1024,
        glyphs[n as int].coverage@.len() >= glyphs[n as int].width * glyphs[n as int].height,
        glyph_corner(glyphs, n) is Some,
    ensures
        drawable(glyphs[n as int], glyph_corner(glyphs, n).unwrap()),
{
    lemma_cursor_keeps_size(glyphs, n);
}

proof fn lemma_cursor_keeps_size(glyphs: Seq<RasterGlyph>, n: nat)
    requires
        n <= glyphs.len(),
    ensures
        cursor_after(Cursor::start(512, 1), glyph_sizes(glyphs), n).size == 512,
        cursor_after(Cursor::start(512, 1), glyph_sizes(glyphs), n).gap == 1,
    decreases n,
{
    if n > 0 {
        lemma_cursor_keeps_size(glyphs, (n - 1) as nat);
    }
}

/// Builds the glyph atlas: glyphs in rows with a gap of one pixel, up to the
/// first that does not fit.
pub fn build_font_atlas(glyphs: &Vec<RasterGlyph>) -> (atlas: FontAtlas)
    requires
        forall|n: nat|
            n < glyphs@.len() && #[trigger] first_fit(glyphs@, n + 1) ==> drawable(
                glyphs@[n as int],
                glyph_corner(glyphs@, n).unwrap(),
            ),
    ensures
        ({
            let n = atlas.glyphs@.len();
            &&& n <= glyphs@.len()
            &&& first_fit(glyphs@, n)
            &&& n < glyphs@.len() ==> glyph_corner(glyphs@, n) is None
            &&& atlas.pixels@ == glyphs_drawn(glyphs@, n)
            &&& forall|i: int|
                0 <= i < n ==> #[trigger] atlas.glyphs@[i] == (PlacedGlyph {
                    ch: glyphs@[i].ch,
                    x: glyph_corner(glyphs@, i as nat).unwrap().0 as u32,
                    y: glyph_corner(glyphs@, i as nat).unwrap().1 as u32,
                    width: glyphs@[i].width,
                    height: glyphs@[i].height,
                })
        }),
{
    let mut placed: Vec<PlacedGlyph> = Vec::new();
    let mut pixels: Vec<u8> = vec![0u8; 0x10_0000];
    assert(pixels@ =~= glyphs_drawn(glyphs@, 0));
    let mut shelf = Shelf::new(FONT_ATLAS_SIZE, 1);
    let mut i: usize = 0;
    while i < glyphs.len()
        invariant
            forall|n: nat|
                n < glyphs@.len() && #[trigger] first_fit(glyphs@, n + 1) ==> drawable(
                    glyphs@[n as int],
                    glyph_corner(glyphs@, n).unwrap(),
                ),
            i <= glyphs@.len(),
            placed@.len() == i,
            shelf.wf(),
            shelf.size == 512,
            shelf.gap == 1,
            shelf@ == cursor_after(Cursor::start(512, 1), glyph_sizes(glyphs@), i as nat),
            first_fit(glyphs@, i as nat),
            pixels@.len() == 0x10_0000,
            pixels@ == glyphs_drawn(glyphs@, i as nat),
            forall|k: int|
                0 <= k < i ==> #[trigger] placed@[k] == (PlacedGlyph {
                    ch: glyphs@[k].ch,
                    x: glyph_corner(glyphs@, k as nat).unwrap().0 as u32,
                    y: glyph_corner(glyphs@, k as nat).unwrap().1 as u32,
                    width: glyphs@[k].width,
                    height: glyphs@[k].height,
                }),
        decreases glyphs@.len() - i,
    {
        let glyph = &glyphs[i];
        assert(glyph_sizes(glyphs@)[i as int] == (glyph.width as int, glyph.height as int));
        match shelf.place(glyph.width, glyph.height) {
            None => {
                assert(glyph_corner(glyphs@, i as nat) is None);
                return FontAtlas { glyphs: placed, pixels };
            },
            Some((x, y)) => {
                assert(glyph_corner(glyphs@, i as nat) == Some((x as int, y as int)));
                assert(first_fit(glyphs@, i as nat + 1));
                draw_glyph(&mut pixels, glyph, x, y);
                placed.push(
                    PlacedGlyph { ch: glyph.ch, x, y, width: glyph.width, height: glyph.height },
                );
            },
        }
        i = i + 1;
    }
    FontAtlas { glyphs: placed, pixels }
}

/// Draws one glyph's coverage at a corner of the atlas.
fn draw_glyph(pixels: &mut Vec<u8>, glyph: &RasterGlyph, x: u32, y: u32)
    requires
        drawable(*glyph, (x as int, y as int)),
        y + glyph.height <= 511,
        old(pixels)@.len() == 0x10_0000,
    ensures
        final(pixels)@.len() == 0x10_0000,
        final(pixels)@ == with_glyph(
            old(pixels)@,
            *glyph,
            (x as int, y as int),
            (glyph.width * glyph.height) as nat,
        ),
{
    let ghost before = pixels@;
    let ghost corner = (x as int, y as int);
    assert(0 <= glyph.width * glyph.height <= 0x4_0000 * 512) by (nonlinear_arith)
        requires
            0 <= glyph.width <= 0x4_0000,
            0 <= glyph.height <= 512,
    ;
    let n: u32 = glyph.width * glyph.height;
    let mut m: u32 = 0;
    while m < n
        invariant
            m <= n,
            n == glyph.width * glyph.height,
            n <= 0x4_0000 * 512,
            drawable(*glyph, (x as int, y as int)),
            y + glyph.height <= 511,
            corner == (x as int, y as int),
            pixels@.len() == 0x10_0000,
            pixels@ == with_glyph(before, *glyph, corner, m as nat),
        decreases n - m,
    {
        let ghost was = pixels@;
        assert(glyph.width > 0) by (nonlinear_arith)
            requires
                0 < n,
                n == glyph.width * glyph.height,
                glyph.width >= 0,
        ;
        assert(m / glyph.width < glyph.height) by (nonlinear_arith)
            requires
                m < glyph.width * glyph.height,
                glyph.width > 0,
                m >= 0,
        ;
        let px: u32 = x + m % glyph.width;
        let py: u32 = y + m / glyph.width;
        let at: usize = ((py * FONT_ATLAS_SIZE + px) * 4) as usize;
        pixels[at] = 255;
        pixels[at + 1] = 255;
        pixels[at + 2] = 255;
        pixels[at + 3] = glyph.coverage[m as usize];
        assert(pixels@ =~= with_coverage(was, *glyph, corner, m as int));
        m = m + 1;
    }
}

} // verus!
