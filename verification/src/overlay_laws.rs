//! What holds of all that is drawn over the world: what clips a shape, what comes
//! last, and where icons and glyphs lie in their atlases.

use crate::overlay::{
    all_ops, all_vertices, flushed, glyph_corner, glyph_sizes, glyphs_drawn, innermost, planned,
    shown_atlas, shown_icon, tooltip_vertices, with_glyph, DrawOp, Favicon, OverlayItem,
    RasterGlyph,
};
use crate::pixels::byte_at;
use crate::shelf::{placed_rectangles_are_disjoint, placed_rectangles_lie_inside, Cursor};
use vstd::prelude::*;

verus! {

/// How many more clippings the items from `a` to `b` begin than they end.
pub open spec fn balance(items: Seq<OverlayItem>, a: int, b: int) -> int
    decreases b - a,
{
    if b <= a {
        0
    } else {
        balance(items, a, b - 1) + match items[b - 1] {
            OverlayItem::ScissorPush => 1int,
            OverlayItem::ScissorPop => -1int,
            _ => 0int,
        }
    }
}

/// Whether the clipping that item `j` begins is still open before item `n`, and
/// `level` more have been opened within it since.
pub open spec fn is_open(items: Seq<OverlayItem>, j: int, n: int, level: int) -> bool {
    &&& 0 <= j < n
    &&& items[j] is ScissorPush
    &&& balance(items, j + 1, n) == level
    &&& forall|k: int| j < k <= n ==> #[trigger] balance(items, j + 1, k) >= 0
}

/// What clips an item: the last clipping that was begun before it and not ended.
pub open spec fn is_clipped_by(items: Seq<OverlayItem>, n: int, by: Option<usize>) -> bool {
    match by {
        Some(j) => is_open(items, j as int, n, 0),
        None => forall|j: int, level: int| !#[trigger] is_open(items, j, n, level),
    }
}

proof fn lemma_stack(items: Seq<OverlayItem>, n: nat)
    requires
        n <= items.len() <= usize::MAX,
    ensures
        ({
            let stack = planned(items, n).stack;
            &&& forall|d: int|
                0 <= d < stack.len() ==> is_open(
                    items,
                    #[trigger] stack[d] as int,
                    n as int,
                    stack.len() - 1 - d,
                )
            &&& forall|j: int, level: int| #[trigger]
                is_open(items, j, n as int, level) ==> 0 <= level < stack.len()
                    && stack[stack.len() - 1 - level] == j
        }),
    decreases n,
{
    let stack = planned(items, n).stack;
    if n == 0 {
    } else {
        let m = (n - 1) as nat;
        lemma_stack(items, m);
        let old = planned(items, m).stack;
        let item = items[m as int];
        assert forall|d: int| 0 <= d < stack.len() implies is_open(
            items,
            #[trigger] stack[d] as int,
            n as int,
            stack.len() - 1 - d,
        ) by {
            let j = stack[d] as int;
            if d < old.len() {
                assert(stack[d] == old[d]);
                assert(is_open(items, old[d] as int, m as int, old.len() - 1 - d));
                assert forall|k: int| j < k <= n implies #[trigger] balance(items, j + 1, k) >= 0 by {
                    if k == n {
                        assert(balance(items, j + 1, m as int) == old.len() - 1 - d);
                    }
                }
            } else {
                assert(j == m);
            }
        }
        assert forall|j: int, level: int| #[trigger] is_open(items, j, n as int, level) implies 0
            <= level < stack.len() && stack[stack.len() - 1 - level] == j by {
            if j < m {
                let was = balance(items, j + 1, m as int);
                assert(is_open(items, j, m as int, was));
                assert(balance(items, j + 1, n as int) >= 0);
            }
        }
    }
}

proof fn lemma_clipped(items: Seq<OverlayItem>, n: nat)
    requires
        n <= items.len() <= usize::MAX,
    ensures
        is_clipped_by(items, n as int, innermost(planned(items, n).stack)),
{
    lemma_stack(items, n);
    let stack = planned(items, n).stack;
    if stack.len() > 0 {
        assert(is_open(items, stack[stack.len() - 1] as int, n as int, 0));
    }
}

/// An item is clipped by one clipping at most.
pub proof fn an_item_is_clipped_once(
    items: Seq<OverlayItem>,
    n: nat,
    a: Option<usize>,
    b: Option<usize>,
)
    requires
        n <= items.len() <= usize::MAX,
        is_clipped_by(items, n as int, a),
        is_clipped_by(items, n as int, b),
    ensures
        a == b,
{
    lemma_stack(items, n);
    if a is Some && b is None {
        assert(is_open(items, a.unwrap() as int, n as int, 0));
    }
    if b is Some && a is None {
        assert(is_open(items, b.unwrap() as int, n as int, 0));
    }
}

/// Whether a call draws some vertices, under a clipping.
pub open spec fn draws_within(op: DrawOp, from: int, to: int, by: Option<usize>) -> bool {
    op.start <= from && to <= op.start + op.count && op.scissor == by
}

/// Whether some calls draw a shape under what clips it.
spec fn is_drawn(ops: Seq<DrawOp>, from: int, to: int, by: Option<usize>) -> bool {
    exists|r: int| 0 <= r < ops.len() && draws_within(#[trigger] ops[r], from, to, by)
}

proof fn lemma_flushed(ops: Seq<DrawOp>, start: int, total: int, stack: Seq<usize>)
    requires
        0 <= start <= total <= u32::MAX,
    ensures
        forall|from: int, to: int, by: Option<usize>| #[trigger]
            is_drawn(ops, from, to, by) ==> is_drawn(flushed(ops, start, total, stack), from, to, by),
        forall|from: int, to: int|
            start <= from < to <= total ==> #[trigger] is_drawn(
                flushed(ops, start, total, stack),
                from,
                to,
                innermost(stack),
            ),
{
    let all = flushed(ops, start, total, stack);
    assert forall|from: int, to: int, by: Option<usize>| #[trigger]
        is_drawn(ops, from, to, by) implies is_drawn(all, from, to, by) by {
        let r = choose|r: int| 0 <= r < ops.len() && draws_within(#[trigger] ops[r], from, to, by);
        assert(all[r] == ops[r]);
    }
    assert forall|from: int, to: int| start <= from < to <= total implies #[trigger] is_drawn(
        all,
        from,
        to,
        innermost(stack),
    ) by {
        assert(draws_within(all[ops.len() as int], from, to, innermost(stack)));
    }
}

proof fn lemma_totals(items: Seq<OverlayItem>, m: nat, n: nat)
    requires
        m <= n,
    ensures
        0 <= planned(items, m).total <= planned(items, n).total,
        0 <= planned(items, n).start <= planned(items, n).total,
        0 <= tooltip_vertices(items, n),
    decreases n,
{
    if m < n {
        lemma_totals(items, m, (n - 1) as nat);
    } else if n > 0 {
        lemma_totals(items, (n - 1) as nat, (n - 1) as nat);
    }
}

proof fn lemma_shape(items: Seq<OverlayItem>, i: int, n: nat)
    requires
        0 <= i < n <= items.len() <= usize::MAX,
        items[i] is Shape,
        items[i]->Shape_vertices > 0,
        planned(items, n).total <= u32::MAX,
    ensures
        ({
            let p = planned(items, n);
            let from = planned(items, i as nat).total;
            let to = planned(items, (i + 1) as nat).total;
            let by = innermost(planned(items, i as nat).stack);
            &&& to == from + items[i]->Shape_vertices
            &&& to <= p.total
            &&& is_drawn(p.ops, from, to, by) || (p.start <= from && innermost(p.stack) == by)
        }),
    decreases n,
{
    let from = planned(items, i as nat).total;
    let to = planned(items, (i + 1) as nat).total;
    let by = innermost(planned(items, i as nat).stack);
    if i + 1 == n {
        lemma_totals(items, i as nat, i as nat);
    } else {
        let m = (n - 1) as nat;
        lemma_totals(items, m, n);
        lemma_totals(items, (i + 1) as nat, m);
        lemma_shape(items, i, m);
        let p = planned(items, m);
        lemma_flushed(p.ops, p.start, p.total, p.stack);
        if !is_drawn(p.ops, from, to, by) {
            assert(is_drawn(flushed(p.ops, p.start, p.total, p.stack), from, to, innermost(p.stack)));
        }
    }
}

/// Every shape is drawn under the clipping that it stands in, and under no other:
/// the call that holds its vertices is clipped by the last clipping that was begun
/// before the shape and not ended, or by none where all were ended.
pub proof fn shapes_are_clipped_by_what_they_stand_in(items: Seq<OverlayItem>, i: int)
    requires
        0 <= i < items.len() <= usize::MAX,
        items[i] is Shape,
        items[i]->Shape_vertices > 0,
        all_vertices(items) <= u32::MAX,
    ensures
        exists|r: int, by: Option<usize>|
            0 <= r < all_ops(items).len() && #[trigger] is_clipped_by(items, i, by)
                && draws_within(
                #[trigger] all_ops(items)[r],
                vertices_before(items, i as nat),
                vertices_before(items, i as nat) + items[i]->Shape_vertices,
                by,
            ),
{
    let p = planned(items, items.len());
    let from = planned(items, i as nat).total;
    let to = planned(items, (i + 1) as nat).total;
    let by = innermost(planned(items, i as nat).stack);
    lemma_totals(items, items.len(), items.len());
    lemma_shape(items, i, items.len());
    lemma_flushed(p.ops, p.start, all_vertices(items), p.stack);
    let ops = all_ops(items);
    if !is_drawn(p.ops, from, to, by) {
        assert(is_drawn(ops, from, to, innermost(p.stack)));
    }
    assert(is_drawn(ops, from, to, by));
    let r = choose|r: int| 0 <= r < ops.len() && draws_within(#[trigger] ops[r], from, to, by);
    lemma_clipped(items, i as nat);
    lemma_vertices_before(items, i as nat);
    assert(is_clipped_by(items, i, by) && draws_within(ops[r], from, to, by));
}

/// The vertices of the shapes among the first `n` items.
pub open spec fn vertices_before(items: Seq<OverlayItem>, n: nat) -> int
    decreases n,
{
    if n == 0 {
        0
    } else {
        vertices_before(items, (n - 1) as nat) + match items[n - 1] {
            OverlayItem::Shape { vertices } => vertices as int,
            _ => 0int,
        }
    }
}

proof fn lemma_vertices_before(items: Seq<OverlayItem>, n: nat)
    ensures
        vertices_before(items, n) == planned(items, n).total,
    decreases n,
{
    if n > 0 {
        lemma_vertices_before(items, (n - 1) as nat);
    }
}

/// Whether some places are those of the items of a kind, each once, in their order.
pub open spec fn are_places_of(
    items: Seq<OverlayItem>,
    n: nat,
    places: Seq<usize>,
    tooltips: bool,
) -> bool {
    &&& forall|k: int|
        0 <= k < places.len() ==> (#[trigger] places[k]) < n && (if tooltips {
            items[places[k] as int] is Tooltip
        } else {
            items[places[k] as int] is Shape
        })
    &&& forall|k: int, l: int|
        0 <= k < l < places.len() ==> (#[trigger] places[k]) < (#[trigger] places[l])
    &&& forall|i: int|
        0 <= i < n && (if tooltips {
            (#[trigger] items[i]) is Tooltip
        } else {
            items[i] is Shape
        }) ==> places.contains(i as usize)
}

/// The shapes are written in their order, and all tooltips after them, so that they
/// lie on top. None is missing, and none is written twice.
pub proof fn tooltips_come_last(items: Seq<OverlayItem>, n: nat)
    requires
        n <= items.len() <= usize::MAX,
    ensures
        are_places_of(items, n, planned(items, n).shapes, false),
        are_places_of(items, n, planned(items, n).tooltips, true),
    decreases n,
{
    if n > 0 {
        let m = (n - 1) as nat;
        tooltips_come_last(items, m);
        let (before, after) = (planned(items, m), planned(items, n));
        assert forall|i: int| 0 <= i < n && (#[trigger] items[i]) is Shape implies
            after.shapes.contains(i as usize) by {
            if i < m {
                let k = before.shapes.index_of(i as usize);
                assert(after.shapes[k] == i);
            } else {
                assert(after.shapes[before.shapes.len() as int] == i);
            }
        }
        assert forall|i: int| 0 <= i < n && (#[trigger] items[i]) is Tooltip implies
            after.tooltips.contains(i as usize) by {
            if i < m {
                let k = before.tooltips.index_of(i as usize);
                assert(after.tooltips[k] == i);
            } else {
                assert(after.tooltips[before.tooltips.len() as int] == i);
            }
        }
    }
}

/// Every clipping is cut to the one that it was begun in.
pub proof fn clippings_lie_within_each_other(items: Seq<OverlayItem>, n: nat, k: int)
    requires
        n <= items.len() <= usize::MAX,
        0 <= k < planned(items, n).clips.len(),
    ensures
        ({
            let clip = planned(items, n).clips[k];
            &&& clip.item < n
            &&& items[clip.item as int] is ScissorPush
            &&& is_clipped_by(items, clip.item as int, clip.within)
        }),
    decreases n,
{
    if n > 0 {
        let m = (n - 1) as nat;
        let (before, after) = (planned(items, m).clips, planned(items, n).clips);
        if k < before.len() {
            clippings_lie_within_each_other(items, m, k);
            assert(after[k] == before[k]);
        } else {
            lemma_clipped(items, m);
        }
    }
}

/// Every icon is shown in its own place of the atlas, and nothing is shown in the
/// places that are left over. An icon of the atlas's own size is shown as it is.
pub proof fn icons_are_shown_in_their_places(
    icons: Seq<Favicon>,
    cols: int,
    i: int,
    px: int,
    py: int,
    c: int,
)
    requires
        cols > 0,
        0 <= i,
        0 <= px < 64,
        0 <= py < 64,
        0 <= c < 4,
    ensures
        shown_atlas(icons, cols, i % cols * 64 + px, i / cols * 64 + py, c) == if i < icons.len() {
            shown_icon(icons[i], px, py, c)
        } else {
            0
        },
        i < icons.len() && icons[i].size == 64 && icons[i].rgba@.len() == 64 * 64 * 4
            ==> shown_icon(icons[i], px, py, c) == icons[i].rgba@[4 * (64 * py + px) + c],
{
    let (x, y) = (i % cols * 64 + px, i / cols * 64 + py);
    assert(i == i / cols * cols + i % cols && i / cols >= 0 && 0 <= i % cols) by (nonlinear_arith)
        requires
            cols > 0,
            i >= 0,
    ;
    assert(x / 64 == i % cols && x % 64 == px);
    assert(y / 64 == i / cols && y % 64 == py);
}

proof fn lemma_coverage(pixels: Seq<u8>, glyph: RasterGlyph, corner: (int, int), n: nat, k: int)
    requires
        n <= glyph.width * glyph.height,
        corner.0 >= 0,
        corner.1 >= 0,
        corner.0 + glyph.width <= 512,
        0 <= k < pixels.len(),
    ensures
        ({
            let after = with_glyph(pixels, glyph, corner, n);
            let (x, y) = (k / 4 % 512, k / 4 / 512);
            let (dx, dy) = (x - corner.0, y - corner.1);
            &&& after.len() == pixels.len()
            &&& after[k] == if 0 <= dx < glyph.width && 0 <= dy && dy * glyph.width + dx < n {
                if k % 4 == 3 {
                    glyph.coverage@[dy * glyph.width + dx]
                } else {
                    255
                }
            } else {
                pixels[k]
            }
        }),
    decreases n,
{
    if n > 0 {
        let m = n - 1;
        lemma_coverage(pixels, glyph, corner, m as nat, k);
        let w = glyph.width as int;
        let (x, y) = (k / 4 % 512, k / 4 / 512);
        let (dx, dy) = (x - corner.0, y - corner.1);
        assert(w > 0) by (nonlinear_arith)
            requires
                0 < n <= w * glyph.height,
                w == glyph.width,
        ;
        assert(0 <= m % w < w && m == m / w * w + m % w && m / w >= 0) by (nonlinear_arith)
            requires
                w > 0,
                m >= 0,
        ;
        let at = byte_at(512, corner.0 + m % w, corner.1 + m / w, 0);
        assert(at == 4 * ((corner.1 + m / w) * 512 + corner.0 + m % w));
        let hit = at <= k < at + 4;
        assert(hit <==> x == corner.0 + m % w && y == corner.1 + m / w);
        if hit {
            assert(dy * w + dx == m);
        } else if 0 <= dx < w && 0 <= dy && dy * w + dx == m {
            assert(m / w == dy && m % w == dx) by (nonlinear_arith)
                requires
                    m == dy * w + dx,
                    0 <= dx < w,
                    m == m / w * w + m % w,
                    0 <= m % w < w,
            ;
        }
    }
}

/// The pixels of a glyph in the atlas are its own: at each of its pixels the atlas
/// is white with the glyph's coverage, and no glyph that is drawn later reaches
/// into it.
pub proof fn glyphs_keep_their_pixels(
    glyphs: Seq<RasterGlyph>,
    n: nat,
    i: nat,
    dx: int,
    dy: int,
)
    requires
        i < n <= glyphs.len(),
        forall|k: nat| k < n ==> #[trigger] glyph_corner(glyphs, k) is Some,
        forall|k: int| 0 <= k < n ==> (#[trigger] glyphs[k]).width <= 511,
        0 <= dx < glyphs[i as int].width,
        0 <= dy < glyphs[i as int].height,
    ensures
        ({
            let corner = glyph_corner(glyphs, i).unwrap();
            let at = 4 * (512 * (corner.1 + dy) + corner.0 + dx);
            let pixels = glyphs_drawn(glyphs, n);
            &&& pixels[at] == 255 && pixels[at + 1] == 255 && pixels[at + 2] == 255
            &&& pixels[at + 3] == glyphs[i as int].coverage@[dy * glyphs[i as int].width + dx]
        }),
    decreases n,
{
    let start = Cursor::start(512, 1);
    let sizes = glyph_sizes(glyphs);
    let glyph = glyphs[i as int];
    let corner = glyph_corner(glyphs, i).unwrap();
    assert(glyph_corner(glyphs, i) is Some);
    placed_rectangles_lie_inside(start, sizes, i);
    let at = 4 * (512 * (corner.1 + dy) + corner.0 + dx);
    let m = (n - 1) as nat;
    let last = glyphs[m as int];
    assert(glyph_corner(glyphs, m) is Some);
    placed_rectangles_lie_inside(start, sizes, m);
    let there = glyph_corner(glyphs, m).unwrap();
    let before = glyphs_drawn(glyphs, m);
    lemma_drawn_len(glyphs, m);
    let total = (last.width * last.height) as nat;
    assert(0 <= last.width * last.height) by (nonlinear_arith)
        requires
            last.width >= 0,
            last.height >= 0,
    ;
    assert(0 <= at && at + 3 < 0x10_0000);
    lemma_coverage(before, last, there, total, at);
    lemma_coverage(before, last, there, total, at + 1);
    lemma_coverage(before, last, there, total, at + 2);
    lemma_coverage(before, last, there, total, at + 3);
    if m == i {
        assert(dy * glyph.width + dx < glyph.width * glyph.height) by (nonlinear_arith)
            requires
                0 <= dx < glyph.width,
                0 <= dy < glyph.height,
        ;
    } else {
        placed_rectangles_are_disjoint(start, sizes, i, m);
        glyphs_keep_their_pixels(glyphs, m, i, dx, dy);
        let (ex, ey) = (corner.0 + dx - there.0, corner.1 + dy - there.1);
        if 0 <= ex < last.width && 0 <= ey {
            assert(ey >= last.height);
            assert(ey * last.width + ex >= total) by (nonlinear_arith)
                requires
                    ey >= last.height,
                    ex >= 0,
                    last.width >= 0,
                    total == last.width * last.height,
            ;
        }
    }
}

proof fn lemma_drawn_len(glyphs: Seq<RasterGlyph>, n: nat)
    ensures
        glyphs_drawn(glyphs, n).len() == 0x10_0000,
    decreases n,
{
    if n > 0 {
        lemma_drawn_len(glyphs, (n - 1) as nat);
        lemma_glyph_len(
            glyphs_drawn(glyphs, (n - 1) as nat),
            glyphs[n - 1],
            glyph_corner(glyphs, (n - 1) as nat).unwrap(),
            (glyphs[n - 1].width * glyphs[n - 1].height) as nat,
        );
    }
}

proof fn lemma_glyph_len(pixels: Seq<u8>, glyph: RasterGlyph, corner: (int, int), n: nat)
    ensures
        with_glyph(pixels, glyph, corner, n).len() == pixels.len(),
    decreases n,
{
    if n > 0 {
        lemma_glyph_len(pixels, glyph, corner, (n - 1) as nat);
    }
}

} // verus!
