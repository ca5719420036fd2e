//! What holds of the lines round a chunk, and of the cracks on a block.

use crate::block_overlay::{
    atlas_of, crack_uv, equal_stages_fill_the_atlas, face_vertices, nearest_side, normal,
    on_crack_plane, picture, quads_vertices, side_of, Direction, Point, Quad,
};
use crate::chunk_borders::{
    chunk_lines, corner_lines, levels, section_lines, side_lines, BorderColor, BorderLine, GridPoint,
};
use vstd::prelude::*;

verus! {

/// Whether a line stands upright over a corner of the grid, from the bottom of the
/// world to its top.
pub open spec fn stands(
    lines: Seq<BorderLine>,
    x: int,
    z: int,
    min_y: i32,
    max_y: i32,
    color: BorderColor,
) -> bool {
    exists|k: int|
        0 <= k < lines.len() && (#[trigger] lines[k]).from == (GridPoint {
            x: x as i32,
            y: min_y,
            z: z as i32,
        }) && lines[k].to == (GridPoint { x: x as i32, y: max_y, z: z as i32 }) && lines[k].color
            == color
}

/// Whether a yellow line lies level between two corners.
pub open spec fn lies(lines: Seq<BorderLine>, x0: int, z0: int, x1: int, z1: int, y: int) -> bool {
    exists|k: int|
        0 <= k < lines.len() && (#[trigger] lines[k]).from == (GridPoint {
            x: x0 as i32,
            y: y as i32,
            z: z0 as i32,
        }) && lines[k].to == (GridPoint { x: x1 as i32, y: y as i32, z: z1 as i32 })
            && lines[k].color == BorderColor::Yellow
}

proof fn lemma_sides(cx: int, cz: int, min_y: i32, max_y: i32, n: nat, k: nat)
    requires
        1 <= k <= n,
    ensures
        ({
            let lines = side_lines(cx, cz, min_y, max_y, n);
            &&& lines.len() == 4 * n
            &&& stands(lines, cx + k, cz, min_y, max_y, BorderColor::Blue)
            &&& stands(lines, cx + k, cz + 16, min_y, max_y, BorderColor::Blue)
            &&& stands(lines, cx, cz + k, min_y, max_y, BorderColor::Blue)
            &&& stands(lines, cx + 16, cz + k, min_y, max_y, BorderColor::Blue)
        }),
    decreases n,
{
    let m = (n - 1) as nat;
    let (before, lines) = (
        side_lines(cx, cz, min_y, max_y, m),
        side_lines(cx, cz, min_y, max_y, n),
    );
    lemma_side_count(cx, cz, min_y, max_y, m);
    if k < n {
        lemma_sides(cx, cz, min_y, max_y, m, k);
        assert forall|i: int| 0 <= i < before.len() implies #[trigger] lines[i] == before[i] by {}
        lemma_keeps_standing(before, lines, cx + k, cz, min_y, max_y, BorderColor::Blue);
        lemma_keeps_standing(before, lines, cx + k, cz + 16, min_y, max_y, BorderColor::Blue);
        lemma_keeps_standing(before, lines, cx, cz + k, min_y, max_y, BorderColor::Blue);
        lemma_keeps_standing(before, lines, cx + 16, cz + k, min_y, max_y, BorderColor::Blue);
    } else {
        let b = before.len() as int;
        assert(lines[b].color == BorderColor::Blue && lines[b + 1].color == BorderColor::Blue
            && lines[b + 2].color == BorderColor::Blue && lines[b + 3].color == BorderColor::Blue);
    }
}

proof fn lemma_side_count(cx: int, cz: int, min_y: i32, max_y: i32, n: nat)
    ensures
        side_lines(cx, cz, min_y, max_y, n).len() == 4 * n,
    decreases n,
{
    if n > 0 {
        lemma_side_count(cx, cz, min_y, max_y, (n - 1) as nat);
    }
}

proof fn lemma_keeps_standing(
    before: Seq<BorderLine>,
    lines: Seq<BorderLine>,
    x: int,
    z: int,
    min_y: i32,
    max_y: i32,
    color: BorderColor,
)
    requires
        before.len() <= lines.len(),
        forall|i: int| 0 <= i < before.len() ==> lines[i] == #[trigger] before[i],
        stands(before, x, z, min_y, max_y, color),
    ensures
        stands(lines, x, z, min_y, max_y, color),
{
    let k = choose|k: int|
        0 <= k < before.len() && (#[trigger] before[k]).from == (GridPoint {
            x: x as i32,
            y: min_y,
            z: z as i32,
        }) && before[k].to == (GridPoint { x: x as i32, y: max_y, z: z as i32 }) && before[k].color
            == color;
    assert(lines[k] == before[k]);
}

proof fn lemma_sections(cx: int, cz: int, min_y: i32, n: nat, k: nat)
    requires
        k < n,
    ensures
        ({
            let lines = section_lines(cx, cz, min_y, n);
            let y = min_y + 16 * k;
            &&& lies(lines, cx, cz, cx + 16, cz, y)
            &&& lies(lines, cx, cz + 16, cx + 16, cz + 16, y)
            &&& lies(lines, cx, cz, cx, cz + 16, y)
            &&& lies(lines, cx + 16, cz, cx + 16, cz + 16, y)
        }),
    decreases n,
{
    let m = (n - 1) as nat;
    let (before, lines) = (section_lines(cx, cz, min_y, m), section_lines(cx, cz, min_y, n));
    let y = min_y + 16 * k;
    if k < m {
        lemma_sections(cx, cz, min_y, m, k);
        lemma_keeps_lying(before, lines, cx, cz, cx + 16, cz, y);
        lemma_keeps_lying(before, lines, cx, cz + 16, cx + 16, cz + 16, y);
        lemma_keeps_lying(before, lines, cx, cz, cx, cz + 16, y);
        lemma_keeps_lying(before, lines, cx + 16, cz, cx + 16, cz + 16, y);
    } else {
        let b = before.len() as int;
        assert(lines[b].color == BorderColor::Yellow && lines[b + 1].color == BorderColor::Yellow
            && lines[b + 2].color == BorderColor::Yellow && lines[b + 3].color
            == BorderColor::Yellow);
    }
}

proof fn lemma_section_count(cx: int, cz: int, min_y: i32, n: nat)
    ensures
        section_lines(cx, cz, min_y, n).len() == 4 * n,
    decreases n,
{
    if n > 0 {
        lemma_section_count(cx, cz, min_y, (n - 1) as nat);
    }
}

proof fn lemma_keeps_lying(
    before: Seq<BorderLine>,
    lines: Seq<BorderLine>,
    x0: int,
    z0: int,
    x1: int,
    z1: int,
    y: int,
)
    requires
        before.len() <= lines.len(),
        forall|i: int| 0 <= i < before.len() ==> lines[i] == #[trigger] before[i],
        lies(before, x0, z0, x1, z1, y),
    ensures
        lies(lines, x0, z0, x1, z1, y),
{
    let k = choose|k: int|
        0 <= k < before.len() && (#[trigger] before[k]).from == (GridPoint {
            x: x0 as i32,
            y: y as i32,
            z: z0 as i32,
        }) && before[k].to == (GridPoint { x: x1 as i32, y: y as i32, z: z1 as i32 })
            && before[k].color == BorderColor::Yellow;
    assert(lines[k] == before[k]);
}

/// A chunk has a red line over each of its four corners, a blue one over every
/// block between them on all four sides, and round it a yellow one at every sixteen
/// blocks of height, from the bottom of the world to its top. There are no other
/// lines.
pub proof fn borders_run_round_the_chunk(
    cx: int,
    cz: int,
    min_y: i32,
    max_y: i32,
    k: nat,
    l: nat,
)
    requires
        min_y <= max_y,
        1 <= k <= 15,
        min_y + 16 * l <= max_y,
    ensures
        ({
            let lines = chunk_lines(cx, cz, min_y, max_y);
            let y = min_y + 16 * l;
            &&& stands(lines, cx, cz, min_y, max_y, BorderColor::Red)
            &&& stands(lines, cx, cz + 16, min_y, max_y, BorderColor::Red)
            &&& stands(lines, cx + 16, cz, min_y, max_y, BorderColor::Red)
            &&& stands(lines, cx + 16, cz + 16, min_y, max_y, BorderColor::Red)
            &&& stands(lines, cx + k, cz, min_y, max_y, BorderColor::Blue)
            &&& stands(lines, cx + k, cz + 16, min_y, max_y, BorderColor::Blue)
            &&& stands(lines, cx, cz + k, min_y, max_y, BorderColor::Blue)
            &&& stands(lines, cx + 16, cz + k, min_y, max_y, BorderColor::Blue)
            &&& lies(lines, cx, cz, cx + 16, cz, y)
            &&& lies(lines, cx, cz + 16, cx + 16, cz + 16, y)
            &&& lies(lines, cx, cz, cx, cz + 16, y)
            &&& lies(lines, cx + 16, cz, cx + 16, cz + 16, y)
            &&& lines.len() == 64 + 4 * ((max_y - min_y) / 16 + 1)
        }),
{
    let n = levels(min_y, max_y) as nat;
    let a = corner_lines(cx, cz, min_y, max_y);
    let b = side_lines(cx, cz, min_y, max_y, 15);
    let c = section_lines(cx, cz, min_y, n);
    let lines = chunk_lines(cx, cz, min_y, max_y);
    lemma_sides(cx, cz, min_y, max_y, 15, k);
    lemma_sections(cx, cz, min_y, n, l);
    lemma_section_count(cx, cz, min_y, n);
    assert(lines == a + b + c);
    assert(lines[0] == a[0] && lines[1] == a[1] && lines[2] == a[2] && lines[3] == a[3]);
    lemma_blue_stands(a, b, c, cx + k, cz, min_y, max_y);
    lemma_blue_stands(a, b, c, cx + k, cz + 16, min_y, max_y);
    lemma_blue_stands(a, b, c, cx, cz + k, min_y, max_y);
    lemma_blue_stands(a, b, c, cx + 16, cz + k, min_y, max_y);
    let y = min_y + 16 * l;
    lemma_yellow_lies(a + b, c, cx, cz, cx + 16, cz, y);
    lemma_yellow_lies(a + b, c, cx, cz + 16, cx + 16, cz + 16, y);
    lemma_yellow_lies(a + b, c, cx, cz, cx, cz + 16, y);
    lemma_yellow_lies(a + b, c, cx + 16, cz, cx + 16, cz + 16, y);
}

proof fn lemma_blue_stands(
    a: Seq<BorderLine>,
    b: Seq<BorderLine>,
    c: Seq<BorderLine>,
    x: int,
    z: int,
    min_y: i32,
    max_y: i32,
)
    requires
        stands(b, x, z, min_y, max_y, BorderColor::Blue),
    ensures
        stands(a + b + c, x, z, min_y, max_y, BorderColor::Blue),
{
    let k = choose|k: int|
        0 <= k < b.len() && (#[trigger] b[k]).from == (GridPoint {
            x: x as i32,
            y: min_y,
            z: z as i32,
        }) && b[k].to == (GridPoint { x: x as i32, y: max_y, z: z as i32 }) && b[k].color
            == BorderColor::Blue;
    assert((a + b + c)[a.len() + k] == b[k]);
}

proof fn lemma_yellow_lies(
    a: Seq<BorderLine>,
    b: Seq<BorderLine>,
    x0: int,
    z0: int,
    x1: int,
    z1: int,
    y: int,
)
    requires
        lies(b, x0, z0, x1, z1, y),
    ensures
        lies(a + b, x0, z0, x1, z1, y),
{
    let k = choose|k: int|
        0 <= k < b.len() && (#[trigger] b[k]).from == (GridPoint {
            x: x0 as i32,
            y: y as i32,
            z: z0 as i32,
        }) && b[k].to == (GridPoint { x: x1 as i32, y: y as i32, z: z1 as i32 }) && b[k].color
            == BorderColor::Yellow;
    assert((a + b)[a.len() + k] == b[k]);
}

/// On the four walls of a block the cracks run downwards, and across along the wall.
/// On the top and the bottom they run to the east; their down is the south on top
/// and the north below.
pub proof fn cracks_lie_on_their_side(p: (int, int, int))
    ensures
        on_crack_plane(p, Direction::Up) == (p.0, p.2),
        on_crack_plane(p, Direction::Down) == (p.0, -p.2),
        on_crack_plane(p, Direction::South) == (p.0, -p.1),
        on_crack_plane(p, Direction::North) == (-p.0, -p.1),
        on_crack_plane(p, Direction::West) == (-p.2, -p.1),
        on_crack_plane(p, Direction::East) == (p.2, -p.1),
{
}

/// The cracks of a face begin at its least corner: no coordinate is below 0, and in
/// each direction one of the four corners is at 0.
pub proof fn cracks_begin_at_the_least_corner(positions: Seq<Point>, dir: Direction, i: int)
    requires
        0 <= i < 4,
    ensures
        crack_uv(positions, dir, i).0 >= 0,
        crack_uv(positions, dir, i).1 >= 0,
        exists|k: int| 0 <= k < 4 && (#[trigger] crack_uv(positions, dir, k)).0 == 0,
        exists|k: int| 0 <= k < 4 && (#[trigger] crack_uv(positions, dir, k)).1 == 0,
{
    let a = crack_uv(positions, dir, 0);
    let b = crack_uv(positions, dir, 1);
    let c = crack_uv(positions, dir, 2);
    let d = crack_uv(positions, dir, 3);
    assert(a.0 == 0 || b.0 == 0 || c.0 == 0 || d.0 == 0);
    assert(a.1 == 0 || b.1 == 0 || c.1 == 0 || d.1 == 0);
}

/// Which corner of a face each of its six vertices is.
pub open spec fn corner_of(j: int) -> int {
    if j == 0 || j == 3 {
        0
    } else if j == 1 {
        1
    } else if j == 5 {
        3
    } else {
        2
    }
}

/// Every face of a block is covered with two triangles over its own corners, all of
/// the stage that is asked for, faces in their order.
pub proof fn cracks_cover_every_face(quads: Seq<Quad>, stage: u32, n: nat, k: int, j: int)
    requires
        0 <= k < n <= quads.len(),
        0 <= j < 6,
    ensures
        ({
            let all = quads_vertices(quads, stage, n);
            &&& all.len() == 6 * n
            &&& all[6 * k + j].position == quads[k].positions@[corner_of(j)]
            &&& all[6 * k + j].stage == stage
            &&& all[6 * k + j] == face_vertices(quads[k].positions@, side_of(quads[k]), stage)[j]
        }),
    decreases n,
{
    let m = (n - 1) as nat;
    lemma_vertex_count(quads, stage, m);
    let before = quads_vertices(quads, stage, m);
    let all = quads_vertices(quads, stage, n);
    if k < m {
        cracks_cover_every_face(quads, stage, m, k, j);
        assert(all[6 * k + j] == before[6 * k + j]);
    } else {
        assert(all[6 * k + j] == face_vertices(quads[k].positions@, side_of(quads[k]), stage)[j]);
    }
}

proof fn lemma_vertex_count(quads: Seq<Quad>, stage: u32, n: nat)
    ensures
        quads_vertices(quads, stage, n).len() == 6 * n,
    decreases n,
{
    if n > 0 {
        lemma_vertex_count(quads, stage, (n - 1) as nat);
    }
}

/// A face that looks along an axis has the side of that axis; a face that says which
/// side it lies on has that.
pub proof fn faces_have_the_side_they_look_to(quad: Quad, n: (int, int, int))
    requires
        normal(quad.positions@) == n,
    ensures
        quad.cullface matches Some(dir) ==> side_of(quad) == dir,
        quad.cullface is None && n.0 > 0 && n.1 == 0 && n.2 == 0 ==> side_of(quad)
            == Direction::East,
        quad.cullface is None && n.0 < 0 && n.1 == 0 && n.2 == 0 ==> side_of(quad)
            == Direction::West,
        quad.cullface is None && n.0 == 0 && n.1 > 0 && n.2 == 0 ==> side_of(quad) == Direction::Up,
        quad.cullface is None && n.0 == 0 && n.1 < 0 && n.2 == 0 ==> side_of(quad)
            == Direction::Down,
        quad.cullface is None && n.0 == 0 && n.1 == 0 && n.2 > 0 ==> side_of(quad)
            == Direction::South,
        quad.cullface is None && n.0 == 0 && n.1 == 0 && n.2 < 0 ==> side_of(quad)
            == Direction::North,
{
}

/// The side of a direction is the one nearest to it: no axis is longer.
pub proof fn the_nearest_side_is_along_the_longest_axis(n: (int, int, int))
    ensures
        ({
            let length = |m: int| if m < 0 {
                -m
            } else {
                m
            };
            let along = match nearest_side(n) {
                Direction::East => n.0,
                Direction::West => -n.0,
                Direction::Up => n.1,
                Direction::Down => -n.1,
                Direction::South => n.2,
                Direction::North => -n.2,
            };
            along >= length(n.0) && along >= length(n.1) && along >= length(n.2)
        }),
{
}

/// The stages of breaking lie one below the other, each at its own place, where all
/// pictures have the same size.
pub proof fn stages_lie_below_each_other(
    files: Seq<Option<Vec<u8>>>,
    side: int,
    n: nat,
    k: int,
    i: int,
)
    requires
        0 <= k < n <= files.len(),
        side > 0,
        forall|j: int|
            0 <= j < n ==> (match picture(#[trigger] files[j]) {
                Some((width, height, rgba)) => width == side && height == side && rgba.len()
                    == side * side * 4,
                None => side == 16,
            }),
        0 <= i < side * side * 4,
    ensures
        ({
            let pixels = atlas_of(files, n).pixels;
            &&& pixels.len() == n * (side * side * 4)
            &&& pixels[k * (side * side * 4) + i] == match picture(files[k]) {
                Some((_, _, rgba)) => rgba[i],
                None => 0,
            }
        }),
    decreases n,
{
    let m = (n - 1) as nat;
    let tile = side * side * 4;
    equal_stages_fill_the_atlas(files, side, m);
    equal_stages_fill_the_atlas(files, side, n);
    let (before, after) = (atlas_of(files, m), atlas_of(files, n));
    assert(n * tile == m * tile + tile) by (nonlinear_arith)
        requires
            n == m + 1,
    ;
    if k < m {
        stages_lie_below_each_other(files, side, m, k, i);
        assert(0 <= k * tile && k * tile + i < m * tile) by (nonlinear_arith)
            requires
                0 <= k,
                k + 1 <= m,
                0 <= i < tile,
        ;
        assert(after.pixels[k * tile + i] == before.pixels[k * tile + i]);
    } else {
        assert(k == m);
        if picture(files[k]) is None {
            if m == 0 {
                assert(before.tile_size == 16);
            }
            assert(before.tile_size == side);
        }
    }
}

} // verus!
