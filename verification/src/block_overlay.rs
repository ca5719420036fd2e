//! The cracks over a block that is being broken.
//!
//! Positions are whole numbers of some small unit, the same for all.

use crate::decode::{decode_image, decoded_image};
use crate::strings::{decimal, decimal_text};
use vstd::prelude::*;

verus! {

/// How many stages of cracks there are.
pub const STAGE_COUNT: u32 = 10;

/// How many vertices there is room for.
pub const MAX_OVERLAY_VERTS: usize = 1536;

/// The side of a block.
#[derive(Clone, Copy, Debug, PartialEq, Eq, Structural)]
pub enum Direction {
    Down,
    Up,
    North,
    South,
    West,
    East,
}

/// A position.
#[derive(Clone, Copy, Debug, PartialEq, Eq, Structural)]
pub struct Point {
    pub x: i32,
    pub y: i32,
    pub z: i32,
}

/// A quarter turn round the x axis.
pub open spec fn quarter_x(p: (int, int, int)) -> (int, int, int) {
    (p.0, -p.2, p.1)
}

/// A quarter turn round the y axis.
pub open spec fn quarter_y(p: (int, int, int)) -> (int, int, int) {
    (p.2, p.1, -p.0)
}

/// A quarter turn round the z axis.
pub open spec fn quarter_z(p: (int, int, int)) -> (int, int, int) {
    (-p.1, p.0, p.2)
}

/// The turn of a side, from the top.
pub open spec fn face_rotation(dir: Direction, p: (int, int, int)) -> (int, int, int) {
    match dir {
        Direction::Down => quarter_x(quarter_x(p)),
        Direction::Up => p,
        Direction::North => quarter_x(quarter_z(quarter_z(p))),
        Direction::South => quarter_x(p),
        Direction::West => quarter_x(quarter_z(p)),
        Direction::East => quarter_x(quarter_z(quarter_z(quarter_z(p)))),
    }
}

/// The place of a point on the plane of cracks: half a turn round the y axis, a
/// quarter back round the x axis, the turn of the side, and the first two
/// coordinates negated.
pub open spec fn on_crack_plane(p: (int, int, int), dir: Direction) -> (int, int) {
    let turned = face_rotation(dir, quarter_x(quarter_x(quarter_x(quarter_y(quarter_y(p))))));
    (-turned.0, -turned.1)
}

/// A point as numbers.
pub open spec fn numbers(p: Point) -> (int, int, int) {
    (p.x as int, p.y as int, p.z as int)
}

/// The place of a point on the plane of cracks of a side.
pub fn project_crack_uv(p: Point, dir: Direction) -> (uv: (i64, i64))
    ensures
        uv.0 == on_crack_plane(numbers(p), dir).0,
        uv.1 == on_crack_plane(numbers(p), dir).1,
        -0x8000_0000 <= uv.0 <= 0x8000_0000,
        -0x8000_0000 <= uv.1 <= 0x8000_0000,
{
    let (x, y, z): (i64, i64, i64) = (p.x as i64, p.y as i64, p.z as i64);
    match dir {
        Direction::Down => (x, -z),
        Direction::Up => (x, z),
        Direction::North => (-x, -y),
        Direction::South => (x, -y),
        Direction::West => (-z, -y),
        Direction::East => (z, -y),
    }
}

/// The four corners of a face.
pub struct Quad {
    pub positions: [Point; 4],
    /// The side that hides the face, where there is one.
    pub cullface: Option<Direction>,
}

/// The smallest of four numbers.
pub open spec fn least(a: int, b: int, c: int, d: int) -> int {
    let ab = if a < b {
        a
    } else {
        b
    };
    let cd = if c < d {
        c
    } else {
        d
    };
    if ab < cd {
        ab
    } else {
        cd
    }
}

fn min_of(a: i64, b: i64, c: i64, d: i64) -> (min: i64)
    ensures
        min == least(a as int, b as int, c as int, d as int),
{
    let ab: i64 = if a < b { a } else { b };
    let cd: i64 = if c < d { c } else { d };
    if ab < cd {
        ab
    } else {
        cd
    }
}

/// A vertex of the cracks: its position, and its place in the atlas, counted from
/// the upper left corner of the row of its stage.
#[derive(Clone, Copy, Debug, PartialEq, Eq, Structural)]
pub struct OverlayVertex {
    pub position: Point,
    pub u: i64,
    pub v: i64,
    /// The row of the atlas.
    pub stage: u32,
}

/// The place of the `i`th corner of a face in the cracks: from the smallest
/// coordinates of the face.
pub open spec fn crack_uv(positions: Seq<Point>, dir: Direction, i: int) -> (int, int) {
    let a = on_crack_plane(numbers(positions[0]), dir);
    let b = on_crack_plane(numbers(positions[1]), dir);
    let c = on_crack_plane(numbers(positions[2]), dir);
    let d = on_crack_plane(numbers(positions[3]), dir);
    let at = on_crack_plane(numbers(positions[i]), dir);
    (at.0 - least(a.0, b.0, c.0, d.0), at.1 - least(a.1, b.1, c.1, d.1))
}

/// The vertex of a corner.
pub open spec fn corner(positions: Seq<Point>, dir: Direction, stage: u32, i: int) -> OverlayVertex {
    OverlayVertex {
        position: positions[i],
        u: crack_uv(positions, dir, i).0 as i64,
        v: crack_uv(positions, dir, i).1 as i64,
        stage,
    }
}

/// The two triangles of a face.
pub open spec fn face_vertices(positions: Seq<Point>, dir: Direction, stage: u32) -> Seq<
    OverlayVertex,
> {
    seq![
        corner(positions, dir, stage, 0),
        corner(positions, dir, stage, 1),
        corner(positions, dir, stage, 2),
        corner(positions, dir, stage, 0),
        corner(positions, dir, stage, 2),
        corner(positions, dir, stage, 3),
    ]
}

/// Adds the two triangles of a face.
pub fn push_face(
    verts: &mut Vec<OverlayVertex>,
    positions: &[Point; 4],
    dir: Direction,
    stage: u32,
)
    ensures
        final(verts)@ == old(verts)@ + face_vertices(positions@, dir, stage),
{
    let ghost before = verts@;
    let a: (i64, i64) = project_crack_uv(positions[0], dir);
    let b: (i64, i64) = project_crack_uv(positions[1], dir);
    let c: (i64, i64) = project_crack_uv(positions[2], dir);
    let d: (i64, i64) = project_crack_uv(positions[3], dir);
    let min_u: i64 = min_of(a.0, b.0, c.0, d.0);
    let min_v: i64 = min_of(a.1, b.1, c.1, d.1);
    let first = OverlayVertex {
        position: positions[0],
        u: a.0 - min_u,
        v: a.1 - min_v,
        stage,
    };
    let second = OverlayVertex {
        position: positions[1],
        u: b.0 - min_u,
        v: b.1 - min_v,
        stage,
    };
    let third = OverlayVertex {
        position: positions[2],
        u: c.0 - min_u,
        v: c.1 - min_v,
        stage,
    };
    let fourth = OverlayVertex {
        position: positions[3],
        u: d.0 - min_u,
        v: d.1 - min_v,
        stage,
    };
    verts.push(first);
    verts.push(second);
    verts.push(third);
    verts.push(first);
    verts.push(third);
    verts.push(fourth);
    assert(verts@ =~= before + face_vertices(positions@, dir, stage));
}

/// The same face elsewhere has the same cracks.
pub proof fn cracks_move_with_the_block(
    a: Seq<Point>,
    b: Seq<Point>,
    by: (int, int, int),
    dir: Direction,
    i: int,
)
    requires
        a.len() == 4,
        b.len() == 4,
        0 <= i < 4,
        forall|k: int|
            0 <= k < 4 ==> numbers(#[trigger] b[k]) == (a[k].x + by.0, a[k].y + by.1, a[k].z + by.2),
    ensures
        crack_uv(a, dir, i) == crack_uv(b, dir, i),
{
    moved_on_crack_plane(a[0], b[0], by, dir);
    moved_on_crack_plane(a[1], b[1], by, dir);
    moved_on_crack_plane(a[2], b[2], by, dir);
    moved_on_crack_plane(a[3], b[3], by, dir);
}

proof fn moved_on_crack_plane(a: Point, b: Point, by: (int, int, int), dir: Direction)
    requires
        numbers(b) == (a.x + by.0, a.y + by.1, a.z + by.2),
    ensures
        on_crack_plane(numbers(b), dir).0 == on_crack_plane(numbers(a), dir).0 + on_crack_plane(
            by,
            dir,
        ).0,
        on_crack_plane(numbers(b), dir).1 == on_crack_plane(numbers(a), dir).1 + on_crack_plane(
            by,
            dir,
        ).1,
{
}

/// Whether a point lies on a side of the cube from 0 to `unit`.
pub open spec fn on_side(p: (int, int, int), dir: Direction, unit: int) -> bool {
    match dir {
        Direction::Down => p.1 == 0,
        Direction::Up => p.1 == unit,
        Direction::North => p.2 == 0,
        Direction::South => p.2 == unit,
        Direction::West => p.0 == 0,
        Direction::East => p.0 == unit,
    }
}

/// A side of a cube fills exactly one tile of cracks: points on it are as far
/// apart in the cracks as they are on the side.
pub proof fn sides_fill_a_tile(
    p: (int, int, int),
    q: (int, int, int),
    dir: Direction,
    unit: int,
)
    requires
        on_side(p, dir, unit),
        on_side(q, dir, unit),
    ensures
        ({
            let (a, b) = (on_crack_plane(p, dir), on_crack_plane(q, dir));
            let apart = |m: int, n: int| if m < n {
                n - m
            } else {
                m - n
            };
            apart(a.0, b.0) + apart(a.1, b.1) == apart(p.0, q.0) + apart(p.1, q.1) + apart(
                p.2,
                q.2,
            ) && (a == b ==> p == q)
        }),
{
}

/// The product of two edges of a face, which stands upright on it.
pub open spec fn normal(positions: Seq<Point>) -> (int, int, int) {
    let (p, q, r) = (numbers(positions[0]), numbers(positions[1]), numbers(positions[2]));
    let (a, b) = ((q.0 - p.0, q.1 - p.1, q.2 - p.2), (r.0 - p.0, r.1 - p.1, r.2 - p.2));
    (a.1 * b.2 - a.2 * b.1, a.2 * b.0 - a.0 * b.2, a.0 * b.1 - a.1 * b.0)
}

/// The distance of a number from 0.
pub open spec fn size_of_number(n: int) -> int {
    if n < 0 {
        -n
    } else {
        n
    }
}

/// The side that a direction points to most; where two are equal, the x axis goes
/// before the y axis, and that before the z axis.
pub open spec fn nearest_side(n: (int, int, int)) -> Direction {
    let (ax, ay, az) = (size_of_number(n.0), size_of_number(n.1), size_of_number(n.2));
    if ax >= ay && ax >= az {
        if n.0 >= 0 {
            Direction::East
        } else {
            Direction::West
        }
    } else if ay >= az {
        if n.1 >= 0 {
            Direction::Up
        } else {
            Direction::Down
        }
    } else if n.2 >= 0 {
        Direction::South
    } else {
        Direction::North
    }
}

fn crossed(a: i64, b: i64, c: i64, d: i64) -> (value: i128)
    requires
        -0x1_0000_0000 <= a <= 0x1_0000_0000,
        -0x1_0000_0000 <= b <= 0x1_0000_0000,
        -0x1_0000_0000 <= c <= 0x1_0000_0000,
        -0x1_0000_0000 <= d <= 0x1_0000_0000,
    ensures
        value == a * b - c * d,
        -0x2_0000_0000_0000_0000 <= value <= 0x2_0000_0000_0000_0000,
{
    assert(-0x1_0000_0000_0000_0000 <= a * b <= 0x1_0000_0000_0000_0000) by (nonlinear_arith)
        requires
            -0x1_0000_0000 <= a <= 0x1_0000_0000,
            -0x1_0000_0000 <= b <= 0x1_0000_0000,
    ;
    assert(-0x1_0000_0000_0000_0000 <= c * d <= 0x1_0000_0000_0000_0000) by (nonlinear_arith)
        requires
            -0x1_0000_0000 <= c <= 0x1_0000_0000,
            -0x1_0000_0000 <= d <= 0x1_0000_0000,
    ;
    let (p, q): (i128, i128) = (a as i128, b as i128);
    let (r, s): (i128, i128) = (c as i128, d as i128);
    p * q - r * s
}

fn magnitude(n: i128) -> (m: i128)
    requires
        -0x2_0000_0000_0000_0000 <= n <= 0x2_0000_0000_0000_0000,
    ensures
        m == size_of_number(n as int),
{
    if n < 0 {
        -n
    } else {
        n
    }
}

/// The side that a face looks to most.
pub fn nearest_direction(positions: &[Point; 4]) -> (dir: Direction)
    ensures
        dir == nearest_side(normal(positions@)),
{
    let (p, q, r): (Point, Point, Point) = (positions[0], positions[1], positions[2]);
    let ax: i64 = q.x as i64 - p.x as i64;
    let ay: i64 = q.y as i64 - p.y as i64;
    let az: i64 = q.z as i64 - p.z as i64;
    let bx: i64 = r.x as i64 - p.x as i64;
    let by_: i64 = r.y as i64 - p.y as i64;
    let bz: i64 = r.z as i64 - p.z as i64;
    let nx: i128 = crossed(ay, bz, az, by_);
    let ny: i128 = crossed(az, bx, ax, bz);
    let nz: i128 = crossed(ax, by_, ay, bx);
    let (mx, my, mz): (i128, i128, i128) = (magnitude(nx), magnitude(ny), magnitude(nz));
    if mx >= my && mx >= mz {
        if nx >= 0 {
            Direction::East
        } else {
            Direction::West
        }
    } else if my >= mz {
        if ny >= 0 {
            Direction::Up
        } else {
            Direction::Down
        }
    } else if nz >= 0 {
        Direction::South
    } else {
        Direction::North
    }
}

/// The side that a face is cracked from: the one that hides it, or the one that
/// it looks to most.
pub open spec fn side_of(quad: Quad) -> Direction {
    match quad.cullface {
        Some(dir) => dir,
        None => nearest_side(normal(quad.positions@)),
    }
}

/// What the faces of a block are taken from.
#[derive(Clone, Copy, Debug, PartialEq, Eq, Structural)]
pub enum FaceSource {
    Model,
    Parts,
    /// A cube that fills the block.
    Cube,
    Nothing,
}

/// What the faces of a block are taken from: its model, else the parts that it is
/// put together from, else a cube where it has textures at all.
pub fn face_source(has_model: bool, has_parts: bool, has_textures: bool) -> (source: FaceSource)
    ensures
        source == (if has_model {
            FaceSource::Model
        } else if has_parts {
            FaceSource::Parts
        } else if has_textures {
            FaceSource::Cube
        } else {
            FaceSource::Nothing
        }),
{
    if has_model {
        FaceSource::Model
    } else if has_parts {
        FaceSource::Parts
    } else if has_textures {
        FaceSource::Cube
    } else {
        FaceSource::Nothing
    }
}

/// The vertices of the first `n` faces.
pub open spec fn quads_vertices(quads: Seq<Quad>, stage: u32, n: nat) -> Seq<OverlayVertex>
    decreases n,
{
    if n == 0 {
        Seq::empty()
    } else {
        quads_vertices(quads, stage, (n - 1) as nat) + face_vertices(
            quads[n - 1].positions@,
            side_of(quads[n - 1]),
            stage,
        )
    }
}

/// The cracks over the faces of a block, as many as there is room for.
pub fn build_overlay_vertices(quads: &Vec<Quad>, stage: u32) -> (verts: Vec<OverlayVertex>)
    ensures
        ({
            let all = quads_vertices(quads@, stage, quads@.len());
            verts@ == if all.len() > 1536 {
                all.take(1536)
            } else {
                all
            }
        }),
{
    let mut verts: Vec<OverlayVertex> = Vec::new();
    let mut i: usize = 0;
    while i < quads.len()
        invariant
            i <= quads@.len(),
            verts@ == quads_vertices(quads@, stage, i as nat),
        decreases quads@.len() - i,
    {
        let dir = match quads[i].cullface {
            Some(dir) => dir,
            None => nearest_direction(&quads[i].positions),
        };
        push_face(&mut verts, &quads[i].positions, dir, stage);
        i = i + 1;
    }
    if verts.len() > MAX_OVERLAY_VERTS {
        verts.truncate(MAX_OVERLAY_VERTS);
    }
    verts
}

/// How many vertices the cracks over the faces of a block ask for. Those beyond
/// `MAX_OVERLAY_VERTS` are left out, which is worth a warning.
pub fn wanted_overlay_vertices(quads: &Vec<Quad>) -> (wanted: u128)
    ensures
        forall|stage: u32|
            wanted == (#[trigger] quads_vertices(quads@, stage, quads@.len())).len(),
{
    proof {
        assert forall|stage: u32| (#[trigger] quads_vertices(quads@, stage, quads@.len())).len()
            == 6 * quads@.len() by {
            limit_keeps_whole_faces(quads@, stage, quads@.len());
        }
    }
    6 * quads.len() as u128
}

/// The cracks are whole faces: no triangle is cut off by the limit.
pub proof fn limit_keeps_whole_faces(quads: Seq<Quad>, stage: u32, n: nat)
    ensures
        quads_vertices(quads, stage, n).len() == 6 * n,
        MAX_OVERLAY_VERTS % 6 == 0,
    decreases n,
{
    if n > 0 {
        limit_keeps_whole_faces(quads, stage, (n - 1) as nat);
    }
}

/// The file of a stage.
pub open spec fn stage_file(stage: nat) -> Seq<char> {
    "minecraft/textures/block/destroy_stage_"@ + decimal(stage) + ".png"@
}

/// The file of a stage.
pub fn destroy_stage_key(stage: u32) -> (key: String)
    ensures
        key@ == stage_file(stage as nat),
{
    "minecraft/textures/block/destroy_stage_".to_owned().concat(
        decimal_text(stage as u64).as_str(),
    ).concat(".png")
}

/// The stages one below the other: the side of a tile, and the pixels.
pub struct DestroyAtlas {
    pub tile_size: u32,
    pub pixels: Vec<u8>,
}

/// The atlas as a value.
pub struct AtlasPixels {
    pub tile_size: int,
    pub pixels: Seq<u8>,
}

/// The picture in a file that may be missing.
pub open spec fn picture(file: Option<Vec<u8>>) -> Option<(int, int, Seq<u8>)> {
    match file {
        Some(bytes) => decoded_image(bytes@),
        None => None,
    }
}

/// The atlas of the first `n` stages. A stage that cannot be read is a square of
/// nothing, as wide as the last one that could, or 16 pixels.
pub open spec fn atlas_of(files: Seq<Option<Vec<u8>>>, n: nat) -> AtlasPixels
    decreases n,
{
    if n == 0 {
        AtlasPixels { tile_size: 16, pixels: Seq::empty() }
    } else {
        let before = atlas_of(files, (n - 1) as nat);
        match picture(files[n - 1]) {
            Some((width, _, rgba)) => AtlasPixels {
                tile_size: width,
                pixels: before.pixels + rgba,
            },
            None => AtlasPixels {
                tile_size: before.tile_size,
                pixels: before.pixels + Seq::new(
                    (before.tile_size * before.tile_size * 4) as nat,
                    |i: int| 0u8,
                ),
            },
        }
    }
}

fn push_nothing(pixels: &mut Vec<u8>, side: u32)
    ensures
        final(pixels)@ == old(pixels)@ + Seq::new((side * side * 4) as nat, |i: int| 0u8),
{
    let ghost before = pixels@;
    assert(0 <= side * side <= 0xFFFF_FFFE_0000_0001) by (nonlinear_arith)
        requires
            0 <= side <= 0xFFFF_FFFF,
    ;
    let total: u128 = side as u128 * side as u128 * 4;
    let mut i: u128 = 0;
    assert(pixels@ =~= before + Seq::new(0, |k: int| 0u8));
    while i < total
        invariant
            i <= total,
            pixels@ == before + Seq::new(i as nat, |k: int| 0u8),
        decreases total - i,
    {
        pixels.push(0);
        i = i + 1;
        assert(pixels@ =~= before + Seq::new(i as nat, |k: int| 0u8));
    }
}

fn push_all(pixels: &mut Vec<u8>, more: &Vec<u8>)
    ensures
        final(pixels)@ == old(pixels)@ + more@,
{
    let ghost before = pixels@;
    let mut i: usize = 0;
    assert(pixels@ =~= before + more@.take(0));
    while i < more.len()
        invariant
            i <= more@.len(),
            pixels@ == before + more@.take(i as int),
        decreases more@.len() - i,
    {
        pixels.push(more[i]);
        i = i + 1;
        assert(pixels@ =~= before + more@.take(i as int));
    }
    assert(more@.take(i as int) =~= more@);
}

/// The atlas of the stages of cracks.
pub fn load_destroy_atlas(files: &Vec<Option<Vec<u8>>>) -> (atlas: DestroyAtlas)
    ensures
        atlas.tile_size == atlas_of(files@, files@.len()).tile_size,
        atlas.pixels@ == atlas_of(files@, files@.len()).pixels,
{
    let mut tile_size: u32 = 16;
    let mut pixels: Vec<u8> = Vec::new();
    let mut i: usize = 0;
    while i < files.len()
        invariant
            i <= files@.len(),
            tile_size == atlas_of(files@, i as nat).tile_size,
            pixels@ == atlas_of(files@, i as nat).pixels,
        decreases files@.len() - i,
    {
        let image = match &files[i] {
            Some(bytes) => decode_image(bytes),
            None => None,
        };
        match image {
            Some(picture) => {
                tile_size = picture.width;
                push_all(&mut pixels, &picture.rgba);
            },
            None => {
                push_nothing(&mut pixels, tile_size);
            },
        }
        i = i + 1;
    }
    DestroyAtlas { tile_size, pixels }
}

/// Where all stages that can be read are squares of one side, the atlas is a
/// column of such squares.
pub proof fn equal_stages_fill_the_atlas(files: Seq<Option<Vec<u8>>>, side: int, n: nat)
    requires
        n <= files.len(),
        side >= 0,
        forall|i: int|
            0 <= i < n ==> (match picture(#[trigger] files[i]) {
                Some((width, height, rgba)) => width == side && height == side && rgba.len()
                    == side * side * 4,
                None => side == 16,
            }),
    ensures
        atlas_of(files, n).pixels.len() == n * (side * side * 4),
        n > 0 ==> atlas_of(files, n).tile_size == side,
    decreases n,
{
    if n > 0 {
        equal_stages_fill_the_atlas(files, side, (n - 1) as nat);
        assert(n * (side * side * 4) == (n - 1) * (side * side * 4) + side * side * 4)
            by (nonlinear_arith);
        assert(0 <= side * side) by (nonlinear_arith)
            requires
                side >= 0,
        ;
        let before = atlas_of(files, (n - 1) as nat);
        match picture(files[n - 1]) {
            Some(p) => {},
            None => {
                assert(before.tile_size == 16);
            },
        }
    } else {
        assert(0 * (side * side * 4) == 0);
    }
}

} // verus!
