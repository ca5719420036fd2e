//! What holds of the clouds that are drawn: where they stand, which of their
//! sides are there, and how they move.

use crate::clouds::{
    cell_faces, cell_of, cloud_mesh, disc_is_walked_once, disc_walk, extruded_faces, face, face_if,
    is_grid_of, magnitude, mesh, neighbours_agree, no_face_is_cut, CloudCell, CloudFace, CloudGrid,
    RelativePos, DIR_DOWN, DIR_EAST, DIR_NORTH, DIR_SOUTH, DIR_UP, DIR_WEST, FLAG_USE_TOP_COLOR,
};
use crate::pixels::{byte_at, Image};
use vstd::prelude::*;

verus! {

/// Whether some faces show a cell at an offset from the centre.
pub open spec fn shows(faces: Seq<CloudFace>, x: int, z: int) -> bool {
    exists|i: int|
        0 <= i < faces.len() && (#[trigger] faces[i]).cell_x == x && faces[i].cell_z == z
}

/// Whether some faces show a side of the cell at an offset from the centre.
pub open spec fn shows_side(faces: Seq<CloudFace>, x: int, z: int, dir: u8) -> bool {
    exists|i: int|
        0 <= i < faces.len() && (#[trigger] faces[i]).cell_x == x && faces[i].cell_z == z
            && faces[i].dir == dir
}

/// Whether a texel of a picture is a cloud, counted round the edges.
pub open spec fn is_cloud(image: Image, x: int, y: int) -> bool {
    let (u, v) = (x % (image.width as int), y % (image.height as int));
    image.rgba@[4 * (v * image.width + u) + 3] >= 10
}

proof fn lemma_either<T>(a: Seq<T>, b: Seq<T>, x: T)
    ensures
        (a + b).contains(x) <==> a.contains(x) || b.contains(x),
{
    let all = a + b;
    if a.contains(x) {
        let i = a.index_of(x);
        assert(all[i] == x);
    }
    if b.contains(x) {
        let i = b.index_of(x);
        assert(all[a.len() + i] == x);
    }
    if all.contains(x) {
        let i = all.index_of(x);
        if i < a.len() {
            assert(a[i] == x);
        } else {
            assert(b[i - a.len()] == x);
        }
    }
}

/// Whether one of some cells has a face.
spec fn has_face(
    grid: CloudGrid,
    centre: (int, int),
    cells: Seq<(int, int)>,
    fancy: bool,
    rel: RelativePos,
    f: CloudFace,
) -> bool {
    exists|i: int|
        0 <= i < cells.len() && cell_faces(grid, centre, #[trigger] cells[i], fancy, rel).contains(f)
}

proof fn lemma_mesh(
    grid: CloudGrid,
    centre: (int, int),
    cells: Seq<(int, int)>,
    fancy: bool,
    rel: RelativePos,
    f: CloudFace,
)
    ensures
        mesh(grid, centre, cells, fancy, rel).contains(f) <==> has_face(
            grid,
            centre,
            cells,
            fancy,
            rel,
            f,
        ),
    decreases cells.len(),
{
    if cells.len() > 0 {
        let (less, last) = (cells.drop_last(), cells.last());
        lemma_mesh(grid, centre, less, fancy, rel, f);
        lemma_either(
            mesh(grid, centre, less, fancy, rel),
            cell_faces(grid, centre, last, fancy, rel),
            f,
        );
        lemma_has_face(grid, centre, cells, fancy, rel, f);
    }
}

proof fn lemma_has_face(
    grid: CloudGrid,
    centre: (int, int),
    cells: Seq<(int, int)>,
    fancy: bool,
    rel: RelativePos,
    f: CloudFace,
)
    requires
        cells.len() > 0,
    ensures
        has_face(grid, centre, cells, fancy, rel, f) <==> has_face(
            grid,
            centre,
            cells.drop_last(),
            fancy,
            rel,
            f,
        ) || cell_faces(grid, centre, cells.last(), fancy, rel).contains(f),
{
    let less = cells.drop_last();
    if has_face(grid, centre, less, fancy, rel, f) {
        let i = choose|i: int|
            0 <= i < less.len() && cell_faces(
                grid,
                centre,
                #[trigger] less[i],
                fancy,
                rel,
            ).contains(f);
        assert(cells[i] == less[i]);
    }
    if has_face(grid, centre, cells, fancy, rel, f) {
        let i = choose|i: int|
            0 <= i < cells.len() && cell_faces(
                grid,
                centre,
                #[trigger] cells[i],
                fancy,
                rel,
            ).contains(f);
        if i < less.len() {
            assert(less[i] == cells[i]);
        }
    }
    assert(cells[cells.len() - 1] == cells.last());
}

/// Whether a side of a box is drawn. The nine cells round the centre have all of
/// them.
spec fn has_side(
    x: int,
    z: int,
    dir: u8,
    rel: RelativePos,
    north: bool,
    south: bool,
    west: bool,
    east: bool,
) -> bool {
    if magnitude(x) <= 1 && magnitude(z) <= 1 {
        dir <= 5
    } else {
        ||| dir == DIR_UP && rel != RelativePos::Below
        ||| dir == DIR_DOWN && rel != RelativePos::Above
        ||| dir == DIR_NORTH && north && z > 0
        ||| dir == DIR_SOUTH && south && z < 0
        ||| dir == DIR_WEST && west && x > 0
        ||| dir == DIR_EAST && east && x < 0
    }
}

proof fn lemma_extruded(
    x: int,
    z: int,
    cell: CloudCell,
    rel: RelativePos,
    f: CloudFace,
)
    ensures
        extruded_faces(x, z, cell, rel).contains(f) <==> (f == face(x, z, f.dir, 0) && has_side(
            x,
            z,
            f.dir,
            rel,
            cell.north_empty,
            cell.south_empty,
            cell.west_empty,
            cell.east_empty,
        )),
{
    let all = extruded_faces(x, z, cell, rel);
    let interior = magnitude(x) <= 1 && magnitude(z) <= 1;
    let up = face_if(interior || rel != RelativePos::Below, x, z, DIR_UP);
    let down = face_if(interior || rel != RelativePos::Above, x, z, DIR_DOWN);
    let north = face_if(interior || (cell.north_empty && z > 0), x, z, DIR_NORTH);
    let south = face_if(interior || (cell.south_empty && z < 0), x, z, DIR_SOUTH);
    let west = face_if(interior || (cell.west_empty && x > 0), x, z, DIR_WEST);
    let east = face_if(interior || (cell.east_empty && x < 0), x, z, DIR_EAST);
    lemma_either(up, down, f);
    lemma_either(up + down, north, f);
    lemma_either(up + down + north, south, f);
    lemma_either(up + down + north + south, west, f);
    lemma_either(up + down + north + south + west, east, f);
    assert(all == up + down + north + south + west + east);
    lemma_face_if(interior || rel != RelativePos::Below, x, z, DIR_UP, f);
    lemma_face_if(interior || rel != RelativePos::Above, x, z, DIR_DOWN, f);
    lemma_face_if(interior || (cell.north_empty && z > 0), x, z, DIR_NORTH, f);
    lemma_face_if(interior || (cell.south_empty && z < 0), x, z, DIR_SOUTH, f);
    lemma_face_if(interior || (cell.west_empty && x > 0), x, z, DIR_WEST, f);
    lemma_face_if(interior || (cell.east_empty && x < 0), x, z, DIR_EAST, f);
}

proof fn lemma_face_if(present: bool, x: int, z: int, dir: u8, f: CloudFace)
    ensures
        face_if(present, x, z, dir).contains(f) <==> present && f == face(x, z, dir, 0),
{
    if present {
        assert(face_if(present, x, z, dir)[0] == face(x, z, dir, 0));
    }
}

/// What is drawn of the clouds, face by face.
proof fn lemma_faces(
    grid: CloudGrid,
    centre: (int, int),
    fancy: bool,
    rel: RelativePos,
    f: CloudFace,
)
    ensures
        ({
            let (x, z) = (f.cell_x as int, f.cell_z as int);
            let cell = grid.at(
                (centre.0 + x) % (grid.width as int),
                (centre.1 + z) % (grid.height as int),
            );
            mesh(grid, centre, disc_walk(161), fancy, rel).contains(f) <==> {
                &&& x * x + z * z <= 6400
                &&& cell.present
                &&& if fancy {
                    f.flags == 0 && has_side(
                        x,
                        z,
                        f.dir,
                        rel,
                        cell.north_empty,
                        cell.south_empty,
                        cell.west_empty,
                        cell.east_empty,
                    )
                } else {
                    f.flags == FLAG_USE_TOP_COLOR && f.dir == DIR_DOWN
                }
            }
        }),
{
    let (x, z) = (f.cell_x as int, f.cell_z as int);
    let walk = disc_walk(161);
    let all = mesh(grid, centre, walk, fancy, rel);
    lemma_mesh(grid, centre, walk, fancy, rel, f);
    disc_is_walked_once(x, z);
    assert forall|i: int| 0 <= i < walk.len() && cell_faces(
        grid,
        centre,
        #[trigger] walk[i],
        fancy,
        rel,
    ).contains(f) implies walk[i] == (x, z) by {
        let c = walk[i];
        assert(walk.contains(c));
        disc_is_walked_once(c.0, c.1);
        lemma_near(c.0, c.1);
        lemma_cell(grid, centre, c, fancy, rel, f);
    }
    lemma_cell(grid, centre, (x, z), fancy, rel, f);
    assert(f == face(x, z, f.dir, f.flags));
    if walk.contains((x, z)) {
        let i = walk.index_of((x, z));
        assert(walk[i] == (x, z));
    }
    if all.contains(f) {
        let i = choose|i: int|
            0 <= i < walk.len() && cell_faces(grid, centre, #[trigger] walk[i], fancy, rel).contains(
                f,
            );
        assert(walk.contains(walk[i]));
    }
}

/// What is drawn of a cell, face by face.
proof fn lemma_cell(
    grid: CloudGrid,
    centre: (int, int),
    c: (int, int),
    fancy: bool,
    rel: RelativePos,
    f: CloudFace,
)
    ensures
        ({
            let cell = grid.at(
                (centre.0 + c.0) % (grid.width as int),
                (centre.1 + c.1) % (grid.height as int),
            );
            cell_faces(grid, centre, c, fancy, rel).contains(f) <==> {
                &&& cell.present
                &&& f == face(c.0, c.1, f.dir, f.flags)
                &&& if fancy {
                    f.flags == 0 && has_side(
                        c.0,
                        c.1,
                        f.dir,
                        rel,
                        cell.north_empty,
                        cell.south_empty,
                        cell.west_empty,
                        cell.east_empty,
                    )
                } else {
                    f.flags == FLAG_USE_TOP_COLOR && f.dir == DIR_DOWN
                }
            }
        }),
{
    let cell = grid.at(
        (centre.0 + c.0) % (grid.width as int),
        (centre.1 + c.1) % (grid.height as int),
    );
    lemma_extruded(c.0, c.1, cell, rel, f);
    let here = cell_faces(grid, centre, c, fancy, rel);
    if !fancy && cell.present {
        assert(here[0] == face(c.0, c.1, DIR_DOWN, FLAG_USE_TOP_COLOR));
        assert(here.len() == 1);
        assert(here.contains(f) <==> here[0] == f);
    }
}

proof fn lemma_near(x: int, z: int)
    requires
        x * x + z * z <= 6400,
    ensures
        -80 <= x <= 80,
        -80 <= z <= 80,
{
    assert(-80 <= x <= 80 && -80 <= z <= 80) by (nonlinear_arith)
        requires
            x * x + z * z <= 6400,
    ;
}

/// There is a cloud at an offset of the disc exactly where the layer has one in
/// the column and the row that lie as far from the camera's own, counted round the
/// edges of the layer. Outside the disc there is none.
pub proof fn clouds_stand_where_the_layer_has_them(
    grid: CloudGrid,
    centre: (int, int),
    fancy: bool,
    rel: RelativePos,
    x: int,
    z: int,
)
    ensures
        ({
            let column = (centre.0 + x) % (grid.width as int);
            let row = (centre.1 + z) % (grid.height as int);
            shows(mesh(grid, centre, disc_walk(161), fancy, rel), x, z) <==> x * x + z * z <= 6400
                && grid.cells@[row * grid.width + column].present
        }),
{
    let all = mesh(grid, centre, disc_walk(161), fancy, rel);
    if shows(all, x, z) {
        let i = choose|i: int|
            0 <= i < all.len() && (#[trigger] all[i]).cell_x == x && all[i].cell_z == z;
        assert(all.contains(all[i]));
        lemma_faces(grid, centre, fancy, rel, all[i]);
    }
    if x * x + z * z <= 6400 {
        lemma_near(x, z);
        let f = if !fancy {
            face(x, z, DIR_DOWN, FLAG_USE_TOP_COLOR)
        } else if rel == RelativePos::Below {
            face(x, z, DIR_DOWN, 0)
        } else {
            face(x, z, DIR_UP, 0)
        };
        lemma_faces(grid, centre, fancy, rel, f);
        if all.contains(f) {
            let i = all.index_of(f);
            assert(all[i].cell_x == x);
        }
    }
}

/// Of a picture, the clouds that are drawn stand where the picture has a texel
/// that is not clear, and no cloud of the disc is missing.
pub proof fn clouds_are_those_of_the_picture(
    grid: CloudGrid,
    image: Image,
    centre: (int, int),
    fancy: bool,
    rel: RelativePos,
    x: int,
    z: int,
)
    requires
        image.wf(),
        image.width > 0,
        image.height > 0,
        is_grid_of(grid, image),
    ensures
        shows(cloud_mesh(grid, centre, fancy, rel), x, z) <==> x * x + z * z <= 6400 && is_cloud(
            image,
            centre.0 + x,
            centre.1 + z,
        ),
{
    no_face_is_cut(grid, image, centre, fancy, rel);
    clouds_stand_where_the_layer_has_them(grid, centre, fancy, rel, x, z);
    lemma_layer_of_picture(grid, image, centre.0 + x, centre.1 + z);
}

proof fn lemma_layer_of_picture(grid: CloudGrid, image: Image, x: int, y: int)
    requires
        image.wf(),
        image.width > 0,
        image.height > 0,
        is_grid_of(grid, image),
    ensures
        ({
            let (u, v) = (x % (image.width as int), y % (image.height as int));
            &&& 0 <= u < image.width
            &&& 0 <= v < image.height
            &&& grid.at(u, v) == grid.cells@[v * grid.width + u]
            &&& grid.at(u, v).present == is_cloud(image, x, y)
        }),
{
    let (w, h) = (image.width as int, image.height as int);
    let (u, v) = (x % w, y % h);
    assert(0 <= u < w && 0 <= v < h && u % w == u && v % h == v) by (nonlinear_arith)
        requires
            w > 0,
            h > 0,
            u == x % w,
            v == y % h,
    ;
    assert(grid.at(u, v) == cell_of(image, u, v));
    assert(byte_at(w, u, v, 3) == 4 * (v * image.width + u) + 3) by (nonlinear_arith)
        requires
            w == image.width,
            byte_at(w, u, v, 3) == (v * w + u) * 4 + 3,
    ;
}

/// The clouds move as a whole: from one cell further along an axis, what stood at
/// an offset stands one cell nearer.
pub proof fn clouds_stay_in_place_as_the_camera_moves(
    grid: CloudGrid,
    centre: (int, int),
    moved: (int, int),
    fancy: bool,
    rel: RelativePos,
    x: int,
    z: int,
)
    requires
        x * x + z * z <= 6400,
        (x - moved.0) * (x - moved.0) + (z - moved.1) * (z - moved.1) <= 6400,
    ensures
        ({
            let here = mesh(grid, centre, disc_walk(161), fancy, rel);
            let there = mesh(
                grid,
                (centre.0 + moved.0, centre.1 + moved.1),
                disc_walk(161),
                fancy,
                rel,
            );
            shows(there, x - moved.0, z - moved.1) <==> shows(here, x, z)
        }),
{
    clouds_stand_where_the_layer_has_them(grid, centre, fancy, rel, x, z);
    clouds_stand_where_the_layer_has_them(
        grid,
        (centre.0 + moved.0, centre.1 + moved.1),
        fancy,
        rel,
        x - moved.0,
        z - moved.1,
    );
}

/// A flat cloud is its underside alone, in the brightest shade.
pub proof fn flat_clouds_are_undersides(
    grid: CloudGrid,
    centre: (int, int),
    rel: RelativePos,
    i: int,
)
    requires
        0 <= i < mesh(grid, centre, disc_walk(161), false, rel).len(),
    ensures
        mesh(grid, centre, disc_walk(161), false, rel)[i].dir == DIR_DOWN,
        mesh(grid, centre, disc_walk(161), false, rel)[i].flags == FLAG_USE_TOP_COLOR,
{
    let all = mesh(grid, centre, disc_walk(161), false, rel);
    assert(all.contains(all[i]));
    lemma_faces(grid, centre, false, rel, all[i]);
}

/// The sides of the boxes of a picture's clouds. Round the centre a box has all
/// six. Elsewhere the top is there unless the camera is below the layer, and the
/// bottom unless it is above; a wall is there where it faces the centre and the
/// texel that it looks at is clear.
pub proof fn boxes_have_the_sides_that_can_be_seen(
    grid: CloudGrid,
    image: Image,
    centre: (int, int),
    rel: RelativePos,
    x: int,
    z: int,
    dir: u8,
)
    requires
        image.wf(),
        image.width > 0,
        image.height > 0,
        is_grid_of(grid, image),
    ensures
        ({
            let faces = cloud_mesh(grid, centre, true, rel);
            let (u, v) = (centre.0 + x, centre.1 + z);
            shows_side(faces, x, z, dir) <==> {
                &&& x * x + z * z <= 6400
                &&& is_cloud(image, u, v)
                &&& dir <= 5
                &&& {
                    ||| -1 <= x <= 1 && -1 <= z <= 1
                    ||| dir == DIR_UP && rel != RelativePos::Below
                    ||| dir == DIR_DOWN && rel != RelativePos::Above
                    ||| dir == DIR_NORTH && z > 0 && !is_cloud(image, u, v - 1)
                    ||| dir == DIR_SOUTH && z < 0 && !is_cloud(image, u, v + 1)
                    ||| dir == DIR_WEST && x > 0 && !is_cloud(image, u - 1, v)
                    ||| dir == DIR_EAST && x < 0 && !is_cloud(image, u + 1, v)
                }
            }
        }),
{
    no_face_is_cut(grid, image, centre, true, rel);
    let all = mesh(grid, centre, disc_walk(161), true, rel);
    let (w, h) = (image.width as int, image.height as int);
    let (u, v) = (centre.0 + x, centre.1 + z);
    lemma_layer_of_picture(grid, image, u, v);
    lemma_layer_of_picture(grid, image, u, v - 1);
    lemma_layer_of_picture(grid, image, u, v + 1);
    lemma_layer_of_picture(grid, image, u - 1, v);
    lemma_layer_of_picture(grid, image, u + 1, v);
    lemma_next(u, w);
    lemma_next(v, h);
    if grid.at(u % w, v % h).present {
        neighbours_agree(grid, image, u % w, v % h);
    }
    if shows_side(all, x, z, dir) {
        let i = choose|i: int|
            0 <= i < all.len() && (#[trigger] all[i]).cell_x == x && all[i].cell_z == z
                && all[i].dir == dir;
        assert(all.contains(all[i]));
        lemma_faces(grid, centre, true, rel, all[i]);
    }
    if x * x + z * z <= 6400 {
        lemma_near(x, z);
        let f = face(x, z, dir, 0);
        lemma_faces(grid, centre, true, rel, f);
        if all.contains(f) {
            let i = all.index_of(f);
            assert(all[i].cell_x == x);
        }
    }
}

proof fn lemma_next(n: int, m: int)
    requires
        m > 0,
    ensures
        (n % m - 1) % m == (n - 1) % m,
        (n % m + 1) % m == (n + 1) % m,
{
    vstd::arithmetic::div_mod::lemma_add_mod_noop(n, 1, m);
    vstd::arithmetic::div_mod::lemma_add_mod_noop(n % m, 1, m);
    vstd::arithmetic::div_mod::lemma_sub_mod_noop(n, 1, m);
    vstd::arithmetic::div_mod::lemma_sub_mod_noop(n % m, 1, m);
    vstd::arithmetic::div_mod::lemma_mod_twice(n, m);
}

/// The place of a direction in the order in which the sides of a box are drawn.
spec fn rank(dir: u8) -> int {
    if dir == DIR_UP {
        0
    } else if dir == DIR_DOWN {
        1
    } else {
        dir as int
    }
}

/// Whether some faces stand in a cell, in the order of their directions.
spec fn are_sides(faces: Seq<CloudFace>, c: (int, int), r: int) -> bool {
    &&& forall|i: int|
        0 <= i < faces.len() ==> (#[trigger] faces[i]).cell_x == c.0 && faces[i].cell_z == c.1
            && rank(faces[i].dir) < r
    &&& forall|i: int, j: int|
        0 <= i < j < faces.len() ==> rank((#[trigger] faces[i]).dir) < rank(
            (#[trigger] faces[j]).dir,
        )
}

proof fn lemma_one_more_side(faces: Seq<CloudFace>, c: (int, int), present: bool, dir: u8)
    requires
        -80 <= c.0 <= 80,
        -80 <= c.1 <= 80,
        are_sides(faces, c, rank(dir)),
    ensures
        are_sides(faces + face_if(present, c.0, c.1, dir), c, rank(dir) + 1),
{
    let all = faces + face_if(present, c.0, c.1, dir);
    assert forall|i: int| 0 <= i < all.len() implies (#[trigger] all[i]).cell_x == c.0
        && all[i].cell_z == c.1 && rank(all[i].dir) < rank(dir) + 1 by {
        if i < faces.len() {
            assert(all[i] == faces[i]);
        } else {
            assert(all[i] == face(c.0, c.1, dir, 0));
        }
    }
    assert forall|i: int, j: int| 0 <= i < j < all.len() implies rank((#[trigger] all[i]).dir)
        < rank((#[trigger] all[j]).dir) by {
        assert(all[i] == faces[i]);
        if j < faces.len() {
            assert(all[j] == faces[j]);
        } else {
            assert(all[j] == face(c.0, c.1, dir, 0));
        }
    }
}

/// The faces of a cell stand in it, and no two look the same way.
proof fn lemma_cell_faces(
    grid: CloudGrid,
    centre: (int, int),
    c: (int, int),
    fancy: bool,
    rel: RelativePos,
)
    requires
        -80 <= c.0 <= 80,
        -80 <= c.1 <= 80,
    ensures
        are_sides(cell_faces(grid, centre, c, fancy, rel), c, 6),
{
    let cell = grid.at(
        (centre.0 + c.0) % (grid.width as int),
        (centre.1 + c.1) % (grid.height as int),
    );
    let interior = magnitude(c.0) <= 1 && magnitude(c.1) <= 1;
    let a = face_if(interior || rel != RelativePos::Below, c.0, c.1, DIR_UP);
    let b = face_if(interior || rel != RelativePos::Above, c.0, c.1, DIR_DOWN);
    let n = face_if(interior || (cell.north_empty && c.1 > 0), c.0, c.1, DIR_NORTH);
    let s = face_if(interior || (cell.south_empty && c.1 < 0), c.0, c.1, DIR_SOUTH);
    let w = face_if(interior || (cell.west_empty && c.0 > 0), c.0, c.1, DIR_WEST);
    lemma_one_more_side(Seq::empty(), c, interior || rel != RelativePos::Below, DIR_UP);
    assert(Seq::empty() + a =~= a);
    lemma_one_more_side(a, c, interior || rel != RelativePos::Above, DIR_DOWN);
    lemma_one_more_side(a + b, c, interior || (cell.north_empty && c.1 > 0), DIR_NORTH);
    lemma_one_more_side(a + b + n, c, interior || (cell.south_empty && c.1 < 0), DIR_SOUTH);
    lemma_one_more_side(a + b + n + s, c, interior || (cell.west_empty && c.0 > 0), DIR_WEST);
    lemma_one_more_side(a + b + n + s + w, c, interior || (cell.east_empty && c.0 < 0), DIR_EAST);
}

proof fn lemma_mesh_has_no_twins(
    grid: CloudGrid,
    centre: (int, int),
    cells: Seq<(int, int)>,
    fancy: bool,
    rel: RelativePos,
)
    requires
        cells.no_duplicates(),
        forall|i: int|
            0 <= i < cells.len() ==> -80 <= (#[trigger] cells[i]).0 <= 80 && -80 <= cells[i].1 <= 80,
    ensures
        forall|i: int, j: int|
            0 <= i < j < mesh(grid, centre, cells, fancy, rel).len() ==> {
                let (f, g) = (
                    #[trigger] mesh(grid, centre, cells, fancy, rel)[i],
                    #[trigger] mesh(grid, centre, cells, fancy, rel)[j],
                );
                f.cell_x != g.cell_x || f.cell_z != g.cell_z || f.dir != g.dir
            },
    decreases cells.len(),
{
    let all = mesh(grid, centre, cells, fancy, rel);
    if cells.len() > 0 {
        let (less, last) = (cells.drop_last(), cells.last());
        let before = mesh(grid, centre, less, fancy, rel);
        let new = cell_faces(grid, centre, last, fancy, rel);
        assert forall|i: int| 0 <= i < less.len() implies -80 <= (#[trigger] less[i]).0 <= 80 && -80
            <= less[i].1 <= 80 by {
            assert(cells[i] == less[i]);
        }
        lemma_mesh_has_no_twins(grid, centre, less, fancy, rel);
        assert(all == before + new);
        assert(-80 <= cells[cells.len() - 1].0 <= 80);
        lemma_cell_faces(grid, centre, last, fancy, rel);
        assert forall|i: int, j: int| 0 <= i < j < all.len() implies {
            let (f, g) = (#[trigger] all[i], #[trigger] all[j]);
            f.cell_x != g.cell_x || f.cell_z != g.cell_z || f.dir != g.dir
        } by {
            if j < before.len() {
                assert(all[i] == before[i] && all[j] == before[j]);
            } else if i < before.len() {
                assert(all[i] == before[i] && all[j] == new[j - before.len()]);
                let f = before[i];
                assert(before.contains(f));
                lemma_mesh(grid, centre, less, fancy, rel, f);
                let k = choose|k: int|
                    0 <= k < less.len() && cell_faces(
                        grid,
                        centre,
                        #[trigger] less[k],
                        fancy,
                        rel,
                    ).contains(f);
                let c = less[k];
                assert(cells[k] == c && cells[cells.len() - 1] == last);
                assert(c != last);
                lemma_cell(grid, centre, c, fancy, rel, f);
            } else {
                assert(all[i] == new[i - before.len()] && all[j] == new[j - before.len()]);
            }
        }
    }
}

/// No side of a cloud is drawn twice.
pub proof fn no_side_is_drawn_twice(
    grid: CloudGrid,
    centre: (int, int),
    fancy: bool,
    rel: RelativePos,
    i: int,
    j: int,
)
    requires
        0 <= i < j < cloud_mesh(grid, centre, fancy, rel).len(),
    ensures
        ({
            let (f, g) = (
                cloud_mesh(grid, centre, fancy, rel)[i],
                cloud_mesh(grid, centre, fancy, rel)[j],
            );
            f.cell_x != g.cell_x || f.cell_z != g.cell_z || f.dir != g.dir
        }),
{
    let walk = disc_walk(161);
    disc_is_walked_once(0, 0);
    assert forall|k: int| 0 <= k < walk.len() implies -80 <= (#[trigger] walk[k]).0 <= 80 && -80
        <= walk[k].1 <= 80 by {
        assert(walk.contains(walk[k]));
        disc_is_walked_once(walk[k].0, walk[k].1);
        lemma_near(walk[k].0, walk[k].1);
    }
    lemma_mesh_has_no_twins(grid, centre, walk, fancy, rel);
    let all = mesh(grid, centre, walk, fancy, rel);
    assert(cloud_mesh(grid, centre, fancy, rel)[i] == all[i]);
    assert(cloud_mesh(grid, centre, fancy, rel)[j] == all[j]);
}

} // verus!
