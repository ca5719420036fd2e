//! The cloud layer: a grid of cells, and the faces that are drawn of it.

use crate::decode::{decode_image, is_decoded};
use crate::pixels::{byte_at, Image};
use crate::seqs::join_six;
use vstd::arithmetic::div_mod::{lemma_add_mod_noop_right, lemma_mod_bound};
use vstd::prelude::*;
use vstd::seq_lib::seq_to_set_is_finite;
use vstd::set_lib::*;

verus! {

/// The radius of the disc of cells that are drawn.
pub const RADIUS_CELLS: i32 = 80;

/// How many faces are drawn at most.
pub const MAX_FACES: usize = 52542;

/// The alpha from which on a texel is a cloud.
pub const CLOUD_ALPHA: u8 = 10;

pub const DIR_DOWN: u8 = 0;

pub const DIR_UP: u8 = 1;

pub const DIR_NORTH: u8 = 2;

pub const DIR_SOUTH: u8 = 3;

pub const DIR_WEST: u8 = 4;

pub const DIR_EAST: u8 = 5;

/// The face has the brightest shade, whatever its direction.
pub const FLAG_USE_TOP_COLOR: u8 = 1;

/// A face, in the cell at an offset from the centre.
#[derive(Clone, Copy, Debug, PartialEq, Eq, Structural)]
pub struct CloudFace {
    pub cell_x: i16,
    pub cell_z: i16,
    pub dir: u8,
    pub flags: u8,
}

/// How clouds are drawn.
#[derive(Clone, Copy, Debug, PartialEq, Eq, Structural)]
pub enum CloudMode {
    Off,
    Fast,
    Fancy,
}

/// Where the camera is, seen from the cloud layer.
#[derive(Clone, Copy, Debug, PartialEq, Eq, Structural)]
pub enum RelativePos {
    Above,
    Inside,
    Below,
}

/// A cell of the layer.
#[derive(Clone, Copy, Debug, PartialEq, Eq, Structural)]
pub struct CloudCell {
    pub present: bool,
    /// Whether the neighbours are empty; false for all in an empty cell.
    pub north_empty: bool,
    pub east_empty: bool,
    pub south_empty: bool,
    pub west_empty: bool,
}

/// The layer. It repeats in both directions.
pub struct CloudGrid {
    pub width: u32,
    pub height: u32,
    pub cells: Vec<CloudCell>,
}

impl CloudGrid {
    /// There is a cell for each place, row by row.
    pub open spec fn wf(self) -> bool {
        self.cells@.len() == self.width * self.height
    }

    /// The cell in column `gx` of row `gz`.
    pub open spec fn at(self, gx: int, gz: int) -> CloudCell {
        self.cells@[gx + gz * self.width]
    }

    /// The cell in column `gx` of row `gz`.
    pub fn cell(&self, gx: usize, gz: usize) -> (cell: &CloudCell)
        requires
            self.wf(),
            gx < self.width,
            gz < self.height,
        ensures
            *cell == self.at(gx as int, gz as int),
    {
        let total: usize = self.cells.len();
        assert(0 <= gz * self.width && gx + gz * self.width < self.width * self.height)
            by (nonlinear_arith)
            requires
                gx < self.width,
                gz < self.height,
        ;
        &self.cells[gx + gz * self.width as usize]
    }
}

/// Whether a texel, counted round the edges, is no cloud.
pub open spec fn is_empty_at(image: Image, x: int, y: int) -> bool {
    image.rgba@[byte_at(image.width as int, x % (image.width as int), y % (image.height as int), 3)]
        < 10
}

/// The cell of a texel.
pub open spec fn cell_of(image: Image, x: int, y: int) -> CloudCell {
    if is_empty_at(image, x, y) {
        CloudCell {
            present: false,
            north_empty: false,
            east_empty: false,
            south_empty: false,
            west_empty: false,
        }
    } else {
        CloudCell {
            present: true,
            north_empty: is_empty_at(image, x, y - 1),
            east_empty: is_empty_at(image, x + 1, y),
            south_empty: is_empty_at(image, x, y + 1),
            west_empty: is_empty_at(image, x - 1, y),
        }
    }
}

/// Whether a grid is that of a picture.
pub open spec fn is_grid_of(grid: CloudGrid, image: Image) -> bool {
    &&& grid.wf()
    &&& grid.width == image.width
    &&& grid.height == image.height
    &&& forall|x: int, y: int|
        0 <= x < image.width && 0 <= y < image.height ==> #[trigger] grid.at(x, y) == cell_of(
            image,
            x,
            y,
        )
}

/// Whether a texel is no cloud.
fn is_empty(image: &Image, x: u32, y: u32) -> (empty: bool)
    requires
        image.wf(),
        x < image.width,
        y < image.height,
    ensures
        empty == is_empty_at(*image, x as int, y as int),
{
    let total: usize = image.rgba.len();
    assert(0 <= y * image.width + x && byte_at(image.width as int, x as int, y as int, 3)
        < image.width * image.height * 4) by (nonlinear_arith)
        requires
            x < image.width,
            y < image.height,
            byte_at(image.width as int, x as int, y as int, 3) == (y * image.width + x) * 4 + 3,
    ;
    assert(x as int % image.width as int == x && y as int % image.height as int == y)
        by (nonlinear_arith)
        requires
            x < image.width,
            y < image.height,
    ;
    assert(0 <= y * image.width) by (nonlinear_arith);
    image.rgba[(y as usize * image.width as usize + x as usize) * 4 + 3] < CLOUD_ALPHA
}

/// The place before `i` in a ring of `n`.
fn before(i: u32, n: u32) -> (j: u32)
    requires
        i < n,
    ensures
        j < n,
        j == (i - 1) % n as int,
{
    if i == 0 {
        assert((0 - 1) % n as int == n - 1) by (nonlinear_arith)
            requires
                n >= 1,
        ;
        n - 1
    } else {
        assert((i - 1) % n as int == i - 1) by (nonlinear_arith)
            requires
                1 <= i < n,
        ;
        i - 1
    }
}

/// The place after `i` in a ring of `n`.
fn after(i: u32, n: u32) -> (j: u32)
    requires
        i < n,
    ensures
        j < n,
        j == (i + 1) % n as int,
{
    if i == n - 1 {
        assert(n as int % n as int == 0) by (nonlinear_arith)
            requires
                n >= 1,
        ;
        0
    } else {
        assert((i + 1) % n as int == i + 1) by (nonlinear_arith)
            requires
                i + 1 < n,
        ;
        i + 1
    }
}

proof fn wrapped_again(image: Image, x: int, y: int)
    requires
        image.width > 0,
        image.height > 0,
    ensures
        is_empty_at(image, x % (image.width as int), y % (image.height as int)) == is_empty_at(
            image,
            x,
            y,
        ),
{
    let (w, h) = (image.width as int, image.height as int);
    assert(x % w % w == x % w && y % h % h == y % h) by (nonlinear_arith)
        requires
            w > 0,
            h > 0,
    ;
}

/// The cell of a texel.
fn texel_cell(image: &Image, x: u32, y: u32) -> (cell: CloudCell)
    requires
        image.wf(),
        x < image.width,
        y < image.height,
    ensures
        cell == cell_of(*image, x as int, y as int),
{
    if is_empty(image, x, y) {
        return CloudCell {
            present: false,
            north_empty: false,
            east_empty: false,
            south_empty: false,
            west_empty: false,
        };
    }
    proof {
        wrapped_again(*image, x as int, y - 1);
        wrapped_again(*image, x + 1, y as int);
        wrapped_again(*image, x as int, y + 1);
        wrapped_again(*image, x - 1, y as int);
        assert(x as int % image.width as int == x && y as int % image.height as int == y)
            by (nonlinear_arith)
            requires
                x < image.width,
                y < image.height,
        ;
    }
    CloudCell {
        present: true,
        north_empty: is_empty(image, x, before(y, image.height)),
        east_empty: is_empty(image, after(x, image.width), y),
        south_empty: is_empty(image, x, after(y, image.height)),
        west_empty: is_empty(image, before(x, image.width), y),
    }
}

/// The grid of a picture.
pub fn cloud_grid(image: &Image) -> (grid: CloudGrid)
    requires
        image.wf(),
    ensures
        is_grid_of(grid, *image),
{
    let mut cells: Vec<CloudCell> = Vec::new();
    let (width, height): (u32, u32) = (image.width, image.height);
    let mut y: u32 = 0;
    assert(0 * width == 0);
    while y < height
        invariant
            image.wf(),
            width == image.width,
            height == image.height,
            y <= height,
            cells@.len() == y * width,
            forall|i: int|
                0 <= i < cells@.len() ==> #[trigger] cells@[i] == cell_of(
                    *image,
                    i % width as int,
                    i / width as int,
                ),
        decreases height - y,
    {
        let mut x: u32 = 0;
        while x < width
            invariant
                image.wf(),
                width == image.width,
                height == image.height,
                x <= width,
                y < height,
                cells@.len() == y * width + x,
                forall|i: int|
                    0 <= i < cells@.len() ==> #[trigger] cells@[i] == cell_of(
                        *image,
                        i % width as int,
                        i / width as int,
                    ),
            decreases width - x,
        {
            proof {
                vstd::arithmetic::div_mod::lemma_fundamental_div_mod_converse(
                    y * width + x,
                    width as int,
                    y as int,
                    x as int,
                );
            }
            cells.push(texel_cell(image, x, y));
            x = x + 1;
        }
        y = y + 1;
        assert(y * width == (y - 1) * width + width) by (nonlinear_arith);
    }
    assert(height * width == width * height) by (nonlinear_arith);
    let grid = CloudGrid { width, height, cells };
    proof {
        assert forall|u: int, v: int|
            0 <= u < image.width && 0 <= v < image.height implies #[trigger] grid.at(u, v)
            == cell_of(*image, u, v) by {
            assert(0 <= v * width && u + v * width < width * height) by (nonlinear_arith)
                requires
                    0 <= u < width,
                    0 <= v < height,
            ;
            vstd::arithmetic::div_mod::lemma_fundamental_div_mod_converse(
                u + v * width,
                width as int,
                v,
                u,
            );
        }
    }
    grid
}

/// Whether a grid is that of the picture in a file.
pub open spec fn is_grid_of_file(grid: CloudGrid, file: Seq<u8>) -> bool {
    exists|image: Image| #[trigger] is_grid_of(grid, image) && is_decoded(file, Some(image))
}

/// The grid of a picture file, where it can be read.
pub fn load_cloud_grid(file: &Vec<u8>) -> (grid: Option<CloudGrid>)
    ensures
        match grid {
            Some(g) => is_grid_of_file(g, file@),
            None => is_decoded(file@, None),
        },
{
    match decode_image(file) {
        Some(image) => {
            let layer = cloud_grid(&image);
            assert(is_grid_of(layer, image) && is_decoded(file@, Some(image)));
            assert(is_grid_of_file(layer, file@));
            Some(layer)
        },
        None => None,
    }
}

/// The neighbours of a cell agree with it: a cloud cell counts its neighbour
/// empty exactly where that is no cloud, round the edges too.
pub proof fn neighbours_agree(grid: CloudGrid, image: Image, x: int, y: int)
    requires
        image.wf(),
        is_grid_of(grid, image),
        0 <= x < image.width,
        0 <= y < image.height,
        grid.at(x, y).present,
    ensures
        grid.at(x, y).north_empty == !grid.at(x, (y - 1) % (image.height as int)).present,
        grid.at(x, y).south_empty == !grid.at(x, (y + 1) % (image.height as int)).present,
        grid.at(x, y).west_empty == !grid.at((x - 1) % (image.width as int), y).present,
        grid.at(x, y).east_empty == !grid.at((x + 1) % (image.width as int), y).present,
{
    wrapped_again(image, x, y - 1);
    wrapped_again(image, x + 1, y);
    wrapped_again(image, x, y + 1);
    wrapped_again(image, x - 1, y);
    let (w, h) = (image.width as int, image.height as int);
    assert(x % w == x && y % h == y) by (nonlinear_arith)
        requires
            0 <= x < w,
            0 <= y < h,
    ;
    assert(grid.at(x, y) == cell_of(image, x, y));
    assert(grid.at(x, (y - 1) % h) == cell_of(image, x, (y - 1) % h));
    assert(grid.at(x, (y + 1) % h) == cell_of(image, x, (y + 1) % h));
    assert(grid.at((x - 1) % w, y) == cell_of(image, (x - 1) % w, y));
    assert(grid.at((x + 1) % w, y) == cell_of(image, (x + 1) % w, y));
}

/// The distance of a number from 0.
pub open spec fn magnitude(n: int) -> int {
    if n < 0 {
        -n
    } else {
        n
    }
}

/// A face of the cell at an offset from the centre.
pub open spec fn face(rcx: int, rcz: int, dir: u8, flags: u8) -> CloudFace {
    CloudFace { cell_x: rcx as i16, cell_z: rcz as i16, dir, flags }
}

/// A face that is there if `present`.
pub open spec fn face_if(present: bool, rcx: int, rcz: int, dir: u8) -> Seq<CloudFace> {
    if present {
        seq![face(rcx, rcz, dir, 0)]
    } else {
        Seq::empty()
    }
}

/// The face of a flat cell: from below, in the brightest shade.
pub open spec fn flat_faces(rcx: int, rcz: int) -> Seq<CloudFace> {
    seq![face(rcx, rcz, DIR_DOWN, FLAG_USE_TOP_COLOR)]
}

/// The faces of a cell that is a box. The nine cells round the centre have all
/// of them; the others have those of top and bottom that the camera can see, and
/// the sides towards the centre that no neighbour hides.
pub open spec fn extruded_faces(rcx: int, rcz: int, cell: CloudCell, rel: RelativePos) -> Seq<
    CloudFace,
> {
    let interior = magnitude(rcx) <= 1 && magnitude(rcz) <= 1;
    face_if(interior || rel != RelativePos::Below, rcx, rcz, DIR_UP) + face_if(
        interior || rel != RelativePos::Above,
        rcx,
        rcz,
        DIR_DOWN,
    ) + face_if(interior || (cell.north_empty && rcz > 0), rcx, rcz, DIR_NORTH) + face_if(
        interior || (cell.south_empty && rcz < 0),
        rcx,
        rcz,
        DIR_SOUTH,
    ) + face_if(interior || (cell.west_empty && rcx > 0), rcx, rcz, DIR_WEST) + face_if(
        interior || (cell.east_empty && rcx < 0),
        rcx,
        rcz,
        DIR_EAST,
    )
}

/// Adds a face.
pub fn emit_face(faces: &mut Vec<CloudFace>, rcx: i32, rcz: i32, dir: u8, flags: u8)
    requires
        -0x8000 <= rcx < 0x8000,
        -0x8000 <= rcz < 0x8000,
    ensures
        final(faces)@ == old(faces)@.push(face(rcx as int, rcz as int, dir, flags)),
{
    faces.push(CloudFace { cell_x: rcx as i16, cell_z: rcz as i16, dir, flags });
}

fn emit_face_if(faces: &mut Vec<CloudFace>, present: bool, rcx: i32, rcz: i32, dir: u8)
    requires
        -0x8000 <= rcx < 0x8000,
        -0x8000 <= rcz < 0x8000,
    ensures
        final(faces)@ == old(faces)@ + face_if(present, rcx as int, rcz as int, dir),
{
    let ghost was = faces@;
    if present {
        emit_face(faces, rcx, rcz, dir, 0);
    }
    assert(faces@ =~= was + face_if(present, rcx as int, rcz as int, dir));
}

/// Adds the face of a flat cell.
pub fn build_flat_cell(faces: &mut Vec<CloudFace>, rcx: i32, rcz: i32)
    requires
        -0x8000 <= rcx < 0x8000,
        -0x8000 <= rcz < 0x8000,
    ensures
        final(faces)@ == old(faces)@ + flat_faces(rcx as int, rcz as int),
{
    let ghost was = faces@;
    emit_face(faces, rcx, rcz, DIR_DOWN, FLAG_USE_TOP_COLOR);
    assert(faces@ =~= was + flat_faces(rcx as int, rcz as int));
}

/// Adds the faces of a cell that is a box.
pub fn build_extruded_cell(
    faces: &mut Vec<CloudFace>,
    rcx: i32,
    rcz: i32,
    cell: &CloudCell,
    rel: RelativePos,
)
    requires
        -0x8000 <= rcx < 0x8000,
        -0x8000 <= rcz < 0x8000,
    ensures
        final(faces)@ == old(faces)@ + extruded_faces(rcx as int, rcz as int, *cell, rel),
{
    let ghost was = faces@;
    let interior: bool = -1 <= rcx && rcx <= 1 && -1 <= rcz && rcz <= 1;
    let (up, down): (bool, bool) = (
        interior || rel != RelativePos::Below,
        interior || rel != RelativePos::Above,
    );
    let (north, south): (bool, bool) = (
        interior || (cell.north_empty && rcz > 0),
        interior || (cell.south_empty && rcz < 0),
    );
    let (west, east): (bool, bool) = (
        interior || (cell.west_empty && rcx > 0),
        interior || (cell.east_empty && rcx < 0),
    );
    emit_two(faces, up, DIR_UP, down, DIR_DOWN, rcx, rcz);
    emit_two(faces, north, DIR_NORTH, south, DIR_SOUTH, rcx, rcz);
    emit_two(faces, west, DIR_WEST, east, DIR_EAST, rcx, rcz);
    proof {
        let (x, z) = (rcx as int, rcz as int);
        join_six(
            was,
            face_if(up, x, z, DIR_UP),
            face_if(down, x, z, DIR_DOWN),
            face_if(north, x, z, DIR_NORTH),
            face_if(south, x, z, DIR_SOUTH),
            face_if(west, x, z, DIR_WEST),
            face_if(east, x, z, DIR_EAST),
        );
    }
}

fn emit_two(
    faces: &mut Vec<CloudFace>,
    first: bool,
    first_dir: u8,
    second: bool,
    second_dir: u8,
    rcx: i32,
    rcz: i32,
)
    requires
        -0x8000 <= rcx < 0x8000,
        -0x8000 <= rcz < 0x8000,
    ensures
        final(faces)@ == old(faces)@ + face_if(first, rcx as int, rcz as int, first_dir) + face_if(
            second,
            rcx as int,
            rcz as int,
            second_dir,
        ),
{
    emit_face_if(faces, first, rcx, rcz, first_dir);
    emit_face_if(faces, second, rcx, rcz, second_dir);
}

/// The side of a box that the camera cannot see is not drawn, but round the
/// centre.
pub proof fn hidden_sides_are_left_out(
    rcx: int,
    rcz: int,
    cell: CloudCell,
    rel: RelativePos,
    i: int,
)
    requires
        magnitude(rcx) > 1 || magnitude(rcz) > 1,
        0 <= i < extruded_faces(rcx, rcz, cell, rel).len(),
    ensures
        rel == RelativePos::Above ==> extruded_faces(rcx, rcz, cell, rel)[i].dir != DIR_DOWN,
        rel == RelativePos::Below ==> extruded_faces(rcx, rcz, cell, rel)[i].dir != DIR_UP,
        extruded_faces(rcx, rcz, cell, rel).len() <= 4,
{
}

/// The cells of the disc in a column, `rcz` from the centre.
pub open spec fn column_cells(rcx: int, rcz: int) -> Seq<(int, int)> {
    if !(0 <= rcz <= 80) || rcx * rcx + rcz * rcz > 6400 {
        Seq::empty()
    } else if rcz == 0 {
        seq![(rcx, 0)]
    } else {
        seq![(rcx, -rcz), (rcx, rcz)]
    }
}

/// The cells of the first `n` columns of a ring round the centre.
pub open spec fn ring_walk(ring: int, n: nat) -> Seq<(int, int)>
    decreases n,
{
    if n == 0 {
        Seq::empty()
    } else {
        let rcx = n - 1 - ring;
        ring_walk(ring, (n - 1) as nat) + column_cells(rcx, ring - magnitude(rcx))
    }
}

/// The cells of the first rings, from the centre outwards.
pub open spec fn disc_walk(rings: nat) -> Seq<(int, int)>
    decreases rings,
{
    if rings == 0 {
        Seq::empty()
    } else {
        disc_walk((rings - 1) as nat) + ring_walk(rings - 1, (2 * (rings - 1) + 1) as nat)
    }
}

proof fn ring_walk_covers(ring: int, n: nat)
    requires
        0 <= ring,
        n <= 2 * ring + 1,
    ensures
        forall|x: int, z: int| #[trigger]
            ring_walk(ring, n).contains((x, z)) <==> (x * x + z * z <= 6400 && magnitude(x)
                + magnitude(z) == ring && x < n - ring),
        ring_walk(ring, n).no_duplicates(),
    decreases n,
{
    if n > 0 {
        ring_walk_covers(ring, (n - 1) as nat);
        let rcx = n - 1 - ring;
        let rcz = ring - magnitude(rcx);
        let (a, b) = (ring_walk(ring, (n - 1) as nat), column_cells(rcx, rcz));
        let all = a + b;
        assert(rcz * rcz == (-rcz) * (-rcz)) by (nonlinear_arith);
        assert forall|x: int, z: int| #[trigger]
            all.contains((x, z)) <==> (x * x + z * z <= 6400 && magnitude(x) + magnitude(z) == ring
                && x < n - ring) by {
            if a.contains((x, z)) {
                let i = choose|i: int| 0 <= i < a.len() && a[i] == (x, z);
                assert(all[i] == (x, z));
            }
            if b.contains((x, z)) {
                let i = choose|i: int| 0 <= i < b.len() && b[i] == (x, z);
                assert(all[a.len() + i] == (x, z));
            }
            if x * x + z * z <= 6400 && magnitude(x) + magnitude(z) == ring && x == rcx {
                assert(z == rcz || z == -rcz);
                assert(rcz <= 80) by (nonlinear_arith)
                    requires
                        rcx * rcx + rcz * rcz <= 6400,
                ;
                if rcz == 0 {
                    assert(b[0] == (x, z));
                } else if z == -rcz {
                    assert(b[0] == (x, z));
                } else {
                    assert(b[1] == (x, z));
                }
                assert(b.contains((x, z)));
            }
            if all.contains((x, z)) {
                let i = choose|i: int| 0 <= i < all.len() && all[i] == (x, z);
                if i < a.len() {
                    assert(a[i] == (x, z));
                    assert(a.contains((x, z)));
                }
            }
        }
        assert forall|i: int, j: int| 0 <= i < all.len() && 0 <= j < all.len() && i
            != j implies all[i] != all[j] by {
            if i < a.len() {
                assert(a.contains((a[i].0, a[i].1)));
            }
            if j < a.len() {
                assert(a.contains((a[j].0, a[j].1)));
            }
        }
    }
}

proof fn disc_walk_covers(rings: nat)
    ensures
        forall|x: int, z: int| #[trigger]
            disc_walk(rings).contains((x, z)) <==> (x * x + z * z <= 6400 && magnitude(x)
                + magnitude(z) < rings),
        disc_walk(rings).no_duplicates(),
        forall|i: int, j: int|
            0 <= i < j < disc_walk(rings).len() ==> magnitude((#[trigger] disc_walk(rings)[i]).0)
                + magnitude(disc_walk(rings)[i].1) <= magnitude((#[trigger] disc_walk(rings)[j]).0)
                + magnitude(disc_walk(rings)[j].1),
    decreases rings,
{
    if rings > 0 {
        disc_walk_covers((rings - 1) as nat);
        ring_walk_covers(rings - 1, (2 * (rings - 1) + 1) as nat);
        let (a, b) = (
            disc_walk((rings - 1) as nat),
            ring_walk(rings - 1, (2 * (rings - 1) + 1) as nat),
        );
        let all = a + b;
        assert forall|x: int, z: int| #[trigger]
            all.contains((x, z)) <==> (x * x + z * z <= 6400 && magnitude(x) + magnitude(z)
                < rings) by {
            if a.contains((x, z)) {
                let i = choose|i: int| 0 <= i < a.len() && a[i] == (x, z);
                assert(all[i] == (x, z));
            }
            if b.contains((x, z)) {
                let i = choose|i: int| 0 <= i < b.len() && b[i] == (x, z);
                assert(all[a.len() + i] == (x, z));
            }
            if all.contains((x, z)) {
                let i = choose|i: int| 0 <= i < all.len() && all[i] == (x, z);
                if i < a.len() {
                    assert(a[i] == (x, z));
                    assert(a.contains((x, z)));
                } else {
                    assert(b[i - a.len()] == (x, z));
                    assert(b.contains((x, z)));
                }
            }
        }
        assert forall|i: int| 0 <= i < a.len() implies magnitude((#[trigger] a[i]).0) + magnitude(
            a[i].1,
        ) < rings - 1 by {
            assert(a.contains((a[i].0, a[i].1)));
        }
        assert forall|i: int| 0 <= i < b.len() implies magnitude((#[trigger] b[i]).0) + magnitude(
            b[i].1,
        ) == rings - 1 by {
            assert(b.contains((b[i].0, b[i].1)));
        }
        assert forall|i: int, j: int| 0 <= i < all.len() && 0 <= j < all.len() && i
            != j implies all[i] != all[j] by {
            if i < a.len() && j >= a.len() {
                assert(all[j] == b[j - a.len()]);
            } else if j < a.len() && i >= a.len() {
                assert(all[i] == b[i - a.len()]);
            } else if i >= a.len() && j >= a.len() {
                assert(all[i] == b[i - a.len()] && all[j] == b[j - a.len()]);
            }
        }
        assert forall|i: int, j: int| 0 <= i < j < all.len() implies magnitude(
            (#[trigger] all[i]).0,
        ) + magnitude(all[i].1) <= magnitude((#[trigger] all[j]).0) + magnitude(all[j].1) by {
            if j >= a.len() {
                assert(all[j] == b[j - a.len()]);
            }
            if i >= a.len() {
                assert(all[i] == b[i - a.len()]);
            }
        }
    }
}

/// The walk visits every cell of the disc, and each once.
pub proof fn disc_is_walked_once(x: int, z: int)
    ensures
        disc_walk(161).contains((x, z)) <==> x * x + z * z <= 6400,
        disc_walk(161).no_duplicates(),
{
    disc_walk_covers(161);
    if x * x + z * z <= 6400 {
        assert(magnitude(x) <= 80 && magnitude(z) <= 80) by {
            let (a, b) = (magnitude(x), magnitude(z));
            assert(a * a == x * x && b * b == z * z) by (nonlinear_arith)
                requires
                    a == x || a == -x,
                    b == z || b == -z,
            ;
            assert(a <= 80 && b <= 80) by (nonlinear_arith)
                requires
                    a * a + b * b <= 6400,
                    a >= 0,
                    b >= 0,
            ;
        }
    }
    assert(disc_walk(161).contains((x, z)) <==> (x * x + z * z <= 6400 && magnitude(x) + magnitude(
        z,
    ) < 161));
}

/// The walk goes outwards: no cell comes before one that is nearer to the centre,
/// counted in steps along the axes.
pub proof fn nearer_cells_come_first(i: int, j: int)
    requires
        0 <= i < j < disc_walk(161).len(),
    ensures
        magnitude(disc_walk(161)[i].0) + magnitude(disc_walk(161)[i].1) <= magnitude(
            disc_walk(161)[j].0,
        ) + magnitude(disc_walk(161)[j].1),
{
    disc_walk_covers(161);
}

/// What is drawn of a cell at an offset from the centre.
pub open spec fn cell_faces(
    grid: CloudGrid,
    centre: (int, int),
    offset: (int, int),
    fancy: bool,
    rel: RelativePos,
) -> Seq<CloudFace> {
    let cell = grid.at(
        (centre.0 + offset.0) % (grid.width as int),
        (centre.1 + offset.1) % (grid.height as int),
    );
    if !cell.present {
        Seq::empty()
    } else if fancy {
        extruded_faces(offset.0, offset.1, cell, rel)
    } else {
        flat_faces(offset.0, offset.1)
    }
}

/// What is drawn of some cells, in their order.
pub open spec fn mesh(
    grid: CloudGrid,
    centre: (int, int),
    cells: Seq<(int, int)>,
    fancy: bool,
    rel: RelativePos,
) -> Seq<CloudFace>
    decreases cells.len(),
{
    if cells.len() == 0 {
        Seq::empty()
    } else {
        mesh(grid, centre, cells.drop_last(), fancy, rel) + cell_faces(
            grid,
            centre,
            cells.last(),
            fancy,
            rel,
        )
    }
}

proof fn mesh_of_one(
    grid: CloudGrid,
    centre: (int, int),
    cell: (int, int),
    fancy: bool,
    rel: RelativePos,
)
    ensures
        mesh(grid, centre, seq![cell], fancy, rel) == cell_faces(grid, centre, cell, fancy, rel),
{
    let none = Seq::<(int, int)>::empty();
    assert(seq![cell].drop_last() =~= none);
    assert(mesh(grid, centre, none, fancy, rel) =~= Seq::empty());
    assert(mesh(grid, centre, seq![cell], fancy, rel) =~= cell_faces(
        grid,
        centre,
        cell,
        fancy,
        rel,
    ));
}

proof fn mesh_of_both(
    grid: CloudGrid,
    centre: (int, int),
    a: Seq<(int, int)>,
    b: Seq<(int, int)>,
    fancy: bool,
    rel: RelativePos,
)
    ensures
        mesh(grid, centre, a + b, fancy, rel) == mesh(grid, centre, a, fancy, rel) + mesh(
            grid,
            centre,
            b,
            fancy,
            rel,
        ),
    decreases b.len(),
{
    if b.len() == 0 {
        assert(a + b =~= a);
    } else {
        mesh_of_both(grid, centre, a, b.drop_last(), fancy, rel);
        assert((a + b).drop_last() =~= a + b.drop_last());
    }
}

/// The picture that the clouds show: the faces of the disc, as many as there is
/// room for.
pub open spec fn cloud_mesh(
    grid: CloudGrid,
    centre: (int, int),
    fancy: bool,
    rel: RelativePos,
) -> Seq<CloudFace> {
    let all = mesh(grid, centre, disc_walk(161), fancy, rel);
    if all.len() > 52542 {
        all.take(52542)
    } else {
        all
    }
}

/// The cell at an offset from the centre.
spec fn cell_at(grid: CloudGrid, centre: (int, int), offset: (int, int)) -> CloudCell {
    grid.at(
        (centre.0 + offset.0) % (grid.width as int),
        (centre.1 + offset.1) % (grid.height as int),
    )
}

/// What is counted of cells.
enum Kind {
    Present,
    North,
    South,
    West,
    East,
    Interior,
}

/// Whether a cell is of a kind: whether it is there, whether one of its sides
/// that face the centre is bare, whether it is one of the nine round the centre.
spec fn is_kind(grid: CloudGrid, centre: (int, int), kind: Kind, c: (int, int)) -> bool {
    let cell = cell_at(grid, centre, c);
    match kind {
        Kind::Present => cell.present,
        Kind::North => cell.present && cell.north_empty && c.1 > 0,
        Kind::South => cell.present && cell.south_empty && c.1 < 0,
        Kind::West => cell.present && cell.west_empty && c.0 > 0,
        Kind::East => cell.present && cell.east_empty && c.0 < 0,
        Kind::Interior => magnitude(c.0) <= 1 && magnitude(c.1) <= 1,
    }
}

/// The cells of a kind.
spec fn of_kind(
    grid: CloudGrid,
    centre: (int, int),
    cells: Set<(int, int)>,
    kind: Kind,
) -> Set<(int, int)> {
    cells.filter(|c: (int, int)| is_kind(grid, centre, kind, c))
}

proof fn one_more_cell(
    grid: CloudGrid,
    centre: (int, int),
    cells: Set<(int, int)>,
    kind: Kind,
    c: (int, int),
)
    requires
        cells.finite(),
        !cells.contains(c),
    ensures
        of_kind(grid, centre, cells.insert(c), kind).len() == of_kind(
            grid,
            centre,
            cells,
            kind,
        ).len() + if is_kind(grid, centre, kind, c) {
            1nat
        } else {
            0nat
        },
{
    let (was, now) = (
        of_kind(grid, centre, cells, kind),
        of_kind(grid, centre, cells.insert(c), kind),
    );
    lemma_len_subset(was, cells);
    if is_kind(grid, centre, kind, c) {
        assert(now =~= was.insert(c));
    } else {
        assert(now =~= was);
    }
}

proof fn faces_are_counted(
    grid: CloudGrid,
    centre: (int, int),
    cells: Seq<(int, int)>,
    fancy: bool,
    rel: RelativePos,
)
    requires
        cells.no_duplicates(),
    ensures
        ({
            let v = cells.to_set();
            mesh(grid, centre, cells, fancy, rel).len() <= 2 * of_kind(
                grid,
                centre,
                v,
                Kind::Present,
            ).len() + of_kind(grid, centre, v, Kind::North).len() + of_kind(
                grid,
                centre,
                v,
                Kind::South,
            ).len() + of_kind(grid, centre, v, Kind::West).len() + of_kind(
                grid,
                centre,
                v,
                Kind::East,
            ).len() + 6 * of_kind(grid, centre, v, Kind::Interior).len()
        }),
    decreases cells.len(),
{
    if cells.len() > 0 {
        let (rest, c) = (cells.drop_last(), cells.last());
        faces_are_counted(grid, centre, rest, fancy, rel);
        assert(rest.to_set().insert(c) =~= cells.to_set()) by {
            assert forall|e: (int, int)| cells.to_set().contains(e) implies rest.to_set().insert(
                c,
            ).contains(e) by {
                let i = choose|i: int| 0 <= i < cells.len() && cells[i] == e;
                if i < rest.len() {
                    assert(rest[i] == e);
                }
            }
            assert forall|e: (int, int)| rest.to_set().insert(c).contains(
                e,
            ) implies cells.to_set().contains(e) by {
                if e == c {
                    assert(cells[cells.len() - 1] == e);
                } else {
                    let i = choose|i: int| 0 <= i < rest.len() && rest[i] == e;
                    assert(cells[i] == e);
                }
            }
        }
        assert(!rest.to_set().contains(c)) by {
            if rest.contains(c) {
                let i = choose|i: int| 0 <= i < rest.len() && rest[i] == c;
                assert(cells[i] == cells[cells.len() - 1]);
            }
        }
        seq_to_set_is_finite(rest);
        let v = rest.to_set();
        one_more_cell(grid, centre, v, Kind::Present, c);
        one_more_cell(grid, centre, v, Kind::North, c);
        one_more_cell(grid, centre, v, Kind::South, c);
        one_more_cell(grid, centre, v, Kind::West, c);
        one_more_cell(grid, centre, v, Kind::East, c);
        one_more_cell(grid, centre, v, Kind::Interior, c);
        assert(cell_at(grid, centre, c) == grid.at(
            (centre.0 + c.0) % (grid.width as int),
            (centre.1 + c.1) % (grid.height as int),
        ));
    }
}

/// The empty cells of a walk, of the half plane in which `side` times the
/// column, or the row, is not negative.
spec fn empty_beyond(
    grid: CloudGrid,
    centre: (int, int),
    cells: Set<(int, int)>,
    by_row: bool,
    side: int,
) -> Set<(int, int)> {
    cells.filter(
        |c: (int, int)|
            !is_kind(grid, centre, Kind::Present, c) && side * (if by_row {
                c.1
            } else {
                c.0
            }) >= 0,
    )
}

/// A set is no larger than one that holds it after a shift.
proof fn shifted_set_fits(a: Set<(int, int)>, b: Set<(int, int)>, dx: int, dz: int)
    requires
        a.finite(),
        b.finite(),
        forall|c: (int, int)| #[trigger] a.contains(c) ==> b.contains((c.0 + dx, c.1 + dz)),
    ensures
        a.len() <= b.len(),
{
    let f = |c: (int, int)| (c.0 + dx, c.1 + dz);
    lemma_map_size(a, a.map(f), f);
    lemma_len_subset(a.map(f), b);
}

/// A set is no larger than the numbers that its members can be given.
proof fn numbered_set_fits(a: Set<(int, int)>, f: spec_fn((int, int)) -> int, n: int)
    requires
        a.finite(),
        n >= 0,
        forall|c: (int, int)| #[trigger] a.contains(c) ==> 0 <= f(c) < n,
        forall|c: (int, int), d: (int, int)|
            #![trigger a.contains(c), a.contains(d)]
            a.contains(c) && a.contains(d) && f(c) == f(d) ==> c == d,
    ensures
        a.len() <= n,
{
    lemma_map_size(a, a.map(f), f);
    lemma_int_range(0, n);
    lemma_len_subset(a.map(f), set_int_range(0, n));
}

/// The cell that a bare side faces is empty.
proof fn bare_sides_face_empty_cells(
    grid: CloudGrid,
    image: Image,
    centre: (int, int),
    x: int,
    z: int,
)
    requires
        image.wf(),
        image.width > 0,
        image.height > 0,
        is_grid_of(grid, image),
        cell_at(grid, centre, (x, z)).present,
    ensures
        ({
            let cell = cell_at(grid, centre, (x, z));
            &&& cell.north_empty ==> !cell_at(grid, centre, (x, z - 1)).present
            &&& cell.south_empty ==> !cell_at(grid, centre, (x, z + 1)).present
            &&& cell.west_empty ==> !cell_at(grid, centre, (x - 1, z)).present
            &&& cell.east_empty ==> !cell_at(grid, centre, (x + 1, z)).present
        }),
{
    let (w, h) = (grid.width as int, grid.height as int);
    let (gx, gz) = (centre.0 + x, centre.1 + z);
    lemma_mod_bound(gx, w);
    lemma_mod_bound(gz, h);
    neighbours_agree(grid, image, gx % w, gz % h);
    lemma_add_mod_noop_right(-1, gx, w);
    lemma_add_mod_noop_right(1, gx, w);
    lemma_add_mod_noop_right(-1, gz, h);
    lemma_add_mod_noop_right(1, gz, h);
}

/// The sides that face each other along one axis are no more than the empty
/// cells, and those of the axis across once more.
proof fn bare_sides_are_few(
    grid: CloudGrid,
    image: Image,
    centre: (int, int),
    by_row: bool,
)
    requires
        image.wf(),
        image.width > 0,
        image.height > 0,
        is_grid_of(grid, image),
    ensures
        ({
            let v = disc_walk(161).to_set();
            let (first, second) = if by_row {
                (Kind::North, Kind::South)
            } else {
                (Kind::West, Kind::East)
            };
            of_kind(grid, centre, v, first).len() + of_kind(grid, centre, v, second).len()
                <= v.len() - of_kind(grid, centre, v, Kind::Present).len() + 161
        }),
{
    let v = disc_walk(161).to_set();
    seq_to_set_is_finite(disc_walk(161));
    let (first, second) = if by_row {
        (Kind::North, Kind::South)
    } else {
        (Kind::West, Kind::East)
    };
    let (a, b) = (of_kind(grid, centre, v, first), of_kind(grid, centre, v, second));
    let (more, less) = (
        empty_beyond(grid, centre, v, by_row, 1),
        empty_beyond(grid, centre, v, by_row, -1),
    );
    let there = of_kind(grid, centre, v, Kind::Present);
    lemma_len_subset(a, v);
    lemma_len_subset(b, v);
    lemma_len_subset(more, v);
    lemma_len_subset(less, v);
    lemma_len_subset(there, v);
    let (dx, dz) = if by_row {
        (0int, -1int)
    } else {
        (-1int, 0int)
    };
    assert forall|c: (int, int)| #[trigger] a.contains(c) implies more.contains(
        (c.0 + dx, c.1 + dz),
    ) by {
        bare_sides_face_empty_cells(grid, image, centre, c.0, c.1);
        disc_is_walked_once(c.0, c.1);
        disc_is_walked_once(c.0 + dx, c.1 + dz);
        nearer_is_inside(c.0, c.1);
    }
    assert forall|c: (int, int)| #[trigger] b.contains(c) implies less.contains(
        (c.0 - dx, c.1 - dz),
    ) by {
        bare_sides_face_empty_cells(grid, image, centre, c.0, c.1);
        disc_is_walked_once(c.0, c.1);
        disc_is_walked_once(c.0 - dx, c.1 - dz);
        nearer_is_inside(c.0, c.1);
    }
    shifted_set_fits(a, more, dx, dz);
    shifted_set_fits(b, less, -dx, -dz);
    lemma_set_intersect_union_lens(more, less);
    let (both, either) = (more.intersect(less), more + less);
    assert(either.disjoint(there));
    lemma_set_disjoint_lens(either, there);
    lemma_len_subset(either + there, v);
    let f = |c: (int, int)|
        80 + if by_row {
            c.0
        } else {
            c.1
        };
    assert forall|c: (int, int)| #[trigger] both.contains(c) implies 0 <= f(c) < 161 by {
        walked_cells_are_near(c.0, c.1);
    }
    lemma_len_subset(both, v);
    numbered_set_fits(both, f, 161);
}

/// A cell of the disc that is not on an axis has its neighbours towards that axis
/// in the disc.
proof fn nearer_is_inside(x: int, z: int)
    requires
        x * x + z * z <= 6400,
    ensures
        x > 0 ==> (x - 1) * (x - 1) + z * z <= 6400,
        x < 0 ==> (x + 1) * (x + 1) + z * z <= 6400,
        z > 0 ==> x * x + (z - 1) * (z - 1) <= 6400,
        z < 0 ==> x * x + (z + 1) * (z + 1) <= 6400,
{
    assert((x - 1) * (x - 1) == x * x - 2 * x + 1) by (nonlinear_arith);
    assert((x + 1) * (x + 1) == x * x + 2 * x + 1) by (nonlinear_arith);
    assert((z - 1) * (z - 1) == z * z - 2 * z + 1) by (nonlinear_arith);
    assert((z + 1) * (z + 1) == z * z + 2 * z + 1) by (nonlinear_arith);
}

proof fn walked_cells_are_near(x: int, z: int)
    requires
        disc_walk(161).contains((x, z)),
    ensures
        -80 <= x <= 80,
        -80 <= z <= 80,
{
    disc_is_walked_once(x, z);
    assert(-80 <= x <= 80 && -80 <= z <= 80) by (nonlinear_arith)
        requires
            x * x + z * z <= 6400,
    ;
}

/// There is room for all faces of the clouds of a picture: none is cut off. Of
/// each cell that is there top and bottom may be drawn, and every empty cell
/// bares two sides at most, but for those on the axes and round the centre.
pub proof fn no_face_is_cut(
    grid: CloudGrid,
    image: Image,
    centre: (int, int),
    fancy: bool,
    rel: RelativePos,
)
    requires
        image.wf(),
        image.width > 0,
        image.height > 0,
        is_grid_of(grid, image),
    ensures
        mesh(grid, centre, disc_walk(161), fancy, rel).len() <= 52542,
        cloud_mesh(grid, centre, fancy, rel) == mesh(grid, centre, disc_walk(161), fancy, rel),
{
    let walk = disc_walk(161);
    let v = walk.to_set();
    disc_is_walked_once(0, 0);
    seq_to_set_is_finite(walk);
    faces_are_counted(grid, centre, walk, fancy, rel);
    bare_sides_are_few(grid, image, centre, true);
    bare_sides_are_few(grid, image, centre, false);
    let square = |c: (int, int)| (c.0 + 80) * 161 + (c.1 + 80);
    assert forall|c: (int, int)| #[trigger] v.contains(c) implies 0 <= square(c) < 25921 by {
        walked_cells_are_near(c.0, c.1);
    }
    assert forall|c: (int, int), d: (int, int)|
        #![trigger v.contains(c), v.contains(d)]
        v.contains(c) && v.contains(d) && square(c) == square(d) implies c == d by {
        walked_cells_are_near(c.0, c.1);
        walked_cells_are_near(d.0, d.1);
    }
    numbered_set_fits(v, square, 25921);
    let inner = of_kind(grid, centre, v, Kind::Interior);
    lemma_len_subset(inner, v);
    numbered_set_fits(inner, |c: (int, int)| (c.0 + 1) * 3 + (c.1 + 1), 9);
}

fn emit_cell(
    faces: &mut Vec<CloudFace>,
    grid: &CloudGrid,
    cell_x: i32,
    cell_z: i32,
    rcx: i32,
    rcz: i32,
    fancy: bool,
    rel: RelativePos,
)
    requires
        grid.wf(),
        grid.width > 0,
        grid.height > 0,
        -160 <= rcx <= 160,
        -160 <= rcz <= 160,
    ensures
        final(faces)@ == old(faces)@ + cell_faces(
            *grid,
            (cell_x as int, cell_z as int),
            (rcx as int, rcz as int),
            fancy,
            rel,
        ),
{
    let ghost was = faces@;
    let gx: i64 = (cell_x as i64 + rcx as i64).checked_rem_euclid(grid.width as i64).unwrap();
    let gz: i64 = (cell_z as i64 + rcz as i64).checked_rem_euclid(grid.height as i64).unwrap();
    let cell = grid.cell(gx as usize, gz as usize);
    if cell.present {
        if fancy {
            build_extruded_cell(faces, rcx, rcz, cell, rel);
        } else {
            build_flat_cell(faces, rcx, rcz);
        }
    } else {
        assert(faces@ =~= was + Seq::<CloudFace>::empty());
    }
}

/// What is drawn of the columns of a ring.
fn emit_column(
    faces: &mut Vec<CloudFace>,
    grid: &CloudGrid,
    cell_x: i32,
    cell_z: i32,
    rcx: i32,
    rcz: i32,
    fancy: bool,
    rel: RelativePos,
)
    requires
        grid.wf(),
        grid.width > 0,
        grid.height > 0,
        -160 <= rcx <= 160,
        -160 <= rcz <= 160,
    ensures
        final(faces)@ == old(faces)@ + mesh(
            *grid,
            (cell_x as int, cell_z as int),
            column_cells(rcx as int, rcz as int),
            fancy,
            rel,
        ),
{
    let ghost was = faces@;
    let ghost centre = (cell_x as int, cell_z as int);
    let ghost cells = column_cells(rcx as int, rcz as int);
    assert(0 <= rcx * rcx <= 25600 && 0 <= rcz * rcz <= 25600) by (nonlinear_arith)
        requires
            -160 <= rcx <= 160,
            -160 <= rcz <= 160,
    ;
    if rcz < 0 || rcz > RADIUS_CELLS || rcx * rcx + rcz * rcz > RADIUS_CELLS * RADIUS_CELLS {
        assert(faces@ =~= was + mesh(*grid, centre, cells, fancy, rel));
        return;
    }
    if rcz != 0 {
        emit_cell(faces, grid, cell_x, cell_z, rcx, -rcz, fancy, rel);
        emit_cell(faces, grid, cell_x, cell_z, rcx, rcz, fancy, rel);
        proof {
            let (up, down) = ((rcx as int, -rcz as int), (rcx as int, rcz as int));
            mesh_of_one(*grid, centre, up, fancy, rel);
            mesh_of_one(*grid, centre, down, fancy, rel);
            mesh_of_both(*grid, centre, seq![up], seq![down], fancy, rel);
            assert(cells =~= seq![up] + seq![down]);
        }
    } else {
        emit_cell(faces, grid, cell_x, cell_z, rcx, rcz, fancy, rel);
        proof {
            mesh_of_one(*grid, centre, (rcx as int, 0), fancy, rel);
        }
    }
    assert(faces@ =~= was + mesh(*grid, centre, cells, fancy, rel));
}

fn emit_ring(
    faces: &mut Vec<CloudFace>,
    grid: &CloudGrid,
    cell_x: i32,
    cell_z: i32,
    ring: i32,
    fancy: bool,
    rel: RelativePos,
)
    requires
        grid.wf(),
        grid.width > 0,
        grid.height > 0,
        0 <= ring <= 160,
    ensures
        final(faces)@ == old(faces)@ + mesh(
            *grid,
            (cell_x as int, cell_z as int),
            ring_walk(ring as int, (2 * ring + 1) as nat),
            fancy,
            rel,
        ),
{
    let ghost was = faces@;
    let ghost centre = (cell_x as int, cell_z as int);
    let mut rcx: i32 = -ring;
    assert(faces@ =~= was + mesh(*grid, centre, ring_walk(ring as int, 0), fancy, rel));
    while rcx <= ring
        invariant
            grid.wf(),
            grid.width > 0,
            grid.height > 0,
            0 <= ring <= 160,
            -ring <= rcx <= ring + 1,
            centre == (cell_x as int, cell_z as int),
            faces@ == was + mesh(
                *grid,
                centre,
                ring_walk(ring as int, (rcx + ring) as nat),
                fancy,
                rel,
            ),
        decreases ring + 1 - rcx,
    {
        let away: i32 = if rcx < 0 { -rcx } else { rcx };
        let ghost so_far = ring_walk(ring as int, (rcx + ring) as nat);
        emit_column(faces, grid, cell_x, cell_z, rcx, ring - away, fancy, rel);
        proof {
            let column = column_cells(rcx as int, ring - magnitude(rcx as int));
            assert(ring_walk(ring as int, (rcx + ring + 1) as nat) == so_far + column);
            mesh_of_both(*grid, centre, so_far, column, fancy, rel);
        }
        rcx = rcx + 1;
        assert(faces@ =~= was + mesh(
            *grid,
            centre,
            ring_walk(ring as int, (rcx + ring) as nat),
            fancy,
            rel,
        ));
    }
}

/// What is drawn of the clouds round a cell.
pub fn build_mesh(
    grid: &CloudGrid,
    cell_x: i32,
    cell_z: i32,
    mode: CloudMode,
    rel: RelativePos,
) -> (faces: Vec<CloudFace>)
    requires
        grid.wf(),
        grid.width > 0,
        grid.height > 0,
    ensures
        faces@ == cloud_mesh(
            *grid,
            (cell_x as int, cell_z as int),
            mode == CloudMode::Fancy,
            rel,
        ),
{
    let mut faces: Vec<CloudFace> = Vec::new();
    let fancy: bool = mode == CloudMode::Fancy;
    let ghost centre = (cell_x as int, cell_z as int);
    let mut ring: i32 = 0;
    assert(faces@ =~= mesh(*grid, centre, disc_walk(0), fancy, rel));
    while ring <= 2 * RADIUS_CELLS
        invariant
            grid.wf(),
            grid.width > 0,
            grid.height > 0,
            0 <= ring <= 161,
            centre == (cell_x as int, cell_z as int),
            faces@ == mesh(*grid, centre, disc_walk(ring as nat), fancy, rel),
        decreases 161 - ring,
    {
        emit_ring(&mut faces, grid, cell_x, cell_z, ring, fancy, rel);
        proof {
            mesh_of_both(
                *grid,
                centre,
                disc_walk(ring as nat),
                ring_walk(ring as int, (2 * ring + 1) as nat),
                fancy,
                rel,
            );
        }
        ring = ring + 1;
    }
    if faces.len() > MAX_FACES {
        faces.truncate(MAX_FACES);
    }
    faces
}

/// How many ticks the clouds have moved since they last stood as they are drawn.
pub fn scroll_ticks(game_time: i64, width: u32) -> (ticks: i64)
    requires
        width > 0,
    ensures
        ticks == game_time as int % (width * 400),
{
    game_time.checked_rem_euclid(width as i64 * 400).unwrap()
}

/// What the faces were built for.
#[derive(Clone, Copy, Debug, PartialEq, Eq, Structural)]
pub struct CloudView {
    pub cell_x: i32,
    pub cell_z: i32,
    pub mode: CloudMode,
    pub rel: RelativePos,
}

/// The faces, what they were built for, and which frames have not got them yet.
pub struct CloudMesh {
    pub faces: Vec<CloudFace>,
    pub built_for: Option<CloudView>,
    pub dirty: Vec<bool>,
}

/// What a frame draws.
#[derive(Clone, Copy, Debug, PartialEq, Eq, Structural)]
pub struct CloudDraw {
    /// Whether the frame's buffer is filled with the faces first.
    pub upload: bool,
    pub instances: usize,
}

impl CloudMesh {
    /// The faces are those of what they were built for.
    pub open spec fn fits(self, grid: CloudGrid) -> bool {
        self.built_for matches Some(view) ==> self.faces@ == cloud_mesh(
            grid,
            (view.cell_x as int, view.cell_z as int),
            view.mode == CloudMode::Fancy,
            view.rel,
        )
    }

    /// No faces yet, for a number of frames in flight.
    pub fn new(frames: usize) -> (mesh: CloudMesh)
        ensures
            mesh.built_for is None,
            mesh.faces@.len() == 0,
            mesh.dirty@ == Seq::new(frames as nat, |i: int| false),
    {
        let mut dirty: Vec<bool> = Vec::new();
        let mut i: usize = 0;
        while i < frames
            invariant
                i <= frames,
                dirty@ == Seq::new(i as nat, |k: int| false),
            decreases frames - i,
        {
            dirty.push(false);
            i = i + 1;
            assert(dirty@ =~= Seq::new(i as nat, |k: int| false));
        }
        CloudMesh { faces: Vec::new(), built_for: None, dirty }
    }

    fn mark_all(&mut self)
        ensures
            final(self).faces@ == old(self).faces@,
            final(self).built_for == old(self).built_for,
            final(self).dirty@ == Seq::new(old(self).dirty@.len(), |i: int| true),
    {
        let ghost before = *self;
        let mut i: usize = 0;
        while i < self.dirty.len()
            invariant
                i <= self.dirty@.len(),
                self.dirty@.len() == before.dirty@.len(),
                self.faces@ == before.faces@,
                self.built_for == before.built_for,
                forall|k: int| 0 <= k < i ==> #[trigger] self.dirty@[k],
            decreases self.dirty@.len() - i,
        {
            self.dirty.set(i, true);
            i = i + 1;
        }
        assert(self.dirty@ =~= Seq::new(before.dirty@.len(), |k: int| true));
    }

    /// Prepares a frame. The faces are built anew where the view has changed, and
    /// each frame's buffer gets them the next time it is drawn.
    pub fn update(&mut self, grid: &Option<CloudGrid>, frame: usize, view: CloudView) -> (draw:
        Option<CloudDraw>)
        requires
            frame < old(self).dirty@.len(),
            grid matches Some(g) ==> g.wf() && g.width > 0 && g.height > 0 && old(self).fits(*g),
        ensures
            final(self).dirty@.len() == old(self).dirty@.len(),
            (view.mode == CloudMode::Off || grid is None) ==> {
                &&& draw is None
                &&& *final(self) == *old(self)
            },
            (view.mode != CloudMode::Off && grid is Some) ==> {
                let rebuilt = old(self).built_for != Some(view);
                let was_dirty = rebuilt || old(self).dirty@[frame as int];
                &&& final(self).built_for == Some(view)
                &&& final(self).fits(grid->Some_0)
                &&& draw == (if final(self).faces@.len() == 0 {
                    None
                } else {
                    Some(CloudDraw { upload: was_dirty, instances: final(self).faces@.len() as usize })
                })
                &&& forall|i: int|
                    0 <= i < final(self).dirty@.len() ==> #[trigger] final(self).dirty@[i] == ((
                    rebuilt || old(self).dirty@[i]) && (i != frame || draw is None))
            },
    {
        if view.mode == CloudMode::Off {
            return None;
        }
        let layer = match grid {
            Some(layer) => layer,
            None => {
                return None;
            },
        };
        let same: bool = match self.built_for {
            Some(v) => v == view,
            None => false,
        };
        if !same {
            self.faces = build_mesh(layer, view.cell_x, view.cell_z, view.mode, view.rel);
            self.built_for = Some(view);
            self.mark_all();
        }
        let instances: usize = self.faces.len();
        if instances == 0 {
            return None;
        }
        let upload: bool = self.dirty[frame];
        if upload {
            self.dirty.set(frame, false);
        }
        Some(CloudDraw { upload, instances })
    }
}

} // verus!
