//! The book of the enchanting table.
//!
//! Lengths are two-hundredths of a pixel of the texture, in the model and in the
//! texture alike.

use crate::decode::{decode_image, is_decoded};
use crate::pixels::Image;
use crate::seqs::join_six;
use vstd::prelude::*;

verus! {

/// How many units a pixel has.
pub const UNITS_PER_PIXEL: i32 = 200;

/// The file of the texture.
pub const BOOK_TEXTURE: &'static str = "minecraft/textures/entity/enchantment/enchanting_table_book.png";

/// The width of the texture.
pub const TEXTURE_WIDTH: i32 = 12800;

/// The height of the texture.
pub const TEXTURE_HEIGHT: i32 = 6400;

/// A corner of the book.
#[derive(Clone, Copy, Debug, PartialEq, Eq, Structural)]
pub struct BookPoint {
    pub x: i32,
    pub y: i32,
    pub z: i32,
}

/// A vertex: a corner, and its place in the texture.
#[derive(Clone, Copy, Debug, PartialEq, Eq, Structural)]
pub struct BookVertex {
    pub at: BookPoint,
    pub u: i32,
    pub v: i32,
}

/// Two triangles; the texture's rectangle from `(u0, v0)` to `(u1, v1)` lies on
/// them from the second corner to the fourth.
pub open spec fn face(
    a: BookPoint,
    b: BookPoint,
    c: BookPoint,
    d: BookPoint,
    u0: int,
    v0: int,
    u1: int,
    v1: int,
) -> Seq<BookVertex> {
    let va = BookVertex { at: a, u: u1 as i32, v: v0 as i32 };
    let vb = BookVertex { at: b, u: u0 as i32, v: v0 as i32 };
    let vc = BookVertex { at: c, u: u0 as i32, v: v1 as i32 };
    let vd = BookVertex { at: d, u: u1 as i32, v: v1 as i32 };
    seq![va, vb, vc, va, vc, vd]
}

fn push_face(
    verts: &mut Vec<BookVertex>,
    a: BookPoint,
    b: BookPoint,
    c: BookPoint,
    d: BookPoint,
    u0: i32,
    v0: i32,
    u1: i32,
    v1: i32,
)
    ensures
        final(verts)@ == old(verts)@ + face(
            a,
            b,
            c,
            d,
            u0 as int,
            v0 as int,
            u1 as int,
            v1 as int,
        ),
{
    let ghost before = verts@;
    let va = BookVertex { at: a, u: u1, v: v0 };
    let vc = BookVertex { at: c, u: u0, v: v1 };
    verts.push(va);
    verts.push(BookVertex { at: b, u: u0, v: v0 });
    verts.push(vc);
    verts.push(va);
    verts.push(vc);
    verts.push(BookVertex { at: d, u: u1, v: v1 });
    assert(verts@ =~= before + face(
        a,
        b,
        c,
        d,
        u0 as int,
        v0 as int,
        u1 as int,
        v1 as int,
    ));
}

/// A part: where its sides are unfolded in the texture, its box, and how far it is
/// moved.
#[derive(Clone, Copy, Debug, PartialEq, Eq, Structural)]
pub struct PartBox {
    pub tx: i32,
    pub ty: i32,
    pub min: BookPoint,
    pub size: BookPoint,
    pub offset: BookPoint,
}

/// A point of three coordinates.
pub open spec fn point(x: int, y: int, z: int) -> BookPoint {
    BookPoint { x: x as i32, y: y as i32, z: z as i32 }
}

/// Whether a number can be held.
pub open spec fn held(n: int) -> bool {
    i32::MIN <= n <= i32::MAX
}

impl PartBox {
    /// The far corner and the places in the texture can be held.
    pub open spec fn fits(self) -> bool {
        let (w, h, d) = (self.size.x, self.size.y, self.size.z);
        &&& held(self.min.x + w)
        &&& held(self.min.y + h)
        &&& held(self.min.z + d)
        &&& held(self.tx + d)
        &&& held(self.tx + d + w)
        &&& held(self.tx + d + w + w)
        &&& held(self.tx + d + w + d)
        &&& held(self.tx + d + w + d + w)
        &&& held(self.ty + d)
        &&& held(self.ty + d + h)
    }

    /// The vertices: down, up, west, north, east and south.
    pub open spec fn vertices(self) -> Seq<BookVertex> {
        let (w, h, d) = (self.size.x, self.size.y, self.size.z);
        let (x0, y0, z0) = (self.min.x as int, self.min.y as int, self.min.z as int);
        let (x1, y1, z1) = (x0 + w, y0 + h, z0 + d);
        let (u0, u1, u2) = (self.tx as int, self.tx + d, self.tx + d + w);
        let (u22, u3, u4) = (
            self.tx + d + w + w,
            self.tx + d + w + d,
            self.tx + d + w + d + w,
        );
        let (v0, v1, v2) = (self.ty as int, self.ty + d, self.ty + d + h);
        face(
            point(x1, y0, z1),
            point(x0, y0, z1),
            point(x0, y0, z0),
            point(x1, y0, z0),
            u1,
            v0,
            u2,
            v1,
        ) + face(
            point(x1, y1, z0),
            point(x0, y1, z0),
            point(x0, y1, z1),
            point(x1, y1, z1),
            u2,
            v1,
            u22,
            v0,
        ) + face(
            point(x0, y0, z0),
            point(x0, y0, z1),
            point(x0, y1, z1),
            point(x0, y1, z0),
            u0,
            v1,
            u1,
            v2,
        ) + face(
            point(x1, y0, z0),
            point(x0, y0, z0),
            point(x0, y1, z0),
            point(x1, y1, z0),
            u1,
            v1,
            u2,
            v2,
        ) + face(
            point(x1, y0, z1),
            point(x1, y0, z0),
            point(x1, y1, z0),
            point(x1, y1, z1),
            u2,
            v1,
            u3,
            v2,
        ) + face(
            point(x0, y0, z1),
            point(x1, y0, z1),
            point(x1, y1, z1),
            point(x0, y1, z1),
            u3,
            v1,
            u4,
            v2,
        )
    }
}

/// The vertices of a part.
pub fn cube(part: &PartBox) -> (verts: Vec<BookVertex>)
    requires
        part.fits(),
    ensures
        verts@ == part.vertices(),
{
    let (w, h, d): (i32, i32, i32) = (part.size.x, part.size.y, part.size.z);
    let (x0, y0, z0): (i32, i32, i32) = (part.min.x, part.min.y, part.min.z);
    let (x1, y1, z1): (i32, i32, i32) = (x0 + w, y0 + h, z0 + d);
    let t0 = BookPoint { x: x0, y: y0, z: z0 };
    let t1 = BookPoint { x: x1, y: y0, z: z0 };
    let t2 = BookPoint { x: x1, y: y1, z: z0 };
    let t3 = BookPoint { x: x0, y: y1, z: z0 };
    let l0 = BookPoint { x: x0, y: y0, z: z1 };
    let l1 = BookPoint { x: x1, y: y0, z: z1 };
    let l2 = BookPoint { x: x1, y: y1, z: z1 };
    let l3 = BookPoint { x: x0, y: y1, z: z1 };
    let (u0, u1, u2): (i32, i32, i32) = (part.tx, part.tx + d, part.tx + d + w);
    let (u22, u3, u4): (i32, i32, i32) = (
        part.tx + d + w + w,
        part.tx + d + w + d,
        part.tx + d + w + d + w,
    );
    let (v0, v1, v2): (i32, i32, i32) = (part.ty, part.ty + d, part.ty + d + h);
    let mut verts: Vec<BookVertex> = Vec::new();
    let ghost before = verts@;
    push_face(&mut verts, l1, l0, t0, t1, u1, v0, u2, v1);
    push_face(&mut verts, t2, t3, l3, l2, u2, v1, u22, v0);
    push_face(&mut verts, t0, l0, l3, t3, u0, v1, u1, v2);
    push_face(&mut verts, t1, t0, t3, t2, u1, v1, u2, v2);
    push_face(&mut verts, l1, t1, t2, l2, u2, v1, u3, v2);
    push_face(&mut verts, l0, l1, l2, l3, u3, v1, u4, v2);
    proof {
        join_six(
            before,
            face(l1, l0, t0, t1, u1 as int, v0 as int, u2 as int, v1 as int),
            face(t2, t3, l3, l2, u2 as int, v1 as int, u22 as int, v0 as int),
            face(t0, l0, l3, t3, u0 as int, v1 as int, u1 as int, v2 as int),
            face(t1, t0, t3, t2, u1 as int, v1 as int, u2 as int, v2 as int),
            face(l1, t1, t2, l2, u2 as int, v1 as int, u3 as int, v2 as int),
            face(l0, l1, l2, l3, u3 as int, v1 as int, u4 as int, v2 as int),
        );
        assert(before + part.vertices() =~= part.vertices());
    }
    verts
}

/// The parts: the left and the right lid, the seam, the left and the right pages,
/// and two pages that turn. For each the corner in the texture, the corner and the
/// size of its box, and how far it is moved along z.
pub const PARTS: [((i32, i32), (i32, i32, i32), (i32, i32, i32), i32); 7] = [
    ((0, 0), (-1200, -1000, -1), (1200, 2000, 1), -200),
    ((3200, 0), (0, -1000, -1), (1200, 2000, 1), 200),
    ((2400, 0), (-200, -1000, 0), (400, 2000, 1), 0),
    ((0, 2000), (0, -800, -198), (1000, 1600, 200), 0),
    ((2400, 2000), (0, -800, -2), (1000, 1600, 200), 0),
    ((4800, 2000), (0, -800, 0), (1000, 1600, 1), 0),
    ((4800, 2000), (0, -800, 0), (1000, 1600, 1), 0),
];

/// A part of the table.
pub open spec fn part_at(i: int) -> PartBox {
    let row = PARTS@[i];
    PartBox {
        tx: row.0.0,
        ty: row.0.1,
        min: BookPoint { x: row.1.0, y: row.1.1, z: row.1.2 },
        size: BookPoint { x: row.2.0, y: row.2.1, z: row.2.2 },
        offset: BookPoint { x: 0, y: 0, z: row.3 },
    }
}

/// A part and its vertices.
pub struct Part {
    pub verts: Vec<BookVertex>,
    pub offset: BookPoint,
}

/// The parts of the book.
pub fn build_parts() -> (parts: Vec<Part>)
    ensures
        parts@.len() == 7,
        forall|i: int|
            0 <= i < 7 ==> (#[trigger] parts@[i]).verts@ == part_at(i).vertices()
                && parts@[i].offset == part_at(i).offset,
{
    let mut parts: Vec<Part> = Vec::new();
    let mut i: usize = 0;
    while i < 7
        invariant
            i <= 7,
            parts@.len() == i,
            forall|k: int|
                0 <= k < i ==> (#[trigger] parts@[k]).verts@ == part_at(k).vertices()
                    && parts@[k].offset == part_at(k).offset,
        decreases 7 - i,
    {
        let row: ((i32, i32), (i32, i32, i32), (i32, i32, i32), i32) = PARTS[i];
        let part = PartBox {
            tx: row.0.0,
            ty: row.0.1,
            min: BookPoint { x: row.1.0, y: row.1.1, z: row.1.2 },
            size: BookPoint { x: row.2.0, y: row.2.1, z: row.2.2 },
            offset: BookPoint { x: 0, y: 0, z: row.3 },
        };
        proof {
            parts_fit(i as int);
        }
        parts.push(Part { verts: cube(&part), offset: part.offset });
        i = i + 1;
    }
    parts
}

/// Every part is unfolded within the texture, and has the vertices of a box.
pub proof fn parts_fit(i: int)
    requires
        0 <= i < 7,
    ensures
        part_at(i).fits(),
        part_at(i).tx + 2 * part_at(i).size.z + 2 * part_at(i).size.x <= TEXTURE_WIDTH,
        part_at(i).ty + part_at(i).size.z + part_at(i).size.y <= TEXTURE_HEIGHT,
        part_at(i).vertices().len() == 36,
{
}

/// Whether a picture is the purple pixel that stands in for the texture.
pub open spec fn is_purple_pixel(image: Image) -> bool {
    image.width == 1 && image.height == 1 && image.rgba@ == seq![255u8, 0, 255, 255]
}

/// The texture of the book, or a purple pixel where its file is missing or cannot
/// be read.
pub fn book_texture(file: &Option<Vec<u8>>) -> (image: Image)
    ensures
        match file {
            Some(bytes) => is_decoded(bytes@, Some(image)) || (is_decoded(bytes@, None)
                && is_purple_pixel(image)),
            None => is_purple_pixel(image),
        },
{
    let decoded = match file {
        Some(bytes) => decode_image(bytes),
        None => None,
    };
    match decoded {
        Some(image) => image,
        None => {
            let mut rgba: Vec<u8> = Vec::new();
            rgba.push(255);
            rgba.push(0);
            rgba.push(255);
            rgba.push(255);
            assert(rgba@ =~= seq![255u8, 0, 255, 255]);
            Image { width: 1, height: 1, rgba }
        },
    }
}

} // verus!
