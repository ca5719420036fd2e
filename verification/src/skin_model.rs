//! The model that shows a player's skin.
//!
//! Lengths are twentieths of a pixel of the skin, upwards along y; places in the
//! skin are whole pixels of its 64 by 64.

use crate::seqs::join_six;
use vstd::prelude::*;

verus! {

/// A corner of the model.
#[derive(Clone, Copy, Debug, PartialEq, Eq, Structural)]
pub struct Corner {
    pub x: i32,
    pub y: i32,
    pub z: i32,
}

/// A vertex: a corner, and its place in the skin.
#[derive(Clone, Copy, Debug, PartialEq, Eq, Structural)]
pub struct SkinVertex {
    pub at: Corner,
    pub u: u32,
    pub v: u32,
}

/// A rectangle of the skin.
#[derive(Clone, Copy, Debug, PartialEq, Eq, Structural)]
pub struct SkinRect {
    pub x: u32,
    pub y: u32,
    pub w: u32,
    pub h: u32,
}

/// A box of the model: its pivot, its corner from there, downwards along y, its
/// size, and where its sides are unfolded in the skin and how large they are
/// there.
#[derive(Clone, Copy, Debug, PartialEq, Eq, Structural)]
pub struct SkinBox {
    pub pivot: Corner,
    pub from: Corner,
    pub size: Corner,
    pub tx: u32,
    pub ty: u32,
    pub tw: u32,
    pub th: u32,
    pub td: u32,
}

/// Two triangles with a rectangle of the skin on them.
pub open spec fn quad(a: Corner, b: Corner, c: Corner, d: Corner, r: SkinRect) -> Seq<SkinVertex> {
    let va = SkinVertex { at: a, u: r.x, v: r.y };
    let vb = SkinVertex { at: b, u: (r.x + r.w) as u32, v: r.y };
    let vc = SkinVertex { at: c, u: (r.x + r.w) as u32, v: (r.y + r.h) as u32 };
    let vd = SkinVertex { at: d, u: r.x, v: (r.y + r.h) as u32 };
    seq![va, vb, vc, vc, vd, va]
}

fn push_quad(verts: &mut Vec<SkinVertex>, a: Corner, b: Corner, c: Corner, d: Corner, r: SkinRect)
    requires
        r.x + r.w <= u32::MAX,
        r.y + r.h <= u32::MAX,
    ensures
        final(verts)@ == old(verts)@ + quad(a, b, c, d, r),
{
    let ghost before = verts@;
    let va = SkinVertex { at: a, u: r.x, v: r.y };
    let vc = SkinVertex { at: c, u: r.x + r.w, v: r.y + r.h };
    verts.push(va);
    verts.push(SkinVertex { at: b, u: r.x + r.w, v: r.y });
    verts.push(vc);
    verts.push(vc);
    verts.push(SkinVertex { at: d, u: r.x, v: r.y + r.h });
    verts.push(va);
    assert(verts@ =~= before + quad(a, b, c, d, r));
}

/// A corner of three coordinates.
pub open spec fn corner(x: int, y: int, z: int) -> Corner {
    Corner { x: x as i32, y: y as i32, z: z as i32 }
}

/// A rectangle of four numbers.
pub open spec fn skin_rect(x: int, y: int, w: u32, h: u32) -> SkinRect {
    SkinRect { x: x as u32, y: y as u32, w, h }
}

/// Whether a coordinate and its mirror image can be held.
pub open spec fn held(n: int) -> bool {
    -i32::MAX <= n <= i32::MAX
}

impl SkinBox {
    /// The coordinates of the corners can be held, and so can the places of the
    /// sides in the skin.
    pub open spec fn fits(self) -> bool {
        &&& held(self.pivot.x + self.from.x)
        &&& held(self.pivot.x + self.from.x + self.size.x)
        &&& held(self.pivot.y + self.from.y)
        &&& held(self.pivot.y + self.from.y + self.size.y)
        &&& held(self.pivot.z + self.from.z)
        &&& held(self.pivot.z + self.from.z + self.size.z)
        &&& self.tx + 2 * self.td + 2 * self.tw <= u32::MAX
        &&& self.ty + self.td + self.th <= u32::MAX
    }

    /// The vertices: front, back, right, left, top and bottom. The sides are
    /// unfolded side by side, with top and bottom above them.
    pub open spec fn vertices(self) -> Seq<SkinVertex> {
        let (x0, x1) = (
            self.pivot.x + self.from.x,
            self.pivot.x + self.from.x + self.size.x,
        );
        let (y0, y1) = (
            -(self.pivot.y + self.from.y + self.size.y),
            -(self.pivot.y + self.from.y),
        );
        let (z0, z1) = (
            self.pivot.z + self.from.z,
            self.pivot.z + self.from.z + self.size.z,
        );
        let (tx, ty, tw, th, td) = (self.tx, self.ty, self.tw, self.th, self.td);
        quad(
            corner(x0, y1, z1),
            corner(x1, y1, z1),
            corner(x1, y0, z1),
            corner(x0, y0, z1),
            skin_rect(tx + td, ty + td, tw, th),
        ) + quad(
            corner(x1, y1, z0),
            corner(x0, y1, z0),
            corner(x0, y0, z0),
            corner(x1, y0, z0),
            skin_rect(tx + td + tw + td, ty + td, tw, th),
        ) + quad(
            corner(x1, y1, z1),
            corner(x1, y1, z0),
            corner(x1, y0, z0),
            corner(x1, y0, z1),
            skin_rect(tx + td + tw, ty + td, td, th),
        ) + quad(
            corner(x0, y1, z0),
            corner(x0, y1, z1),
            corner(x0, y0, z1),
            corner(x0, y0, z0),
            skin_rect(tx as int, ty + td, td, th),
        ) + quad(
            corner(x0, y1, z0),
            corner(x1, y1, z0),
            corner(x1, y1, z1),
            corner(x0, y1, z1),
            skin_rect(tx + td, ty as int, tw, td),
        ) + quad(
            corner(x0, y0, z1),
            corner(x1, y0, z1),
            corner(x1, y0, z0),
            corner(x0, y0, z0),
            skin_rect(tx + td + tw, ty as int, tw, td),
        )
    }
}

/// Adds the vertices of a box.
pub fn add_box(verts: &mut Vec<SkinVertex>, b: &SkinBox)
    requires
        b.fits(),
    ensures
        final(verts)@ == old(verts)@ + b.vertices(),
{
    let ghost before = verts@;
    let x0: i32 = b.pivot.x + b.from.x;
    let x1: i32 = x0 + b.size.x;
    let y0: i32 = -(b.pivot.y + b.from.y + b.size.y);
    let y1: i32 = -(b.pivot.y + b.from.y);
    let z0: i32 = b.pivot.z + b.from.z;
    let z1: i32 = z0 + b.size.z;
    let (tx, ty, tw, th, td): (u32, u32, u32, u32, u32) = (b.tx, b.ty, b.tw, b.th, b.td);
    let c000 = Corner { x: x0, y: y0, z: z0 };
    let c001 = Corner { x: x0, y: y0, z: z1 };
    let c010 = Corner { x: x0, y: y1, z: z0 };
    let c011 = Corner { x: x0, y: y1, z: z1 };
    let c100 = Corner { x: x1, y: y0, z: z0 };
    let c101 = Corner { x: x1, y: y0, z: z1 };
    let c110 = Corner { x: x1, y: y1, z: z0 };
    let c111 = Corner { x: x1, y: y1, z: z1 };
    let front = SkinRect { x: tx + td, y: ty + td, w: tw, h: th };
    let back = SkinRect { x: tx + td + tw + td, y: ty + td, w: tw, h: th };
    let right = SkinRect { x: tx + td + tw, y: ty + td, w: td, h: th };
    let left = SkinRect { x: tx, y: ty + td, w: td, h: th };
    let top = SkinRect { x: tx + td, y: ty, w: tw, h: td };
    let bottom = SkinRect { x: tx + td + tw, y: ty, w: tw, h: td };
    push_quad(verts, c011, c111, c101, c001, front);
    push_quad(verts, c110, c010, c000, c100, back);
    push_quad(verts, c111, c110, c100, c101, right);
    push_quad(verts, c010, c011, c001, c000, left);
    push_quad(verts, c010, c110, c111, c011, top);
    push_quad(verts, c001, c101, c100, c000, bottom);
    proof {
        join_six(
            before,
            quad(c011, c111, c101, c001, front),
            quad(c110, c010, c000, c100, back),
            quad(c111, c110, c100, c101, right),
            quad(c010, c011, c001, c000, left),
            quad(c010, c110, c111, c011, top),
            quad(c001, c101, c100, c000, bottom),
        );
    }
}

/// The layer over a box: larger by `e` on every side, with its own place in the
/// skin.
pub open spec fn over(b: SkinBox, e: int, tx: u32, ty: u32) -> SkinBox {
    SkinBox {
        from: corner(b.from.x - e, b.from.y - e, b.from.z - e),
        size: corner(b.size.x + e * 2, b.size.y + e * 2, b.size.z + e * 2),
        tx,
        ty,
        ..b
    }
}

/// Whether the corner and the size of the layer over a box can be held.
pub open spec fn can_lie_over(b: SkinBox, e: int) -> bool {
    &&& 0 <= e <= i32::MAX / 2
    &&& b.from.x - e >= i32::MIN && b.size.x + e * 2 <= i32::MAX
    &&& b.from.y - e >= i32::MIN && b.size.y + e * 2 <= i32::MAX
    &&& b.from.z - e >= i32::MIN && b.size.z + e * 2 <= i32::MAX
}

/// A box of whole pixels, at a pivot in twentieths.
pub open spec fn pixel_box(
    pivot: (int, int),
    from: (int, int, int),
    size: (u32, u32, u32),
    tx: u32,
    ty: u32,
) -> SkinBox {
    SkinBox {
        pivot: corner(pivot.0, pivot.1, 0),
        from: corner(from.0 * 20, from.1 * 20, from.2 * 20),
        size: corner(size.0 * 20, size.1 * 20, size.2 * 20),
        tx,
        ty,
        tw: size.0,
        th: size.1,
        td: size.2,
    }
}

/// The boxes of the head: the head, and the hat.
pub open spec fn head_boxes() -> Seq<SkinBox> {
    let head = pixel_box((0, 0), (-4, -8, -4), (8, 8, 8), 0, 0);
    seq![head, over(head, 10, 32, 0)]
}

/// The width of an arm.
pub open spec fn arm_width(slim: bool) -> u32 {
    if slim {
        3
    } else {
        4
    }
}

/// The boxes of the body: trunk, left arm, right leg and left leg, each with what
/// is worn over it.
pub open spec fn body_boxes(slim: bool) -> Seq<SkinBox> {
    let trunk = pixel_box((0, 0), (-4, 0, -2), (8, 12, 4), 16, 16);
    let left_arm = pixel_box((100, 40), (-1, -2, -2), (arm_width(slim), 12, 4), 32, 48);
    let right_leg = pixel_box((-38, 240), (-2, 0, -2), (4, 12, 4), 0, 16);
    let left_leg = pixel_box((38, 240), (-2, 0, -2), (4, 12, 4), 16, 48);
    seq![
        trunk,
        over(trunk, 5, 16, 32),
        left_arm,
        over(left_arm, 5, 48, 48),
        right_leg,
        over(right_leg, 5, 0, 32),
        left_leg,
        over(left_leg, 5, 0, 48),
    ]
}

/// The boxes of the right arm: the arm, and the sleeve.
pub open spec fn arm_boxes(slim: bool) -> Seq<SkinBox> {
    let from = if slim {
        -2int
    } else {
        -3
    };
    let arm = pixel_box((-100, 40), (from, -2, -2), (arm_width(slim), 12, 4), 40, 16);
    seq![arm, over(arm, 5, 40, 32)]
}

/// The vertices of the first `n` boxes.
pub open spec fn mesh_of(boxes: Seq<SkinBox>, n: nat) -> Seq<SkinVertex>
    decreases n,
{
    if n == 0 {
        Seq::empty()
    } else {
        mesh_of(boxes, (n - 1) as nat) + boxes[n - 1].vertices()
    }
}

fn make_box(
    pivot_x: i32,
    pivot_y: i32,
    from: (i32, i32, i32),
    size: (u32, u32, u32),
    tx: u32,
    ty: u32,
) -> (b: SkinBox)
    requires
        -500 <= from.0 <= 500,
        -500 <= from.1 <= 500,
        -500 <= from.2 <= 500,
        size.0 <= 64,
        size.1 <= 64,
        size.2 <= 64,
    ensures
        b == pixel_box(
            (pivot_x as int, pivot_y as int),
            (from.0 as int, from.1 as int, from.2 as int),
            size,
            tx,
            ty,
        ),
{
    SkinBox {
        pivot: Corner { x: pivot_x, y: pivot_y, z: 0 },
        from: Corner { x: from.0 * 20, y: from.1 * 20, z: from.2 * 20 },
        size: Corner {
            x: (size.0 * 20) as i32,
            y: (size.1 * 20) as i32,
            z: (size.2 * 20) as i32,
        },
        tx,
        ty,
        tw: size.0,
        th: size.1,
        td: size.2,
    }
}

fn make_over(b: &SkinBox, e: i32, tx: u32, ty: u32) -> (o: SkinBox)
    requires
        can_lie_over(*b, e as int),
    ensures
        o == over(*b, e as int, tx, ty),
{
    SkinBox {
        pivot: b.pivot,
        from: Corner { x: b.from.x - e, y: b.from.y - e, z: b.from.z - e },
        size: Corner { x: b.size.x + e * 2, y: b.size.y + e * 2, z: b.size.z + e * 2 },
        tx,
        ty,
        tw: b.tw,
        th: b.th,
        td: b.td,
    }
}

fn mesh(boxes: &Vec<SkinBox>) -> (verts: Vec<SkinVertex>)
    requires
        forall|i: int| 0 <= i < boxes@.len() ==> (#[trigger] boxes@[i]).fits(),
    ensures
        verts@ == mesh_of(boxes@, boxes@.len()),
{
    let mut verts: Vec<SkinVertex> = Vec::new();
    let mut i: usize = 0;
    while i < boxes.len()
        invariant
            i <= boxes@.len(),
            forall|k: int| 0 <= k < boxes@.len() ==> (#[trigger] boxes@[k]).fits(),
            verts@ == mesh_of(boxes@, i as nat),
        decreases boxes@.len() - i,
    {
        add_box(&mut verts, &boxes[i]);
        i = i + 1;
    }
    verts
}

/// The model of the head.
pub fn build_head_mesh() -> (verts: Vec<SkinVertex>)
    ensures
        verts@ == mesh_of(head_boxes(), 2),
{
    let head = make_box(0, 0, (-4, -8, -4), (8, 8, 8), 0, 0);
    let hat = make_over(&head, 10, 32, 0);
    let mut boxes: Vec<SkinBox> = Vec::new();
    boxes.push(head);
    boxes.push(hat);
    assert(boxes@ =~= head_boxes());
    mesh(&boxes)
}

/// The model of the body without the right arm.
pub fn build_body_mesh(slim: bool) -> (verts: Vec<SkinVertex>)
    ensures
        verts@ == mesh_of(body_boxes(slim), 8),
{
    let arm: u32 = if slim { 3 } else { 4 };
    let trunk = make_box(0, 0, (-4, 0, -2), (8, 12, 4), 16, 16);
    let left_arm = make_box(100, 40, (-1, -2, -2), (arm, 12, 4), 32, 48);
    let right_leg = make_box(-38, 240, (-2, 0, -2), (4, 12, 4), 0, 16);
    let left_leg = make_box(38, 240, (-2, 0, -2), (4, 12, 4), 16, 48);
    let mut boxes: Vec<SkinBox> = Vec::new();
    boxes.push(trunk);
    boxes.push(make_over(&trunk, 5, 16, 32));
    boxes.push(left_arm);
    boxes.push(make_over(&left_arm, 5, 48, 48));
    boxes.push(right_leg);
    boxes.push(make_over(&right_leg, 5, 0, 32));
    boxes.push(left_leg);
    boxes.push(make_over(&left_leg, 5, 0, 48));
    assert(boxes@ =~= body_boxes(slim));
    mesh(&boxes)
}

/// The model of the right arm.
pub fn build_right_arm_mesh(slim: bool) -> (verts: Vec<SkinVertex>)
    ensures
        verts@ == mesh_of(arm_boxes(slim), 2),
{
    let width: u32 = if slim { 3 } else { 4 };
    let from: i32 = if slim { -2 } else { -3 };
    let arm = make_box(-100, 40, (from, -2, -2), (width, 12, 4), 40, 16);
    let sleeve = make_over(&arm, 5, 40, 32);
    let mut boxes: Vec<SkinBox> = Vec::new();
    boxes.push(arm);
    boxes.push(sleeve);
    assert(boxes@ =~= arm_boxes(slim));
    mesh(&boxes)
}

/// All boxes of the model.
pub open spec fn all_boxes(slim: bool) -> Seq<SkinBox> {
    head_boxes() + body_boxes(slim) + arm_boxes(slim)
}

/// No two boxes show one pixel of the skin: where they are unfolded, they do not
/// overlap.
pub proof fn boxes_share_no_pixel(slim: bool, i: int, j: int)
    requires
        0 <= i < j < all_boxes(slim).len(),
    ensures
        ({
            let (a, b) = (all_boxes(slim)[i], all_boxes(slim)[j]);
            let wide = |s: SkinBox| 2 * s.td + 2 * s.tw;
            let high = |s: SkinBox| s.td + s.th;
            a.tx + wide(a) <= b.tx || b.tx + wide(b) <= a.tx || a.ty + high(a) <= b.ty || b.ty
                + high(b) <= a.ty
        }),
{
}

/// What is worn encloses what it is worn over.
pub proof fn layers_enclose(b: SkinBox, e: int, tx: u32, ty: u32)
    requires
        can_lie_over(b, e),
    ensures
        ({
            let o = over(b, e, tx, ty);
            &&& o.from.x == b.from.x - e && o.from.x + o.size.x == b.from.x + b.size.x + e
            &&& o.from.y == b.from.y - e && o.from.y + o.size.y == b.from.y + b.size.y + e
            &&& o.from.z == b.from.z - e && o.from.z + o.size.z == b.from.z + b.size.z + e
        }),
{
}

/// How long an arm swings, in milliseconds.
pub const SWING_MILLIS: u64 = 400;

/// How far a swing that began at `start` is, in milliseconds: nothing once it is
/// over.
pub open spec fn swing_at(start: Option<u64>, now: u64) -> Option<u64> {
    match start {
        Some(s) => {
            let elapsed = if now >= s {
                (now - s) as u64
            } else {
                0
            };
            if elapsed > 400 {
                None
            } else {
                Some(elapsed)
            }
        },
        None => None,
    }
}

/// How far a swing is, and whether it goes on.
pub fn advance_swing(start: &mut Option<u64>, now: u64) -> (progress: Option<u64>)
    ensures
        progress == swing_at(*old(start), now),
        *final(start) == if progress is Some {
            *old(start)
        } else {
            None
        },
{
    match *start {
        Some(s) => {
            let elapsed: u64 = if now >= s { now - s } else { 0 };
            if elapsed > SWING_MILLIS {
                *start = None;
                None
            } else {
                Some(elapsed)
            }
        },
        None => None,
    }
}

} // verus!
