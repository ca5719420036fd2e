//! What holds of the models that are built of boxes: which part of the texture each
//! side shows.

use crate::book_model::PartBox;
use crate::skin_model::{all_boxes, mesh_of, swing_at, SkinBox, SkinVertex};
use vstd::prelude::*;

verus! {

/// Whether a vertex lies on a corner of a box of the skin's model.
pub open spec fn is_corner_of(b: SkinBox, v: SkinVertex) -> bool {
    let (x0, y0, z0) = (
        b.pivot.x + b.from.x,
        -(b.pivot.y + b.from.y + b.size.y),
        b.pivot.z + b.from.z,
    );
    &&& v.at.x == x0 || v.at.x == x0 + b.size.x
    &&& v.at.y == y0 || v.at.y == y0 + b.size.y
    &&& v.at.z == z0 || v.at.z == z0 + b.size.z
}

/// A box shows its part of the skin unfolded: in the lower strip the wall at the
/// least x, the front, the wall at the greatest x and the back stand side by side,
/// upright; above the front lies the top, and beside that the bottom.
/// Every vertex lies on a corner of the box, and neighbouring walls meet at the same
/// line of the skin.
pub proof fn boxes_show_the_skin_unfolded(b: SkinBox, j: int)
    requires
        b.fits(),
        b.size.x > 0,
        b.size.y > 0,
        b.size.z > 0,
        0 <= j < 36,
    ensures
        b.vertices().len() == 36,
        ({
            let v = b.vertices()[j];
            let (x0, y0, z0) = (
                b.pivot.x + b.from.x,
                -(b.pivot.y + b.from.y + b.size.y),
                b.pivot.z + b.from.z,
            );
            let (right, up, front) = (v.at.x != x0, v.at.y != y0, v.at.z != z0);
            let (wide, deep, high) = (b.tw as int, b.td as int, b.th as int);
            let down = if up {
                b.ty + deep
            } else {
                b.ty + deep + high
            };
            &&& is_corner_of(b, v)
            &&& j < 6 ==> front && v.v == down && v.u == b.tx + deep + if right {
                wide
            } else {
                0
            }
            &&& 6 <= j < 12 ==> !front && v.v == down && v.u == b.tx + deep + wide + deep + if right {
                0
            } else {
                wide
            }
            &&& 12 <= j < 18 ==> right && v.v == down && v.u == b.tx + deep + wide + if front {
                0
            } else {
                deep
            }
            &&& 18 <= j < 24 ==> !right && v.v == down && v.u == b.tx + if front {
                deep
            } else {
                0
            }
            &&& 24 <= j < 30 ==> up && v.u == b.tx + deep + (if right {
                wide
            } else {
                0
            }) && v.v == b.ty + if front {
                deep
            } else {
                0
            }
            &&& 30 <= j < 36 ==> !up && v.u == b.tx + deep + wide + (if right {
                wide
            } else {
                0
            }) && v.v == b.ty + if front {
                0
            } else {
                deep
            }
        }),
{
    let all = b.vertices();
    assert(all.len() == 36);
}

/// A mesh holds the sides of all of its boxes, box after box.
pub proof fn meshes_hold_every_box(boxes: Seq<SkinBox>, n: nat, k: int, j: int)
    requires
        0 <= k < n <= boxes.len(),
        0 <= j < 36,
    ensures
        mesh_of(boxes, n).len() == 36 * n,
        mesh_of(boxes, n)[36 * k + j] == boxes[k].vertices()[j],
    decreases n,
{
    let m = (n - 1) as nat;
    lemma_mesh_count(boxes, m);
    let (before, all) = (mesh_of(boxes, m), mesh_of(boxes, n));
    assert(boxes[m as int].vertices().len() == 36);
    if k < m {
        meshes_hold_every_box(boxes, m, k, j);
        assert(all[36 * k + j] == before[36 * k + j]);
    }
}

proof fn lemma_mesh_count(boxes: Seq<SkinBox>, n: nat)
    ensures
        mesh_of(boxes, n).len() == 36 * n,
    decreases n,
{
    if n > 0 {
        lemma_mesh_count(boxes, (n - 1) as nat);
        assert(boxes[n - 1].vertices().len() == 36);
    }
}

/// A box of the skin's model is as large as the part of the skin that it shows, and
/// the layer over it is larger on every side.
pub proof fn layers_lie_over_their_boxes(slim: bool, i: int)
    requires
        0 <= i < 6,
    ensures
        all_boxes(slim).len() == 12,
        ({
            let (inner, outer) = (all_boxes(slim)[2 * i], all_boxes(slim)[2 * i + 1]);
            &&& inner.size.x == 20 * inner.tw
            &&& inner.size.y == 20 * inner.th
            &&& inner.size.z == 20 * inner.td
            &&& outer.pivot == inner.pivot
            &&& outer.tw == inner.tw && outer.th == inner.th && outer.td == inner.td
            &&& outer.from.x < inner.from.x && outer.from.x + outer.size.x > inner.from.x
                + inner.size.x
            &&& outer.from.y < inner.from.y && outer.from.y + outer.size.y > inner.from.y
                + inner.size.y
            &&& outer.from.z < inner.from.z && outer.from.z + outer.size.z > inner.from.z
                + inner.size.z
        }),
{
}

/// A swing lasts four tenths of a second, and its progress is the time since it
/// began.
pub proof fn a_swing_lasts_for_a_while(start: u64, now: u64)
    requires
        start <= now,
    ensures
        now - start <= 400 ==> swing_at(Some(start), now) == Some((now - start) as u64),
        now - start > 400 ==> swing_at(Some(start), now) is None,
        swing_at(None, now) is None,
{
}

/// A part of the book shows its part of the texture unfolded: in the lower strip the
/// wall at the least x, the one at the least z, the one at the greatest x and the
/// one at the greatest z stand side by side; above the second lies the side at the
/// least y, and beside that the one at the greatest y.
pub proof fn parts_show_the_texture_unfolded(part: PartBox, j: int)
    requires
        part.fits(),
        part.size.x > 0,
        part.size.y > 0,
        part.size.z > 0,
        0 <= j < 36,
    ensures
        part.vertices().len() == 36,
        ({
            let v = part.vertices()[j];
            let (right, high, back) = (
                v.at.x != part.min.x,
                v.at.y != part.min.y,
                v.at.z != part.min.z,
            );
            let (w, h, d) = (part.size.x as int, part.size.y as int, part.size.z as int);
            let down = if high {
                part.ty + d + h
            } else {
                part.ty + d
            };
            &&& v.at.x == part.min.x || v.at.x == part.min.x + w
            &&& v.at.y == part.min.y || v.at.y == part.min.y + h
            &&& v.at.z == part.min.z || v.at.z == part.min.z + d
            &&& j < 6 ==> !high && v.u == part.tx + d + (if right {
                w
            } else {
                0
            }) && v.v == part.ty + if back {
                0
            } else {
                d
            }
            &&& 6 <= j < 12 ==> high && v.u == part.tx + d + w + (if right {
                w
            } else {
                0
            }) && v.v == part.ty + if back {
                0
            } else {
                d
            }
            &&& 12 <= j < 18 ==> !right && v.v == down && v.u == part.tx + if back {
                0
            } else {
                d
            }
            &&& 18 <= j < 24 ==> !back && v.v == down && v.u == part.tx + d + if right {
                w
            } else {
                0
            }
            &&& 24 <= j < 30 ==> right && v.v == down && v.u == part.tx + d + w + if back {
                d
            } else {
                0
            }
            &&& 30 <= j < 36 ==> back && v.v == down && v.u == part.tx + d + w + d + if right {
                0
            } else {
                w
            }
        }),
{
    let all = part.vertices();
    assert(all.len() == 36);
}

} // verus!
