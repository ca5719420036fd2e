//! What holds of every frame of entities: who is drawn, with which model, with
//! which texture, and how often.

use crate::entities::{
    are_entries, base_layers, bound_after, draw_of, emissive_layers, emitted, emitted_parts,
    entity_overlays, entry_from, frame_parts, group_from, group_from_bounds, grouped,
    lemma_entry_from, opaque_layers, overlay_layer, part_instances, pass_commands,
    records_are_drawn_with_their_own, seen, slot_layers, with_addition, Addition, DrawRecord,
    Emitted, EntityInfo, EntityInstance, GroupView, Member, MobEntry, PassCommand, PlayerSkin, Seen,
};
use crate::mobs::{MobKind, OverlayKind};
use vstd::prelude::*;

verus! {

/// The entities that are drawn are those in view, or drawn regardless, of a kind
/// that something is held of. Each is there once, in the order in which they were
/// given, with what is held of its own kind.
pub proof fn drawn_entities_are_those_in_view(
    mobs: Seq<MobEntry>,
    entities: Seq<EntityInfo>,
    i: int,
    m: int,
)
    requires
        are_entries(mobs),
        mobs.len() <= usize::MAX,
        entities.len() <= usize::MAX,
    ensures
        ({
            let vis = seen(mobs, entities, entities.len());
            &&& forall|a: int|
                0 <= a < vis.len() ==> {
                    &&& (#[trigger] vis[a]).info < entities.len()
                    &&& vis[a].entry < mobs.len()
                    &&& mobs[vis[a].entry as int].kind == entities[vis[a].info as int].kind
                    &&& entities[vis[a].info as int].visible || entities[vis[a].info as int].skip_cull
                }
            &&& forall|a: int, b: int|
                0 <= a < b < vis.len() ==> (#[trigger] vis[a]).info < (#[trigger] vis[b]).info
            &&& 0 <= i < entities.len() && 0 <= m < mobs.len() && mobs[m].kind == entities[i].kind && (
            entities[i].visible || entities[i].skip_cull) ==> exists|a: int|
                0 <= a < vis.len() && (#[trigger] vis[a]).info == i && vis[a].entry == m
        }),
{
    lemma_seen(mobs, entities, entities.len());
    let vis = seen(mobs, entities, entities.len());
    if 0 <= i < entities.len() && 0 <= m < mobs.len() && mobs[m].kind == entities[i].kind && (
    entities[i].visible || entities[i].skip_cull) {
        assert(is_in_view(mobs, entities, i, m));
        let a = choose|a: int| 0 <= a < vis.len() && (#[trigger] vis[a]).info == i;
        let e = vis[a].entry as int;
        assert(mobs[e].kind == mobs[m].kind);
        assert(e == m) by {
            if e < m {
                assert(mobs[e].kind != mobs[m].kind);
            } else if m < e {
                assert(mobs[m].kind != mobs[e].kind);
            }
        }
    }
}

spec fn is_in_view(mobs: Seq<MobEntry>, entities: Seq<EntityInfo>, i: int, m: int) -> bool {
    0 <= m < mobs.len() && mobs[m].kind == entities[i].kind && (entities[i].visible
        || entities[i].skip_cull)
}

proof fn lemma_seen(mobs: Seq<MobEntry>, entities: Seq<EntityInfo>, n: nat)
    requires
        n <= entities.len(),
        mobs.len() <= usize::MAX,
        entities.len() <= usize::MAX,
    ensures
        ({
            let vis = seen(mobs, entities, n);
            &&& vis.len() <= n
            &&& forall|a: int|
                0 <= a < vis.len() ==> {
                    &&& (#[trigger] vis[a]).info < n
                    &&& vis[a].entry < mobs.len()
                    &&& mobs[vis[a].entry as int].kind == entities[vis[a].info as int].kind
                    &&& entities[vis[a].info as int].visible || entities[vis[a].info as int].skip_cull
                }
            &&& forall|a: int, b: int|
                0 <= a < b < vis.len() ==> (#[trigger] vis[a]).info < (#[trigger] vis[b]).info
            &&& forall|i: int, m: int| #[trigger]
                is_in_view(mobs, entities, i, m) && 0 <= i < n ==> exists|a: int|
                    0 <= a < vis.len() && (#[trigger] vis[a]).info == i
        }),
    decreases n,
{
    if n > 0 {
        let k = (n - 1) as nat;
        lemma_seen(mobs, entities, k);
        lemma_entry_from(mobs, entities[k as int].kind, 0);
        let (before, vis) = (seen(mobs, entities, k), seen(mobs, entities, n));
        assert forall|i: int, m: int| #[trigger]
            is_in_view(mobs, entities, i, m) && 0 <= i < n implies exists|a: int|
            0 <= a < vis.len() && (#[trigger] vis[a]).info == i by {
            if i < k {
                let a = choose|a: int| 0 <= a < before.len() && (#[trigger] before[a]).info == i;
                assert(vis[a] == before[a]);
            } else {
                let e = entry_from(mobs, entities[i].kind, 0);
                assert(e < mobs.len()) by {
                    if e == mobs.len() {
                        assert(mobs[m].kind != entities[i].kind);
                    }
                }
                assert(vis[vis.len() - 1].info == i);
            }
        }
    }
}

/// Whether a layer is one that a pass draws of an entity, with the model and the
/// texture that are its own. The pass of the opaque layers draws the model of each
/// entity: a baby's own, where there is one, and the variant with the entity's
/// number, or the last one. A player whose skin is there has the model that the
/// skin is made for, and wears the skin. Every pass draws the overlays of its kind
/// that the entity shows.
pub open spec fn is_layer_of(
    mobs: Seq<MobEntry>,
    skins: Map<u128, PlayerSkin>,
    entities: Seq<EntityInfo>,
    vis: Seq<Seen>,
    kind: OverlayKind,
    a: Addition,
) -> bool {
    let v = a.member.entity as int;
    let info = entities[vis[v].info as int];
    let entry = mobs[vis[v].entry as int];
    let worn = if info.kind == MobKind::Player && info.player_id is Some
        && skins.contains_key(info.player_id.unwrap()) {
        Some(skins[info.player_id.unwrap()])
    } else {
        None
    };
    &&& v < vis.len()
    &&& match a.member.overlay {
        None => {
            let pool = if info.is_baby && entry.baby_variants is Some {
                entry.baby_variants.unwrap()@
            } else {
                entry.adult_variants@
            };
            let number = match worn {
                Some(skin) => if skin.slim {
                    1int
                } else {
                    0int
                },
                None => info.variant_index as int,
            };
            let at = if number < pool.len() {
                number
            } else {
                pool.len() - 1
            };
            &&& kind == OverlayKind::Opaque
            &&& a.vertex_buffer == pool[at].vertex_buffer
            &&& a.part_ranges == pool[at].part_ranges@
            &&& a.texture_set == match worn {
                Some(skin) => skin.texture_set,
                None => pool[at].texture_set,
            }
            &&& a.member.hurt == info.has_red_overlay
            &&& !a.member.scrolling
        },
        Some(slot) => {
            let layers = if info.is_baby {
                entry.baby_overlays@
            } else {
                entry.adult_overlays@
            };
            let pool = layers[slot as int]@;
            let number = info.overlay_variants@[slot as int] as int;
            let at = if number < pool.len() {
                number
            } else {
                pool.len() - 1
            };
            &&& slot < layers.len()
            &&& info.overlay_shown@[slot as int]
            &&& pool[at].overlay_kind == kind
            &&& a.vertex_buffer == pool[at].vertex_buffer
            &&& a.part_ranges == pool[at].part_ranges@
            &&& a.texture_set == pool[at].texture_set
            &&& a.member.hurt == (kind == OverlayKind::Opaque && info.has_red_overlay)
            &&& a.member.scrolling == (kind == OverlayKind::SwirlAdditive)
        },
    }
}

/// Whether no drawing of a layer occurs twice.
spec fn distinct(adds: Seq<Addition>) -> bool {
    forall|i: int, j: int|
        0 <= i < j < adds.len() ==> (#[trigger] adds[i]).member != (#[trigger] adds[j]).member
}

proof fn lemma_base_layers(
    mobs: Seq<MobEntry>,
    skins: Map<u128, PlayerSkin>,
    entities: Seq<EntityInfo>,
    vis: Seq<Seen>,
    n: nat,
)
    requires
        n <= vis.len() <= usize::MAX,
    ensures
        ({
            let adds = base_layers(mobs, skins, entities, vis, n);
            &&& adds.len() == n
            &&& forall|i: int|
                0 <= i < n ==> {
                    &&& is_layer_of(
                        mobs,
                        skins,
                        entities,
                        vis,
                        OverlayKind::Opaque,
                        #[trigger] adds[i],
                    )
                    &&& adds[i].member.entity == i
                    &&& adds[i].member.overlay is None
                }
        }),
    decreases n,
{
    if n > 0 {
        lemma_base_layers(mobs, skins, entities, vis, (n - 1) as nat);
    }
}

/// The overlay of an entity in a slot is one layer of the pass, or none.
proof fn lemma_overlay_layer(
    mobs: Seq<MobEntry>,
    skins: Map<u128, PlayerSkin>,
    entities: Seq<EntityInfo>,
    vis: Seq<Seen>,
    i: int,
    slot: int,
    kind: OverlayKind,
)
    requires
        0 <= i < vis.len() <= usize::MAX,
        0 <= slot < 4,
    ensures
        ({
            let adds = overlay_layer(mobs, entities, vis, i, slot, kind);
            &&& adds.len() <= 1
            &&& adds.len() == 1 ==> is_layer_of(mobs, skins, entities, vis, kind, adds[0])
                && adds[0].member.entity == i && adds[0].member.overlay == Some(slot as usize)
            &&& forall|a: Addition| #[trigger]
                is_layer_of(mobs, skins, entities, vis, kind, a) && a.member.entity == i
                    && a.member.overlay == Some(slot as usize) ==> adds.len() == 1 && adds[0] == a
        }),
{
    let adds = overlay_layer(mobs, entities, vis, i, slot, kind);
    assert forall|a: Addition| #[trigger]
        is_layer_of(mobs, skins, entities, vis, kind, a) && a.member.entity == i
            && a.member.overlay == Some(slot as usize) implies adds.len() == 1 && adds[0] == a by {
        assert(adds[0].member == a.member);
        assert(adds[0].part_ranges == a.part_ranges);
        assert(adds[0] == a);
    }
}

/// Where in the order of a slot's overlays something stands.
spec fn within(a: Addition, slot: int, n: int) -> bool {
    a.member.entity < n && a.member.overlay == Some(slot as usize)
}

proof fn lemma_slot_layers(
    mobs: Seq<MobEntry>,
    skins: Map<u128, PlayerSkin>,
    entities: Seq<EntityInfo>,
    vis: Seq<Seen>,
    slot: int,
    n: nat,
)
    requires
        n <= vis.len() <= usize::MAX,
        0 <= slot < 4,
    ensures
        ({
            let adds = slot_layers(mobs, entities, vis, slot, n);
            let kind = OverlayKind::Opaque;
            &&& forall|i: int|
                0 <= i < adds.len() ==> is_layer_of(mobs, skins, entities, vis, kind, #[trigger] adds[i])
                    && within(adds[i], slot, n as int)
            &&& distinct(adds)
            &&& forall|a: Addition| #[trigger]
                is_layer_of(mobs, skins, entities, vis, kind, a) && within(a, slot, n as int)
                    ==> adds.contains(a)
        }),
    decreases n,
{
    if n > 0 {
        let k = (n - 1) as nat;
        let kind = OverlayKind::Opaque;
        lemma_slot_layers(mobs, skins, entities, vis, slot, k);
        lemma_overlay_layer(mobs, skins, entities, vis, k as int, slot, kind);
        let before = slot_layers(mobs, entities, vis, slot, k);
        let one = overlay_layer(mobs, entities, vis, k as int, slot, kind);
        let adds = before + one;
        assert forall|i: int| 0 <= i < adds.len() implies is_layer_of(
            mobs,
            skins,
            entities,
            vis,
            kind,
            #[trigger] adds[i],
        ) && within(adds[i], slot, n as int) by {
            if i < before.len() {
                assert(adds[i] == before[i]);
            } else {
                assert(adds[i] == one[0]);
            }
        }
        assert forall|i: int, j: int| 0 <= i < j < adds.len() implies (#[trigger] adds[i]).member != (
        #[trigger] adds[j]).member by {
            assert(adds[i] == before[i]);
            if j < before.len() {
                assert(adds[j] == before[j]);
            } else {
                assert(adds[j] == one[0]);
            }
        }
        assert forall|a: Addition| #[trigger]
            is_layer_of(mobs, skins, entities, vis, kind, a) && within(a, slot, n as int)
            implies adds.contains(a) by {
            if a.member.entity < k {
                assert(before.contains(a));
                let i = before.index_of(a);
                assert(adds[i] == a);
            } else {
                assert(adds[before.len() as int] == a);
            }
        }
    }
}

/// Whether the overlay of a layer stands in a slot before `slots`.
spec fn below(a: Addition, slots: int) -> bool {
    match a.member.overlay {
        None => true,
        Some(slot) => slot < slots,
    }
}

proof fn lemma_opaque_layers(
    mobs: Seq<MobEntry>,
    skins: Map<u128, PlayerSkin>,
    entities: Seq<EntityInfo>,
    vis: Seq<Seen>,
    slots: nat,
)
    requires
        vis.len() <= usize::MAX,
        slots <= 4,
    ensures
        ({
            let adds = opaque_layers(mobs, skins, entities, vis, slots);
            let kind = OverlayKind::Opaque;
            &&& forall|i: int|
                0 <= i < adds.len() ==> is_layer_of(mobs, skins, entities, vis, kind, #[trigger] adds[i])
                    && below(adds[i], slots as int)
            &&& distinct(adds)
            &&& forall|a: Addition| #[trigger]
                is_layer_of(mobs, skins, entities, vis, kind, a) && below(a, slots as int)
                    ==> adds.contains(a)
        }),
    decreases slots,
{
    let kind = OverlayKind::Opaque;
    let adds = opaque_layers(mobs, skins, entities, vis, slots);
    if slots == 0 {
        lemma_base_layers(mobs, skins, entities, vis, vis.len());
        assert forall|a: Addition| #[trigger]
            is_layer_of(mobs, skins, entities, vis, kind, a) && below(a, 0) implies adds.contains(
            a,
        ) by {
            let i = a.member.entity as int;
            assert(a.member.overlay is None);
            assert(adds[i].member == a.member);
            assert(adds[i].part_ranges == a.part_ranges);
            assert(adds[i] == a);
        }
    } else {
        let k = (slots - 1) as nat;
        lemma_opaque_layers(mobs, skins, entities, vis, k);
        lemma_slot_layers(mobs, skins, entities, vis, k as int, vis.len());
        let lower = opaque_layers(mobs, skins, entities, vis, k);
        let top = slot_layers(mobs, entities, vis, k as int, vis.len());
        assert(adds == lower + top);
        assert forall|i: int| 0 <= i < adds.len() implies is_layer_of(
            mobs,
            skins,
            entities,
            vis,
            kind,
            #[trigger] adds[i],
        ) && below(adds[i], slots as int) by {
            if i < lower.len() {
                assert(adds[i] == lower[i]);
            } else {
                assert(adds[i] == top[i - lower.len()]);
                assert(within(top[i - lower.len()], k as int, vis.len() as int));
            }
        }
        assert forall|i: int, j: int| 0 <= i < j < adds.len() implies (#[trigger] adds[i]).member != (
        #[trigger] adds[j]).member by {
            if j < lower.len() {
                assert(adds[i] == lower[i] && adds[j] == lower[j]);
            } else if i >= lower.len() {
                assert(adds[i] == top[i - lower.len()] && adds[j] == top[j - lower.len()]);
            } else {
                assert(adds[i] == lower[i] && adds[j] == top[j - lower.len()]);
                assert(below(lower[i], k as int));
                assert(within(top[j - lower.len()], k as int, vis.len() as int));
            }
        }
        assert forall|a: Addition| #[trigger]
            is_layer_of(mobs, skins, entities, vis, kind, a) && below(a, slots as int)
            implies adds.contains(a) by {
            if below(a, k as int) {
                let i = lower.index_of(a);
                assert(lower.contains(a));
                assert(adds[i] == a);
            } else {
                assert(within(a, k as int, vis.len() as int));
                assert(top.contains(a));
                let i = top.index_of(a);
                assert(adds[lower.len() + i] == a);
            }
        }
    }
}

proof fn lemma_entity_overlays(
    mobs: Seq<MobEntry>,
    skins: Map<u128, PlayerSkin>,
    entities: Seq<EntityInfo>,
    vis: Seq<Seen>,
    i: int,
    slots: nat,
    kind: OverlayKind,
)
    requires
        0 <= i < vis.len() <= usize::MAX,
        slots <= 4,
    ensures
        ({
            let adds = entity_overlays(mobs, entities, vis, i, slots, kind);
            &&& forall|j: int|
                0 <= j < adds.len() ==> is_layer_of(mobs, skins, entities, vis, kind, #[trigger] adds[j])
                    && below(adds[j], slots as int) && adds[j].member.overlay is Some
                    && adds[j].member.entity == i
            &&& distinct(adds)
            &&& forall|a: Addition| #[trigger]
                is_layer_of(mobs, skins, entities, vis, kind, a) && below(a, slots as int)
                    && a.member.overlay is Some && a.member.entity == i ==> adds.contains(a)
        }),
    decreases slots,
{
    if slots > 0 {
        let k = (slots - 1) as nat;
        lemma_entity_overlays(mobs, skins, entities, vis, i, k, kind);
        lemma_overlay_layer(mobs, skins, entities, vis, i, k as int, kind);
        let lower = entity_overlays(mobs, entities, vis, i, k, kind);
        let one = overlay_layer(mobs, entities, vis, i, k as int, kind);
        let adds = lower + one;
        assert forall|j: int| 0 <= j < adds.len() implies is_layer_of(
            mobs,
            skins,
            entities,
            vis,
            kind,
            #[trigger] adds[j],
        ) && below(adds[j], slots as int) && adds[j].member.overlay is Some && adds[j].member.entity
            == i by {
            if j < lower.len() {
                assert(adds[j] == lower[j]);
            } else {
                assert(adds[j] == one[0]);
            }
        }
        assert forall|p: int, q: int| 0 <= p < q < adds.len() implies (#[trigger] adds[p]).member != (
        #[trigger] adds[q]).member by {
            assert(adds[p] == lower[p]);
            if q < lower.len() {
                assert(adds[q] == lower[q]);
            } else {
                assert(adds[q] == one[0]);
                assert(below(lower[p], k as int));
            }
        }
        assert forall|a: Addition| #[trigger]
            is_layer_of(mobs, skins, entities, vis, kind, a) && below(a, slots as int)
                && a.member.overlay is Some && a.member.entity == i implies adds.contains(a) by {
            if below(a, k as int) {
                assert(lower.contains(a));
                let j = lower.index_of(a);
                assert(adds[j] == a);
            } else {
                assert(a.member.overlay == Some(k as usize));
                assert(adds[lower.len() as int] == a);
            }
        }
    }
}

proof fn lemma_emissive_layers(
    mobs: Seq<MobEntry>,
    skins: Map<u128, PlayerSkin>,
    entities: Seq<EntityInfo>,
    vis: Seq<Seen>,
    n: nat,
    kind: OverlayKind,
)
    requires
        n <= vis.len() <= usize::MAX,
        forall|v: int|
            0 <= v < vis.len() ==> (#[trigger] vis[v]).entry < mobs.len()
                && mobs[vis[v].entry as int].wf(),
    ensures
        ({
            let adds = emissive_layers(mobs, entities, vis, n, kind);
            &&& forall|j: int|
                0 <= j < adds.len() ==> is_layer_of(mobs, skins, entities, vis, kind, #[trigger] adds[j])
                    && adds[j].member.overlay is Some && adds[j].member.entity < n
            &&& distinct(adds)
            &&& forall|a: Addition| #[trigger]
                is_layer_of(mobs, skins, entities, vis, kind, a) && a.member.overlay is Some
                    && a.member.entity < n ==> adds.contains(a)
        }),
    decreases n,
{
    if n > 0 {
        let k = (n - 1) as nat;
        lemma_emissive_layers(mobs, skins, entities, vis, k, kind);
        lemma_entity_overlays(mobs, skins, entities, vis, k as int, 4, kind);
        let before = emissive_layers(mobs, entities, vis, k, kind);
        let more = entity_overlays(mobs, entities, vis, k as int, 4, kind);
        let adds = before + more;
        assert forall|j: int| 0 <= j < adds.len() implies is_layer_of(
            mobs,
            skins,
            entities,
            vis,
            kind,
            #[trigger] adds[j],
        ) && adds[j].member.overlay is Some && adds[j].member.entity < n by {
            if j < before.len() {
                assert(adds[j] == before[j]);
            } else {
                assert(adds[j] == more[j - before.len()]);
            }
        }
        assert forall|p: int, q: int| 0 <= p < q < adds.len() implies (#[trigger] adds[p]).member != (
        #[trigger] adds[q]).member by {
            if q < before.len() {
                assert(adds[p] == before[p] && adds[q] == before[q]);
            } else if p >= before.len() {
                assert(adds[p] == more[p - before.len()] && adds[q] == more[q - before.len()]);
            } else {
                assert(adds[p] == before[p] && adds[q] == more[q - before.len()]);
            }
        }
        assert forall|a: Addition| #[trigger]
            is_layer_of(mobs, skins, entities, vis, kind, a) && a.member.overlay is Some
                && a.member.entity < n implies adds.contains(a) by {
            if a.member.entity < k {
                assert(before.contains(a));
                let j = before.index_of(a);
                assert(adds[j] == a);
            } else {
                assert(mobs[vis[k as int].entry as int].wf());
                assert(below(a, 4));
                assert(more.contains(a));
                let j = more.index_of(a);
                assert(adds[before.len() + j] == a);
            }
        }
    }
}

/// Whether a layer is among some, by its model, its texture and its member.
spec fn listed(adds: Seq<Addition>, group: GroupView, m: Member) -> bool {
    exists|i: int|
        0 <= i < adds.len() && (#[trigger] adds[i]).vertex_buffer == group.vertex_buffer
            && adds[i].texture_set == group.texture_set && adds[i].member == m
}

/// Whether a layer has a place in some groups.
spec fn held(groups: Seq<GroupView>, a: Addition) -> bool {
    exists|g: int, k: int|
        0 <= g < groups.len() && 0 <= k < groups[g].members.len() && groups[g].vertex_buffer
            == a.vertex_buffer && groups[g].texture_set == a.texture_set
            && #[trigger] groups[g].members[k] == a.member
}

/// Whether a group has the parts of a layer with its model and texture.
spec fn has_parts_of(adds: Seq<Addition>, group: GroupView) -> bool {
    exists|i: int|
        0 <= i < adds.len() && (#[trigger] adds[i]).vertex_buffer == group.vertex_buffer
            && adds[i].texture_set == group.texture_set && adds[i].part_ranges == group.part_ranges
}

/// Whether no drawing has two places in some groups.
spec fn apart(groups: Seq<GroupView>) -> bool {
    forall|g: int, k: int, h: int, l: int|
        0 <= g < groups.len() && 0 <= k < groups[g].members.len() && 0 <= h < groups.len() && 0 <= l
            < groups[h].members.len() && #[trigger] groups[g].members[k]
            == #[trigger] groups[h].members[l] ==> g == h && k == l
}

/// A layer joins the one group with its model and its texture, or starts one at
/// the end.
proof fn lemma_with_addition(before: Seq<GroupView>, a: Addition) -> (at: int)
    ensures
        ({
            let groups = with_addition(before, a);
            &&& 0 <= at <= before.len()
            &&& groups.len() == if at < before.len() { before.len() } else { before.len() + 1 }
            &&& groups[at].vertex_buffer == a.vertex_buffer
            &&& groups[at].texture_set == a.texture_set
            &&& forall|g: int|
                0 <= g < before.len() && g != at ==> groups[g] == #[trigger] before[g]
            &&& at < before.len() ==> groups[at].part_ranges == before[at].part_ranges
                && before[at].vertex_buffer == a.vertex_buffer && before[at].texture_set
                == a.texture_set && groups[at].members == before[at].members.push(a.member)
            &&& at == before.len() ==> groups[at].part_ranges == a.part_ranges && groups[at].members
                == seq![a.member]
        }),
{
    group_from_bounds(before, a.vertex_buffer, a.texture_set, 0);
    group_from(before, a.vertex_buffer, a.texture_set, 0)
}

proof fn lemma_groups_are_listed(adds: Seq<Addition>, g: int, k: int)
    requires
        0 <= g < grouped(adds).len(),
        0 <= k < grouped(adds)[g].members.len(),
    ensures
        listed(adds, grouped(adds)[g], grouped(adds)[g].members[k]),
    decreases adds.len(),
{
    if adds.len() > 0 {
        let (less, a) = (adds.drop_last(), adds.last());
        let (before, groups) = (grouped(less), grouped(adds));
        let at = lemma_with_addition(before, a);
        if g < before.len() && k < before[g].members.len() {
            lemma_groups_are_listed(less, g, k);
            let i = choose|i: int|
                0 <= i < less.len() && (#[trigger] less[i]).vertex_buffer == before[g].vertex_buffer
                    && less[i].texture_set == before[g].texture_set && less[i].member
                    == before[g].members[k];
            assert(adds[i] == less[i]);
        } else {
            assert(g == at);
            assert(adds[adds.len() - 1] == a);
        }
    }
}

proof fn lemma_layers_are_held(adds: Seq<Addition>, i: int)
    requires
        0 <= i < adds.len(),
    ensures
        held(grouped(adds), adds[i]),
    decreases adds.len(),
{
    let (less, a) = (adds.drop_last(), adds.last());
    let (before, groups) = (grouped(less), grouped(adds));
    let at = lemma_with_addition(before, a);
    if i < less.len() {
        lemma_layers_are_held(less, i);
        let (g, k) = choose|g: int, k: int|
            0 <= g < before.len() && 0 <= k < before[g].members.len() && before[g].vertex_buffer
                == less[i].vertex_buffer && before[g].texture_set == less[i].texture_set
                && #[trigger] before[g].members[k] == less[i].member;
        assert(groups[g].members[k] == before[g].members[k]);
    } else {
        let k = groups[at].members.len() - 1;
        assert(groups[at].members[k] == a.member);
    }
}

proof fn lemma_groups_have_parts(adds: Seq<Addition>, g: int)
    requires
        0 <= g < grouped(adds).len(),
    ensures
        has_parts_of(adds, grouped(adds)[g]),
    decreases adds.len(),
{
    if adds.len() > 0 {
        let (less, a) = (adds.drop_last(), adds.last());
        let (before, groups) = (grouped(less), grouped(adds));
        let at = lemma_with_addition(before, a);
        if g < before.len() {
            lemma_groups_have_parts(less, g);
            let i = choose|i: int|
                0 <= i < less.len() && (#[trigger] less[i]).vertex_buffer == before[g].vertex_buffer
                    && less[i].texture_set == before[g].texture_set && less[i].part_ranges
                    == before[g].part_ranges;
            assert(adds[i] == less[i]);
        } else {
            assert(adds[adds.len() - 1] == a);
        }
    }
}

proof fn lemma_groups_are_apart(adds: Seq<Addition>, g: int, k: int, h: int, l: int)
    requires
        distinct(adds),
        0 <= g < grouped(adds).len(),
        0 <= k < grouped(adds)[g].members.len(),
        0 <= h < grouped(adds).len(),
        0 <= l < grouped(adds)[h].members.len(),
        grouped(adds)[g].members[k] == grouped(adds)[h].members[l],
    ensures
        g == h && k == l,
    decreases adds.len(),
{
    if adds.len() > 0 {
        let (less, a) = (adds.drop_last(), adds.last());
        let (before, groups) = (grouped(less), grouped(adds));
        let at = lemma_with_addition(before, a);
        let old_gk = g < before.len() && k < before[g].members.len();
        let old_hl = h < before.len() && l < before[h].members.len();
        assert(distinct(less)) by {
            assert forall|i: int, j: int| 0 <= i < j < less.len() implies (#[trigger] less[i]).member
                != (#[trigger] less[j]).member by {
                assert(adds[i] == less[i] && adds[j] == less[j]);
            }
        }
        if old_gk && old_hl {
            assert(before[g].members[k] == before[h].members[l]);
            lemma_groups_are_apart(less, g, k, h, l);
        } else if old_gk {
            lemma_last_is_new(adds, g, k);
        } else if old_hl {
            lemma_last_is_new(adds, h, l);
        }
    }
}

proof fn lemma_last_is_new(adds: Seq<Addition>, g: int, k: int)
    requires
        adds.len() > 0,
        distinct(adds),
        0 <= g < grouped(adds.drop_last()).len(),
        0 <= k < grouped(adds.drop_last())[g].members.len(),
    ensures
        grouped(adds.drop_last())[g].members[k] != adds.last().member,
{
    let less = adds.drop_last();
    let before = grouped(less);
    lemma_groups_are_listed(less, g, k);
    let i = choose|i: int|
        0 <= i < less.len() && (#[trigger] less[i]).vertex_buffer == before[g].vertex_buffer
            && less[i].texture_set == before[g].texture_set && less[i].member
            == before[g].members[k];
    assert(adds[i] == less[i]);
    assert(adds[i].member != adds[adds.len() - 1].member);
}

/// Whether a call draws an instance.
pub open spec fn draws(e: Emitted, r: int, k: int) -> bool {
    &&& 0 <= r < e.records.len()
    &&& e.records[r].first_instance <= k < e.records[r].first_instance
        + e.records[r].instance_count
    &&& k < e.instances.len()
}

/// Whether a call and an instance are of a group: its model, its texture, and a
/// part of it that has vertices, for one of its members.
spec fn is_of_group(group: GroupView, record: DrawRecord, instance: EntityInstance) -> bool {
    &&& record.vertex_buffer == group.vertex_buffer
    &&& record.texture_set == group.texture_set
    &&& instance.part < group.part_ranges.len()
    &&& group.part_ranges[instance.part as int] == (record.part_start, record.part_count)
    &&& record.part_count != 0
    &&& group.members.contains(instance.member)
}

/// Whether a part of a group is drawn for a member.
spec fn is_drawn(e: Emitted, group: GroupView, member: Member, part: int) -> bool {
    exists|r: int, k: int| #[trigger]
        draws(e, r, k) && e.instances[k] == (EntityInstance { member, part: part as usize })
            && is_of_group(group, e.records[r], e.instances[k])
}

/// Whether what was emitted before is still there.
spec fn extends(before: Emitted, e: Emitted) -> bool {
    &&& before.records.len() <= e.records.len()
    &&& before.instances.len() <= e.instances.len()
    &&& forall|r: int| 0 <= r < before.records.len() ==> e.records[r] == #[trigger] before.records[r]
    &&& forall|k: int|
        0 <= k < before.instances.len() ==> e.instances[k] == #[trigger] before.instances[k]
}

proof fn lemma_still_drawn(before: Emitted, e: Emitted, group: GroupView, member: Member, part: int)
    requires
        extends(before, e),
        is_drawn(before, group, member, part),
    ensures
        is_drawn(e, group, member, part),
{
    let (r, k) = choose|r: int, k: int| #[trigger]
        draws(before, r, k) && before.instances[k] == (EntityInstance {
            member,
            part: part as usize,
        }) && is_of_group(group, before.records[r], before.instances[k]);
    assert(e.records[r] == before.records[r] && e.instances[k] == before.instances[k]);
    assert(draws(e, r, k));
}

proof fn lemma_emitted_parts(before: Emitted, group: GroupView, n: nat)
    requires
        n <= group.part_ranges.len() <= usize::MAX,
        emitted_parts(before, group, n).instances.len() <= u32::MAX,
        group.members.no_duplicates(),
    ensures
        ({
            let e = emitted_parts(before, group, n);
            &&& extends(before, e)
            &&& forall|r: int, k: int| #[trigger]
                draws(e, r, k) && before.records.len() <= r ==> is_of_group(
                    group,
                    e.records[r],
                    e.instances[k],
                ) && before.instances.len() <= k
            &&& forall|j: int, p: int|
                0 <= j < group.members.len() && 0 <= p < n && (#[trigger] group.part_ranges[p]).1 != 0
                    ==> is_drawn(e, group, #[trigger] group.members[j], p)
            &&& forall|k: int|
                before.instances.len() <= k < e.instances.len() ==> (
                #[trigger] e.instances[k]).part < n && group.members.contains(e.instances[k].member)
            &&& forall|k: int, l: int|
                before.instances.len() <= k < l < e.instances.len() ==> #[trigger] e.instances[k]
                    != #[trigger] e.instances[l]
        }),
    decreases n,
{
    if n > 0 {
        let q = (n - 1) as nat;
        let mid = emitted_parts(before, group, q);
        let e = emitted_parts(before, group, n);
        assert(mid.instances.len() <= e.instances.len());
        lemma_emitted_parts(before, group, q);
        let (start, count) = group.part_ranges[q as int];
        if count != 0 {
            let new = part_instances(group.members, q as usize);
            assert(e.instances == mid.instances + new);
            let last = mid.records.len() as int;
            assert forall|k: int| mid.instances.len() <= k < e.instances.len() implies (
            #[trigger] e.instances[k]) == (EntityInstance {
                member: group.members[k - mid.instances.len()],
                part: q as usize,
            }) by {
                assert(e.instances[k] == new[k - mid.instances.len()]);
            }
            assert(extends(mid, e));
            assert forall|r: int, k: int| #[trigger]
                draws(e, r, k) && before.records.len() <= r implies is_of_group(
                group,
                e.records[r],
                e.instances[k],
            ) && before.instances.len() <= k by {
                if r < last {
                    assert(e.records[r] == mid.records[r]);
                    lemma_runs_lie_inside(before, group, q, r);
                    assert(k < mid.instances.len());
                    assert(draws(mid, r, k));
                    assert(e.instances[k] == mid.instances[k]);
                } else {
                    assert(mid.instances.len() <= k < e.instances.len());
                    assert(group.members.contains(group.members[k - mid.instances.len()]));
                }
            }
            assert forall|j: int, p: int|
                0 <= j < group.members.len() && 0 <= p < n && (#[trigger] group.part_ranges[p]).1
                    != 0 implies is_drawn(e, group, #[trigger] group.members[j], p) by {
                if p < q {
                    lemma_still_drawn(mid, e, group, group.members[j], p);
                } else {
                    let k = mid.instances.len() + j;
                    assert(e.instances[k] == (EntityInstance {
                        member: group.members[j],
                        part: q as usize,
                    }));
                    assert(group.members.contains(group.members[j]));
                    assert(draws(e, last, k));
                }
            }
            assert forall|k: int| before.instances.len() <= k < e.instances.len() implies (
            #[trigger] e.instances[k]).part < n && group.members.contains(e.instances[k].member) by {
                if k < mid.instances.len() {
                    assert(e.instances[k] == mid.instances[k]);
                } else {
                    assert(group.members.contains(group.members[k - mid.instances.len()]));
                }
            }
            assert forall|k: int, l: int|
                before.instances.len() <= k < l < e.instances.len() implies #[trigger] e.instances[k]
                != #[trigger] e.instances[l] by {
                if l < mid.instances.len() {
                    assert(e.instances[k] == mid.instances[k] && e.instances[l] == mid.instances[l]);
                } else if k < mid.instances.len() {
                    assert(e.instances[k] == mid.instances[k]);
                    assert(mid.instances[k].part < q);
                } else {
                    assert(group.members[k - mid.instances.len()] != group.members[l
                        - mid.instances.len()]);
                }
            }
        } else {
            assert forall|j: int, p: int|
                0 <= j < group.members.len() && 0 <= p < n && (#[trigger] group.part_ranges[p]).1
                    != 0 implies is_drawn(e, group, #[trigger] group.members[j], p) by {
                assert(p < q);
            }
        }
    }
}

/// The runs of a group's parts end within its instances.
proof fn lemma_runs_lie_inside(before: Emitted, group: GroupView, n: nat, r: int)
    requires
        emitted_parts(before, group, n).instances.len() <= u32::MAX,
        before.records.len() <= r < emitted_parts(before, group, n).records.len(),
    ensures
        ({
            let e = emitted_parts(before, group, n);
            e.records[r].first_instance + e.records[r].instance_count <= e.instances.len()
        }),
    decreases n,
{
    if n > 0 {
        let mid = emitted_parts(before, group, (n - 1) as nat);
        let e = emitted_parts(before, group, n);
        assert(mid.instances.len() <= e.instances.len());
        if r < mid.records.len() {
            lemma_runs_lie_inside(before, group, (n - 1) as nat, r);
        }
    }
}

proof fn lemma_parts_extend(before: Emitted, group: GroupView, n: nat)
    ensures
        extends(before, emitted_parts(before, group, n)),
    decreases n,
{
    if n > 0 {
        lemma_parts_extend(before, group, (n - 1) as nat);
    }
}

/// Whether what was emitted of groups is right: each call draws instances of one
/// of the groups, every part that has vertices is drawn for every member, and no
/// instance occurs twice.
spec fn is_emitted(start: nat, groups: Seq<GroupView>, n: int, e: Emitted) -> bool {
    &&& start <= e.instances.len()
    &&& forall|r: int, k: int| #[trigger]
        draws(e, r, k) ==> start <= k && exists|g: int|
            0 <= g < n && is_of_group(#[trigger] groups[g], e.records[r], e.instances[k])
    &&& forall|g: int, j: int, p: int|
        #![trigger groups[g].members[j], groups[g].part_ranges[p]]
        0 <= g < n && 0 <= j < groups[g].members.len() && 0 <= p < groups[g].part_ranges.len()
            && groups[g].part_ranges[p].1 != 0 ==> is_drawn(e, groups[g], groups[g].members[j], p)
    &&& forall|k: int|
        start <= k < e.instances.len() ==> exists|g: int|
            0 <= g < n && (#[trigger] groups[g]).members.contains((#[trigger] e.instances[k]).member)
    &&& forall|k: int, l: int|
        start <= k < l < e.instances.len() ==> #[trigger] e.instances[k] != #[trigger] e.instances[l]
}

proof fn lemma_emitted(instances: Seq<EntityInstance>, groups: Seq<GroupView>, n: nat)
    requires
        n <= groups.len(),
        emitted(instances, groups, n).instances.len() <= u32::MAX,
        apart(groups),
        forall|g: int| 0 <= g < groups.len() ==> (#[trigger] groups[g]).part_ranges.len() <= usize::MAX,
    ensures
        is_emitted(instances.len(), groups, n as int, emitted(instances, groups, n)),
        forall|k: int|
            0 <= k < instances.len() ==> emitted(instances, groups, n).instances[k]
                == #[trigger] instances[k],
    decreases n,
{
    if n > 0 {
        let m = (n - 1) as nat;
        let before = emitted(instances, groups, m);
        let group = groups[m as int];
        let e = emitted(instances, groups, n);
        lemma_parts_extend(before, group, group.part_ranges.len());
        lemma_emitted(instances, groups, m);
        assert(group.members.no_duplicates()) by {
            assert forall|k: int, l: int|
                0 <= k < group.members.len() && 0 <= l < group.members.len() && k
                    != l implies group.members[k] != group.members[l] by {
                assert(groups[m as int].members[k] == group.members[k]);
                assert(groups[m as int].members[l] == group.members[l]);
            }
        }
        lemma_emitted_parts(before, group, group.part_ranges.len());
        let start = instances.len();
        assert forall|r: int, k: int| #[trigger] draws(e, r, k) implies start <= k && exists|g: int|
            0 <= g < n && is_of_group(#[trigger] groups[g], e.records[r], e.instances[k]) by {
            if r < before.records.len() {
                assert(e.records[r] == before.records[r]);
                lemma_calls_lie_inside(instances, groups, m, r);
                assert(draws(before, r, k));
                assert(e.instances[k] == before.instances[k]);
                let g = choose|g: int|
                    0 <= g < m && is_of_group(
                        #[trigger] groups[g],
                        before.records[r],
                        before.instances[k],
                    );
                assert(is_of_group(groups[g], e.records[r], e.instances[k]));
            } else {
                assert(is_of_group(groups[m as int], e.records[r], e.instances[k]));
            }
        }
        assert forall|g: int, j: int, p: int|
            #![trigger groups[g].members[j], groups[g].part_ranges[p]]
            0 <= g < n && 0 <= j < groups[g].members.len() && 0 <= p < groups[g].part_ranges.len()
                && groups[g].part_ranges[p].1 != 0 implies is_drawn(
            e,
            groups[g],
            groups[g].members[j],
            p,
        ) by {
            if g < m {
                assert(is_drawn(before, groups[g], groups[g].members[j], p));
                lemma_still_drawn(before, e, groups[g], groups[g].members[j], p);
            } else {
                assert(group.part_ranges[p].1 != 0);
                assert(is_drawn(e, group, group.members[j], p));
            }
        }
        assert forall|k: int| start <= k < e.instances.len() implies exists|g: int|
            0 <= g < n && (#[trigger] groups[g]).members.contains((#[trigger] e.instances[k]).member) by {
            if k < before.instances.len() {
                assert(e.instances[k] == before.instances[k]);
                let g = choose|g: int|
                    0 <= g < m && (#[trigger] groups[g]).members.contains(
                        before.instances[k].member,
                    );
                assert(groups[g].members.contains(e.instances[k].member));
            } else {
                assert(groups[m as int].members.contains(e.instances[k].member));
            }
        }
        assert forall|k: int, l: int| start <= k < l < e.instances.len() implies
            #[trigger] e.instances[k] != #[trigger] e.instances[l] by {
            if l < before.instances.len() {
                assert(e.instances[k] == before.instances[k] && e.instances[l]
                    == before.instances[l]);
            } else if k < before.instances.len() {
                assert(e.instances[k] == before.instances[k]);
                let x = before.instances[k].member;
                let g = choose|g: int| 0 <= g < m && (#[trigger] groups[g]).members.contains(x);
                let i = groups[g].members.index_of(x);
                assert(groups[g].members[i] == x);
                if e.instances[l].member == x {
                    let j = group.members.index_of(x);
                    assert(group.members.contains(x));
                    assert(groups[m as int].members[j] == groups[g].members[i]);
                }
            }
        }
    }
}

proof fn lemma_calls_lie_inside(
    instances: Seq<EntityInstance>,
    groups: Seq<GroupView>,
    n: nat,
    r: int,
)
    requires
        emitted(instances, groups, n).instances.len() <= u32::MAX,
        0 <= r < emitted(instances, groups, n).records.len(),
    ensures
        ({
            let e = emitted(instances, groups, n);
            e.records[r].first_instance + e.records[r].instance_count <= e.instances.len()
        }),
    decreases n,
{
    if n > 0 {
        let before = emitted(instances, groups, (n - 1) as nat);
        let group = groups[n - 1];
        lemma_parts_extend(before, group, group.part_ranges.len());
        if r < before.records.len() {
            lemma_calls_lie_inside(instances, groups, (n - 1) as nat, r);
        } else {
            lemma_runs_lie_inside(before, group, group.part_ranges.len(), r);
        }
    }
}

/// Whether models that lie in one buffer have the same parts.
pub open spec fn models_are_told_apart(
    mobs: Seq<MobEntry>,
    skins: Map<u128, PlayerSkin>,
    entities: Seq<EntityInfo>,
    vis: Seq<Seen>,
    kind: OverlayKind,
) -> bool {
    forall|a: Addition, b: Addition| #[trigger]
        is_layer_of(mobs, skins, entities, vis, kind, a) && #[trigger] is_layer_of(
            mobs,
            skins,
            entities,
            vis,
            kind,
            b,
        ) && a.vertex_buffer == b.vertex_buffer ==> a.part_ranges == b.part_ranges
}

/// Whether a call draws a part of a layer.
pub open spec fn is_call_of(a: Addition, record: DrawRecord, instance: EntityInstance) -> bool {
    &&& record.vertex_buffer == a.vertex_buffer
    &&& record.texture_set == a.texture_set
    &&& instance.member == a.member
    &&& instance.part < a.part_ranges.len()
    &&& a.part_ranges[instance.part as int] == (record.part_start, record.part_count)
    &&& record.part_count != 0
}

/// Whether the calls of a pass draw its layers: every call draws a part of one of
/// them, from the instances of this pass; every part that has vertices is drawn for
/// every one of them; and nothing is drawn twice.
pub open spec fn draws_its_layers(
    mobs: Seq<MobEntry>,
    skins: Map<u128, PlayerSkin>,
    entities: Seq<EntityInfo>,
    vis: Seq<Seen>,
    kind: OverlayKind,
    start: int,
    e: Emitted,
) -> bool {
    &&& forall|r: int, k: int| #[trigger]
        draws(e, r, k) ==> start <= k && exists|a: Addition| #[trigger]
            is_layer_of(mobs, skins, entities, vis, kind, a) && is_call_of(
                a,
                e.records[r],
                e.instances[k],
            )
    &&& forall|a: Addition, p: int|
        #![trigger is_layer_of(mobs, skins, entities, vis, kind, a), a.part_ranges[p]]
        is_layer_of(mobs, skins, entities, vis, kind, a) && 0 <= p < a.part_ranges.len()
            && a.part_ranges[p].1 != 0 ==> exists|r: int, k: int| #[trigger]
            draws(e, r, k) && e.instances[k].part == p && is_call_of(a, e.records[r], e.instances[k])
    &&& forall|k: int, l: int|
        start <= k < l < e.instances.len() ==> #[trigger] e.instances[k] != #[trigger] e.instances[l]
}

proof fn lemma_part_ranges_fit(
    mobs: Seq<MobEntry>,
    skins: Map<u128, PlayerSkin>,
    entities: Seq<EntityInfo>,
    vis: Seq<Seen>,
    kind: OverlayKind,
    a: Addition,
)
    requires
        is_layer_of(mobs, skins, entities, vis, kind, a),
    ensures
        a.part_ranges.len() <= usize::MAX,
{
    let v = a.member.entity as int;
    let info = entities[vis[v].info as int];
    let entry = mobs[vis[v].entry as int];
    match a.member.overlay {
        None => {
            let pool = if info.is_baby && entry.baby_variants is Some {
                entry.baby_variants.unwrap()@
            } else {
                entry.adult_variants@
            };
            assert(exists|at: int| (#[trigger] pool[at]).part_ranges@ == a.part_ranges);
            let at = choose|at: int| (#[trigger] pool[at]).part_ranges@ == a.part_ranges;
            assert(pool[at].part_ranges.len() == pool[at].part_ranges@.len());
        },
        Some(slot) => {
            let layers = if info.is_baby {
                entry.baby_overlays@
            } else {
                entry.adult_overlays@
            };
            let pool = layers[slot as int]@;
            assert(exists|at: int| (#[trigger] pool[at]).part_ranges@ == a.part_ranges);
            let at = choose|at: int| (#[trigger] pool[at]).part_ranges@ == a.part_ranges;
            assert(pool[at].part_ranges.len() == pool[at].part_ranges@.len());
        },
    }
}

proof fn lemma_pass(
    mobs: Seq<MobEntry>,
    skins: Map<u128, PlayerSkin>,
    entities: Seq<EntityInfo>,
    vis: Seq<Seen>,
    kind: OverlayKind,
    adds: Seq<Addition>,
    instances: Seq<EntityInstance>,
)
    requires
        forall|i: int|
            0 <= i < adds.len() ==> is_layer_of(mobs, skins, entities, vis, kind, #[trigger] adds[i]),
        distinct(adds),
        forall|a: Addition| #[trigger]
            is_layer_of(mobs, skins, entities, vis, kind, a) ==> adds.contains(a),
        models_are_told_apart(mobs, skins, entities, vis, kind),
        emitted(instances, grouped(adds), grouped(adds).len()).instances.len() <= u32::MAX,
    ensures
        ({
            let e = emitted(instances, grouped(adds), grouped(adds).len());
            &&& draws_its_layers(mobs, skins, entities, vis, kind, instances.len() as int, e)
            &&& instances.len() <= e.instances.len()
            &&& forall|k: int|
                0 <= k < instances.len() ==> e.instances[k] == #[trigger] instances[k]
        }),
{
    let groups = grouped(adds);
    let e = emitted(instances, groups, groups.len());
    assert(apart(groups)) by {
        assert forall|g: int, k: int, h: int, l: int|
            0 <= g < groups.len() && 0 <= k < groups[g].members.len() && 0 <= h < groups.len() && 0
                <= l < groups[h].members.len() && #[trigger] groups[g].members[k]
                == #[trigger] groups[h].members[l] implies g == h && k == l by {
            lemma_groups_are_apart(adds, g, k, h, l);
        }
    }
    assert forall|g: int| 0 <= g < groups.len() implies (#[trigger] groups[g]).part_ranges.len()
        <= usize::MAX && has_parts_of(adds, groups[g]) by {
        lemma_groups_have_parts(adds, g);
        let i = choose|i: int|
            0 <= i < adds.len() && (#[trigger] adds[i]).vertex_buffer == groups[g].vertex_buffer
                && adds[i].texture_set == groups[g].texture_set && adds[i].part_ranges
                == groups[g].part_ranges;
        lemma_part_ranges_fit(mobs, skins, entities, vis, kind, adds[i]);
    }
    lemma_emitted(instances, groups, groups.len());
    assert forall|r: int, k: int| #[trigger] draws(e, r, k) implies instances.len() <= k && exists|
        a: Addition,
    | #[trigger]
        is_layer_of(mobs, skins, entities, vis, kind, a) && is_call_of(
            a,
            e.records[r],
            e.instances[k],
        ) by {
        let g = choose|g: int|
            0 <= g < groups.len() && is_of_group(#[trigger] groups[g], e.records[r], e.instances[k]);
        let j = groups[g].members.index_of(e.instances[k].member);
        lemma_groups_are_listed(adds, g, j);
        lemma_same_parts(mobs, skins, entities, vis, kind, adds, g, groups[g].members[j]);
    }
    assert forall|a: Addition, p: int|
        #![trigger is_layer_of(mobs, skins, entities, vis, kind, a), a.part_ranges[p]]
        is_layer_of(mobs, skins, entities, vis, kind, a) && 0 <= p < a.part_ranges.len()
            && a.part_ranges[p].1 != 0 implies exists|r: int, k: int| #[trigger]
        draws(e, r, k) && e.instances[k].part == p && is_call_of(a, e.records[r], e.instances[k]) by {
        let i = adds.index_of(a);
        assert(adds.contains(a));
        lemma_layers_are_held(adds, i);
        let (g, j) = choose|g: int, j: int|
            0 <= g < groups.len() && 0 <= j < groups[g].members.len() && groups[g].vertex_buffer
                == a.vertex_buffer && groups[g].texture_set == a.texture_set
                && #[trigger] groups[g].members[j] == a.member;
        lemma_groups_have_parts(adds, g);
        let i2 = choose|i2: int|
            0 <= i2 < adds.len() && (#[trigger] adds[i2]).vertex_buffer == groups[g].vertex_buffer
                && adds[i2].texture_set == groups[g].texture_set && adds[i2].part_ranges
                == groups[g].part_ranges;
        assert(is_layer_of(mobs, skins, entities, vis, kind, adds[i2]));
        assert(groups[g].part_ranges == a.part_ranges);
        assert(groups[g].part_ranges[p].1 != 0);
        assert(is_drawn(e, groups[g], groups[g].members[j], p));
        let (r, k) = choose|r: int, k: int| #[trigger]
            draws(e, r, k) && e.instances[k] == (EntityInstance {
                member: a.member,
                part: p as usize,
            }) && is_of_group(groups[g], e.records[r], e.instances[k]);
        assert(draws(e, r, k));
        lemma_part_ranges_fit(mobs, skins, entities, vis, kind, a);
        assert(is_call_of(a, e.records[r], e.instances[k]));
    }
}

proof fn lemma_same_parts(
    mobs: Seq<MobEntry>,
    skins: Map<u128, PlayerSkin>,
    entities: Seq<EntityInfo>,
    vis: Seq<Seen>,
    kind: OverlayKind,
    adds: Seq<Addition>,
    g: int,
    m: Member,
)
    requires
        forall|i: int|
            0 <= i < adds.len() ==> is_layer_of(mobs, skins, entities, vis, kind, #[trigger] adds[i]),
        models_are_told_apart(mobs, skins, entities, vis, kind),
        0 <= g < grouped(adds).len(),
        listed(adds, grouped(adds)[g], m),
    ensures
        exists|a: Addition| #[trigger]
            is_layer_of(mobs, skins, entities, vis, kind, a) && a.vertex_buffer == grouped(
                adds,
            )[g].vertex_buffer && a.texture_set == grouped(adds)[g].texture_set && a.member == m
                && a.part_ranges == grouped(adds)[g].part_ranges,
{
    let group = grouped(adds)[g];
    lemma_groups_have_parts(adds, g);
    let i = choose|i: int|
        0 <= i < adds.len() && (#[trigger] adds[i]).vertex_buffer == group.vertex_buffer
            && adds[i].texture_set == group.texture_set && adds[i].member == m;
    let j = choose|j: int|
        0 <= j < adds.len() && (#[trigger] adds[j]).vertex_buffer == group.vertex_buffer
            && adds[j].texture_set == group.texture_set && adds[j].part_ranges == group.part_ranges;
    assert(is_layer_of(mobs, skins, entities, vis, kind, adds[i]));
    assert(is_layer_of(mobs, skins, entities, vis, kind, adds[j]));
}

/// Every layer of a frame is drawn in the pass of its kind, with its own model and
/// texture, once for each part that has vertices, and nothing else is drawn. The
/// instances of the three passes follow one another.
pub proof fn every_layer_is_drawn_once(
    mobs: Seq<MobEntry>,
    skins: Map<u128, PlayerSkin>,
    entities: Seq<EntityInfo>,
)
    requires
        are_entries(mobs),
        mobs.len() <= usize::MAX,
        entities.len() <= usize::MAX,
        frame_parts(mobs, skins, entities).2.instances.len() <= u32::MAX,
        forall|kind: OverlayKind| #[trigger]
            models_are_told_apart(
                mobs,
                skins,
                entities,
                seen(mobs, entities, entities.len()),
                kind,
            ),
    ensures
        ({
            let vis = seen(mobs, entities, entities.len());
            let (opaque, eyes, swirl) = frame_parts(mobs, skins, entities);
            &&& draws_its_layers(mobs, skins, entities, vis, OverlayKind::Opaque, 0, opaque)
            &&& draws_its_layers(
                mobs,
                skins,
                entities,
                vis,
                OverlayKind::EyesTranslucent,
                opaque.instances.len() as int,
                eyes,
            )
            &&& draws_its_layers(
                mobs,
                skins,
                entities,
                vis,
                OverlayKind::SwirlAdditive,
                eyes.instances.len() as int,
                swirl,
            )
            &&& opaque.instances.len() <= eyes.instances.len() <= swirl.instances.len()
            &&& swirl.instances.take(eyes.instances.len() as int) == eyes.instances
            &&& swirl.instances.take(opaque.instances.len() as int) == opaque.instances
        }),
{
    lemma_seen(mobs, entities, entities.len());
    let vis = seen(mobs, entities, entities.len());
    let opaque_adds = opaque_layers(mobs, skins, entities, vis, 4);
    let eye_adds = emissive_layers(mobs, entities, vis, vis.len(), OverlayKind::EyesTranslucent);
    let swirl_adds = emissive_layers(mobs, entities, vis, vis.len(), OverlayKind::SwirlAdditive);
    let (opaque, eyes, swirl) = frame_parts(mobs, skins, entities);
    lemma_emitted_grows(opaque.instances, grouped(eye_adds), grouped(eye_adds).len());
    lemma_emitted_grows(eyes.instances, grouped(swirl_adds), grouped(swirl_adds).len());
    assert forall|v: int| 0 <= v < vis.len() implies (#[trigger] vis[v]).entry < mobs.len()
        && mobs[vis[v].entry as int].wf() by {}
    lemma_opaque_layers(mobs, skins, entities, vis, 4);
    assert forall|a: Addition| #[trigger]
        is_layer_of(mobs, skins, entities, vis, OverlayKind::Opaque, a) implies below(a, 4) by {
        assert(vis[a.member.entity as int].entry < mobs.len());
    }
    lemma_pass(mobs, skins, entities, vis, OverlayKind::Opaque, opaque_adds, Seq::empty());
    lemma_emissive_layers(mobs, skins, entities, vis, vis.len(), OverlayKind::EyesTranslucent);
    lemma_pass(
        mobs,
        skins,
        entities,
        vis,
        OverlayKind::EyesTranslucent,
        eye_adds,
        opaque.instances,
    );
    lemma_emissive_layers(mobs, skins, entities, vis, vis.len(), OverlayKind::SwirlAdditive);
    lemma_pass(mobs, skins, entities, vis, OverlayKind::SwirlAdditive, swirl_adds, eyes.instances);
    assert(swirl.instances.take(eyes.instances.len() as int) =~= eyes.instances);
    assert(swirl.instances.take(opaque.instances.len() as int) =~= opaque.instances);
}

proof fn lemma_emitted_grows(instances: Seq<EntityInstance>, groups: Seq<GroupView>, n: nat)
    requires
        n <= groups.len(),
    ensures
        instances.len() <= emitted(instances, groups, n).instances.len(),
    decreases n,
{
    if n > 0 {
        lemma_emitted_grows(instances, groups, (n - 1) as nat);
        let before = emitted(instances, groups, (n - 1) as nat);
        lemma_parts_extend(before, groups[n - 1], groups[n - 1].part_ranges.len());
    }
}

/// In the pass of the opaque layers a player whose skin is there wears it, on the
/// model that it is made for; whoever else is drawn has the texture of the
/// variant. This is so of every group that holds the model of an entity, and every
/// entity that is drawn has its model in a group.
pub proof fn players_wear_their_skins(
    mobs: Seq<MobEntry>,
    skins: Map<u128, PlayerSkin>,
    entities: Seq<EntityInfo>,
)
    requires
        are_entries(mobs),
        mobs.len() <= usize::MAX,
        entities.len() <= usize::MAX,
    ensures
        ({
            let vis = seen(mobs, entities, entities.len());
            let groups = grouped(opaque_layers(mobs, skins, entities, vis, 4));
            &&& forall|g: int, k: int|
                0 <= g < groups.len() && 0 <= k < groups[g].members.len() && (
                #[trigger] groups[g].members[k]).overlay is None ==> {
                    let seen_here = vis[groups[g].members[k].entity as int];
                    let info = entities[seen_here.info as int];
                    let entry = mobs[seen_here.entry as int];
                    let pool = if info.is_baby && entry.baby_variants is Some {
                        entry.baby_variants.unwrap()@
                    } else {
                        entry.adult_variants@
                    };
                    let last = pool.len() - 1;
                    &&& groups[g].members[k].entity < vis.len()
                    &&& if info.kind == MobKind::Player && info.player_id is Some
                        && skins.contains_key(info.player_id.unwrap()) {
                        let skin = skins[info.player_id.unwrap()];
                        &&& groups[g].texture_set == skin.texture_set
                        &&& !skin.slim ==> groups[g].vertex_buffer == pool[0].vertex_buffer
                        &&& skin.slim && last >= 1 ==> groups[g].vertex_buffer
                            == pool[1].vertex_buffer
                    } else {
                        &&& info.variant_index <= last ==> groups[g].texture_set
                            == pool[info.variant_index as int].texture_set
                            && groups[g].vertex_buffer
                            == pool[info.variant_index as int].vertex_buffer
                        &&& info.variant_index > last ==> groups[g].texture_set
                            == pool[last].texture_set && groups[g].vertex_buffer
                            == pool[last].vertex_buffer
                    }
                }
            &&& forall|v: int|
                0 <= v < vis.len() ==> #[trigger] has_model(groups, v)
        }),
{
    lemma_seen(mobs, entities, entities.len());
    let vis = seen(mobs, entities, entities.len());
    let adds = opaque_layers(mobs, skins, entities, vis, 4);
    let groups = grouped(adds);
    lemma_opaque_layers(mobs, skins, entities, vis, 4);
    assert forall|g: int, k: int|
        0 <= g < groups.len() && 0 <= k < groups[g].members.len() && (
        #[trigger] groups[g].members[k]).overlay is None implies {
        let seen_here = vis[groups[g].members[k].entity as int];
        let info = entities[seen_here.info as int];
        let entry = mobs[seen_here.entry as int];
        let pool = if info.is_baby && entry.baby_variants is Some {
            entry.baby_variants.unwrap()@
        } else {
            entry.adult_variants@
        };
        let last = pool.len() - 1;
        &&& groups[g].members[k].entity < vis.len()
        &&& if info.kind == MobKind::Player && info.player_id is Some && skins.contains_key(
            info.player_id.unwrap(),
        ) {
            let skin = skins[info.player_id.unwrap()];
            &&& groups[g].texture_set == skin.texture_set
            &&& !skin.slim ==> groups[g].vertex_buffer == pool[0].vertex_buffer
            &&& skin.slim && last >= 1 ==> groups[g].vertex_buffer == pool[1].vertex_buffer
        } else {
            &&& info.variant_index <= last ==> groups[g].texture_set
                == pool[info.variant_index as int].texture_set && groups[g].vertex_buffer
                == pool[info.variant_index as int].vertex_buffer
            &&& info.variant_index > last ==> groups[g].texture_set == pool[last].texture_set
                && groups[g].vertex_buffer == pool[last].vertex_buffer
        }
    } by {
        lemma_groups_are_listed(adds, g, k);
        let i = choose|i: int|
            0 <= i < adds.len() && (#[trigger] adds[i]).vertex_buffer == groups[g].vertex_buffer
                && adds[i].texture_set == groups[g].texture_set && adds[i].member
                == groups[g].members[k];
        assert(is_layer_of(mobs, skins, entities, vis, OverlayKind::Opaque, adds[i]));
        assert(mobs[vis[adds[i].member.entity as int].entry as int].wf());
    }
    assert forall|v: int| 0 <= v < vis.len() implies #[trigger] has_model(groups, v) by {
        let a = model_layer(mobs, skins, entities, vis, v);
        assert(is_layer_of(mobs, skins, entities, vis, OverlayKind::Opaque, a));
        assert(below(a, 4));
        let i = adds.index_of(a);
        assert(adds.contains(a));
        lemma_layers_are_held(adds, i);
        let (g, k) = choose|g: int, k: int|
            0 <= g < groups.len() && 0 <= k < groups[g].members.len() && groups[g].vertex_buffer
                == a.vertex_buffer && groups[g].texture_set == a.texture_set
                && #[trigger] groups[g].members[k] == a.member;
        assert(groups[g].members[k].entity == v);
    }
}

/// Whether the model of an entity has a place in some groups.
pub open spec fn has_model(groups: Seq<GroupView>, v: int) -> bool {
    exists|g: int, k: int|
        0 <= g < groups.len() && 0 <= k < groups[g].members.len() && (
        #[trigger] groups[g].members[k]).entity == v && groups[g].members[k].overlay is None
}

/// The layer of an entity's model.
spec fn model_layer(
    mobs: Seq<MobEntry>,
    skins: Map<u128, PlayerSkin>,
    entities: Seq<EntityInfo>,
    vis: Seq<Seen>,
    v: int,
) -> Addition {
    let info = entities[vis[v].info as int];
    let entry = mobs[vis[v].entry as int];
    let worn = if info.kind == MobKind::Player && info.player_id is Some && skins.contains_key(
        info.player_id.unwrap(),
    ) {
        Some(skins[info.player_id.unwrap()])
    } else {
        None
    };
    let pool = if info.is_baby && entry.baby_variants is Some {
        entry.baby_variants.unwrap()@
    } else {
        entry.adult_variants@
    };
    let number = match worn {
        Some(skin) => if skin.slim {
            1int
        } else {
            0int
        },
        None => info.variant_index as int,
    };
    let at = if number < pool.len() {
        number
    } else {
        pool.len() - 1
    };
    Addition {
        vertex_buffer: pool[at].vertex_buffer,
        texture_set: match worn {
            Some(skin) => skin.texture_set,
            None => pool[at].texture_set,
        },
        part_ranges: pool[at].part_ranges@,
        member: Member {
            entity: v as usize,
            overlay: None,
            hurt: info.has_red_overlay,
            scrolling: false,
        },
    }
}

/// What the calls of the opaque pass draw of a player whose skin is there has the
/// skin as its texture; the model of whoever else is drawn has the texture of its
/// variant.
pub proof fn calls_draw_players_in_their_skins(
    mobs: Seq<MobEntry>,
    skins: Map<u128, PlayerSkin>,
    entities: Seq<EntityInfo>,
    r: int,
    k: int,
)
    requires
        are_entries(mobs),
        mobs.len() <= usize::MAX,
        entities.len() <= usize::MAX,
        frame_parts(mobs, skins, entities).2.instances.len() <= u32::MAX,
        draws(frame_parts(mobs, skins, entities).0, r, k),
        frame_parts(mobs, skins, entities).0.instances[k].member.overlay is None,
    ensures
        ({
            let vis = seen(mobs, entities, entities.len());
            let opaque = frame_parts(mobs, skins, entities).0;
            let seen_here = vis[opaque.instances[k].member.entity as int];
            let info = entities[seen_here.info as int];
            let entry = mobs[seen_here.entry as int];
            let pool = if info.is_baby && entry.baby_variants is Some {
                entry.baby_variants.unwrap()@
            } else {
                entry.adult_variants@
            };
            let last = pool.len() - 1;
            &&& opaque.instances[k].member.entity < vis.len()
            &&& opaque.instances[k].member.hurt == info.has_red_overlay
            &&& if info.kind == MobKind::Player && info.player_id is Some && skins.contains_key(
                info.player_id.unwrap(),
            ) {
                opaque.records[r].texture_set == skins[info.player_id.unwrap()].texture_set
            } else if info.variant_index <= last {
                opaque.records[r].texture_set == pool[info.variant_index as int].texture_set
            } else {
                opaque.records[r].texture_set == pool[last].texture_set
            }
        }),
{
    lemma_seen(mobs, entities, entities.len());
    let vis = seen(mobs, entities, entities.len());
    let adds = opaque_layers(mobs, skins, entities, vis, 4);
    let groups = grouped(adds);
    let (opaque, eyes, swirl) = frame_parts(mobs, skins, entities);
    lemma_opaque_layers(mobs, skins, entities, vis, 4);
    let eye_groups = grouped(
        emissive_layers(mobs, entities, vis, vis.len(), OverlayKind::EyesTranslucent),
    );
    let swirl_groups = grouped(
        emissive_layers(mobs, entities, vis, vis.len(), OverlayKind::SwirlAdditive),
    );
    lemma_emitted_grows(opaque.instances, eye_groups, eye_groups.len());
    lemma_emitted_grows(eyes.instances, swirl_groups, swirl_groups.len());
    assert forall|g: int| 0 <= g < groups.len() implies (#[trigger] groups[g]).part_ranges.len()
        <= usize::MAX by {
        lemma_groups_have_parts(adds, g);
        let i = choose|i: int|
            0 <= i < adds.len() && (#[trigger] adds[i]).vertex_buffer == groups[g].vertex_buffer
                && adds[i].texture_set == groups[g].texture_set && adds[i].part_ranges
                == groups[g].part_ranges;
        lemma_part_ranges_fit(mobs, skins, entities, vis, OverlayKind::Opaque, adds[i]);
    }
    assert forall|g: int, k: int, h: int, l: int|
        0 <= g < groups.len() && 0 <= k < groups[g].members.len() && 0 <= h < groups.len() && 0 <= l
            < groups[h].members.len() && #[trigger] groups[g].members[k]
            == #[trigger] groups[h].members[l] implies g == h && k == l by {
        lemma_groups_are_apart(adds, g, k, h, l);
    }
    lemma_emitted(Seq::empty(), groups, groups.len());
    let g = choose|g: int|
        0 <= g < groups.len() && is_of_group(
            #[trigger] groups[g],
            opaque.records[r],
            opaque.instances[k],
        );
    let j = groups[g].members.index_of(opaque.instances[k].member);
    lemma_groups_are_listed(adds, g, j);
    let i = choose|i: int|
        0 <= i < adds.len() && (#[trigger] adds[i]).vertex_buffer == groups[g].vertex_buffer
            && adds[i].texture_set == groups[g].texture_set && adds[i].member
            == groups[g].members[j];
    assert(is_layer_of(mobs, skins, entities, vis, OverlayKind::Opaque, adds[i]));
    assert(mobs[vis[adds[i].member.entity as int].entry as int].wf());
}

/// How many commands draw something.
pub open spec fn draw_count(commands: Seq<PassCommand>) -> nat
    decreases commands.len(),
{
    if commands.len() == 0 {
        0
    } else {
        draw_count(commands.drop_last()) + if commands.last() is Draw {
            1nat
        } else {
            0nat
        }
    }
}

/// How many of the first `n` records have all of their instances among the first
/// `count`.
pub open spec fn kept_records(records: Seq<DrawRecord>, count: usize, n: nat) -> nat
    decreases n,
{
    if n == 0 {
        0
    } else {
        kept_records(records, count, (n - 1) as nat) + if records[n - 1].first_instance
            + records[n - 1].instance_count <= count {
            1nat
        } else {
            0nat
        }
    }
}

proof fn lemma_draw_count(commands: Seq<PassCommand>, c: PassCommand)
    ensures
        draw_count(commands.push(c)) == draw_count(commands) + if c is Draw {
            1nat
        } else {
            0nat
        },
{
    assert(commands.push(c).drop_last() =~= commands);
}

proof fn lemma_commands_stay(records: Seq<DrawRecord>, count: usize, m: nat, n: nat)
    requires
        m <= n <= records.len(),
    ensures
        ({
            let (before, after) = (
                pass_commands(records, count, m).0,
                pass_commands(records, count, n).0,
            );
            &&& before.len() <= after.len()
            &&& after.take(before.len() as int) == before
        }),
        draw_count(pass_commands(records, count, n).0) == kept_records(records, count, n),
    decreases n,
{
    let before = pass_commands(records, count, m).0;
    let after = pass_commands(records, count, n).0;
    if n == 0 {
        assert(after.take(0) =~= before);
    } else {
        let k = (n - 1) as nat;
        let mid = pass_commands(records, count, k).0;
        let r = records[k as int];
        lemma_commands_stay(records, count, if m < n {
            m
        } else {
            k
        }, k);
        let bind = PassCommand::Bind {
            vertex_buffer: r.vertex_buffer,
            texture_set: r.texture_set,
        };
        lemma_draw_count(mid, draw_of(r));
        lemma_draw_count(mid, bind);
        lemma_draw_count(mid.push(bind), draw_of(r));
        if m < n {
            assert(after.take(before.len() as int) =~= mid.take(before.len() as int));
        } else {
            assert(after.take(after.len() as int) =~= after);
        }
    }
}

/// A pass draws every record whose instances are all there, once: with the record's
/// own part of the model and its own instances, while its own model and texture are
/// bound. Records that reach beyond the instances are left out, and nothing else is
/// drawn.
pub proof fn every_record_is_drawn_once(records: Seq<DrawRecord>, count: usize, k: int)
    requires
        0 <= k < records.len(),
        records[k].first_instance + records[k].instance_count <= count,
    ensures
        ({
            let commands = pass_commands(records, count, records.len()).0;
            let r = records[k];
            &&& exists|c: int|
                0 <= c < commands.len() && (#[trigger] commands[c] matches PassCommand::Draw {
                    part_count,
                    instance_count,
                    part_start,
                    first_instance,
                } && part_count == r.part_count && instance_count == r.instance_count && part_start
                    == r.part_start && first_instance == r.first_instance && bound_after(
                    commands.take(c + 1),
                ) == (r.vertex_buffer, r.texture_set))
            &&& draw_count(commands) == kept_records(records, count, records.len())
        }),
{
    let n = (k + 1) as nat;
    lemma_commands_stay(records, count, n, records.len());
    records_are_drawn_with_their_own(records, count, n);
    let commands = pass_commands(records, count, records.len()).0;
    let here = pass_commands(records, count, n).0;
    let c = here.len() - 1;
    assert(commands.take(c + 1) == here);
    assert(commands[c] == here[c]);
}

} // verus!
