//! Drawing entities: which layers are drawn of each, grouped so that what shares
//! a model and a texture is drawn at once.

use crate::decode::{decode_image, is_decoded};
use crate::mobs::{MobKind, OverlayKind};
use crate::pixels::Image;
use std::collections::HashMap;
use vstd::prelude::*;
use vstd::std_specs::hash::*;

verus! {

/// How many overlays an entity can have.
pub const MAX_OVERLAYS: usize = 4;

/// How many instances there is room for in a frame.
pub const MAX_INSTANCES: usize = 16384;

/// How many skins are kept at once.
pub const MAX_PLAYER_SKINS: usize = 128;

/// A model with a texture, as it is held for drawing. The vertices are its own.
pub struct MobVariant {
    pub vertex_buffer: u64,
    pub texture_set: u64,
    pub overlay_kind: OverlayKind,
    /// For each part of the model its first vertex and how many it has.
    pub part_ranges: Vec<(u32, u32)>,
}

/// What is held of a mob.
pub struct MobEntry {
    pub kind: MobKind,
    pub adult_variants: Vec<MobVariant>,
    pub baby_variants: Option<Vec<MobVariant>>,
    /// For each overlay its variants.
    pub adult_overlays: Vec<Vec<MobVariant>>,
    pub baby_overlays: Vec<Vec<MobVariant>>,
}

/// The variant of a number, or the last one where there are not so many.
pub open spec fn nth_or_last(pool: Seq<MobVariant>, n: u32) -> MobVariant {
    if n < pool.len() {
        pool[n as int]
    } else {
        pool.last()
    }
}

fn pick(pool: &Vec<MobVariant>, n: u32) -> (variant: &MobVariant)
    requires
        pool@.len() > 0,
    ensures
        *variant == nth_or_last(pool@, n),
{
    let last: usize = pool.len() - 1;
    let i: usize = if (n as usize) < last { n as usize } else { last };
    &pool[i]
}

impl MobEntry {
    /// There is a variant to pick everywhere, and no more overlays than slots.
    pub open spec fn wf(self) -> bool {
        &&& self.adult_variants@.len() > 0
        &&& (self.baby_variants matches Some(pool) ==> pool@.len() > 0)
        &&& self.adult_overlays@.len() <= 4
        &&& self.baby_overlays@.len() <= 4
        &&& forall|i: int|
            0 <= i < self.adult_overlays@.len() ==> (#[trigger] self.adult_overlays@[i])@.len() > 0
        &&& forall|i: int|
            0 <= i < self.baby_overlays@.len() ==> (#[trigger] self.baby_overlays@[i])@.len() > 0
    }

    /// The model that is drawn: a baby's own, where it has one.
    pub open spec fn base(self, is_baby: bool, n: u32) -> MobVariant {
        match self.baby_variants {
            Some(pool) => nth_or_last(
                if is_baby {
                    pool@
                } else {
                    self.adult_variants@
                },
                n,
            ),
            None => nth_or_last(self.adult_variants@, n),
        }
    }

    /// The overlays of an adult or a baby.
    pub open spec fn layers(self, is_baby: bool) -> Seq<Vec<MobVariant>> {
        if is_baby {
            self.baby_overlays@
        } else {
            self.adult_overlays@
        }
    }

    /// The model that is drawn.
    pub fn base_variant(&self, is_baby: bool, variant_index: u32) -> (variant: &MobVariant)
        requires
            self.wf(),
        ensures
            *variant == self.base(is_baby, variant_index),
    {
        if is_baby {
            match &self.baby_variants {
                Some(pool) => pick(pool, variant_index),
                None => pick(&self.adult_variants, variant_index),
            }
        } else {
            pick(&self.adult_variants, variant_index)
        }
    }

    /// The overlays of an adult or a baby.
    pub fn overlays(&self, is_baby: bool) -> (layers: &Vec<Vec<MobVariant>>)
        ensures
            layers@ == self.layers(is_baby),
    {
        if is_baby {
            &self.baby_overlays
        } else {
            &self.adult_overlays
        }
    }

    /// The variant of an overlay.
    pub fn overlay_variant(&self, is_baby: bool, slot: usize, variant_index: u32) -> (variant:
        &MobVariant)
        requires
            self.wf(),
            slot < self.layers(is_baby).len(),
        ensures
            *variant == nth_or_last(self.layers(is_baby)[slot as int]@, variant_index),
    {
        let layers = self.overlays(is_baby);
        pick(&layers[slot], variant_index)
    }
}

/// A player's skin.
#[derive(Clone, Copy, Debug, PartialEq, Eq, Structural)]
pub struct PlayerSkin {
    pub texture_set: u64,
    pub slim: bool,
}

/// The skins of players, by the players' ids.
pub struct PlayerSkins {
    pub skins: HashMap<u128, PlayerSkin>,
}

impl PlayerSkins {
    /// There are no more skins than there is room for.
    pub open spec fn wf(self) -> bool {
        self.skins@.dom().finite() && self.skins@.len() <= 128
    }

    /// No skins.
    pub fn new() -> (skins: PlayerSkins)
        ensures
            skins.wf(),
            skins.skins@ == Map::<u128, PlayerSkin>::empty(),
    {
        broadcast use group_hash_axioms;

        PlayerSkins { skins: HashMap::new() }
    }

    /// The skin of a player.
    pub fn get(&self, id: u128) -> (skin: Option<PlayerSkin>)
        ensures
            skin == (if self.skins@.dom().contains(id) {
                Some(self.skins@[id])
            } else {
                None
            }),
    {
        broadcast use group_hash_axioms;

        match self.skins.get(&id) {
            Some(skin) => Some(*skin),
            None => None,
        }
    }

    /// Keeps a player's skin, and says in which texture set. A player who has one
    /// keeps the set; one who has none gets `fresh_set`, unless there is no room.
    pub fn update_player_skin(&mut self, id: u128, slim: bool, fresh_set: u64) -> (set: Option<u64>)
        requires
            old(self).wf(),
        ensures
            final(self).wf(),
            set == (if old(self).skins@.dom().contains(id) {
                Some(old(self).skins@[id].texture_set)
            } else if old(self).skins@.len() >= 128 {
                None
            } else {
                Some(fresh_set)
            }),
            final(self).skins@ == (match set {
                Some(texture_set) => old(self).skins@.insert(id, PlayerSkin { texture_set, slim }),
                None => old(self).skins@,
            }),
    {
        broadcast use group_hash_axioms;

        let held = self.get(id);
        match held {
            Some(skin) => {
                let texture_set: u64 = skin.texture_set;
                self.skins.insert(id, PlayerSkin { texture_set, slim });
                Some(texture_set)
            },
            None => {
                if self.skins.len() >= MAX_PLAYER_SKINS {
                    return None;
                }
                self.skins.insert(id, PlayerSkin { texture_set: fresh_set, slim });
                Some(fresh_set)
            },
        }
    }

    /// Forgets a player's skin, and returns it.
    pub fn remove_player_skin(&mut self, id: u128) -> (skin: Option<PlayerSkin>)
        requires
            old(self).wf(),
        ensures
            final(self).wf(),
            skin == (if old(self).skins@.dom().contains(id) {
                Some(old(self).skins@[id])
            } else {
                None
            }),
            final(self).skins@ == old(self).skins@.remove(id),
    {
        broadcast use group_hash_axioms;

        let held = self.get(id);
        let gone = self.skins.remove(&id);
        proof {
            if held is None {
                assert(self.skins@ =~= old(self).skins@.remove(id));
            }
        }
        held
    }

    /// Forgets all skins.
    pub fn clear_player_skins(&mut self)
        ensures
            final(self).wf(),
            final(self).skins@ == Map::<u128, PlayerSkin>::empty(),
    {
        broadcast use group_hash_axioms;

        self.skins.clear();
    }
}

/// What is known of an entity that may be drawn.
pub struct EntityInfo {
    pub kind: MobKind,
    pub is_baby: bool,
    pub player_id: Option<u128>,
    pub variant_index: u32,
    /// Which overlays are shown.
    pub overlay_shown: [bool; 4],
    pub overlay_variants: [u32; 4],
    /// Whether it was hurt a moment ago.
    pub has_red_overlay: bool,
    /// Whether it is drawn even out of view.
    pub skip_cull: bool,
    /// Whether it is in view.
    pub visible: bool,
}

/// The skin of an entity that is a player.
pub open spec fn skin_of(skins: Map<u128, PlayerSkin>, info: EntityInfo) -> Option<PlayerSkin> {
    if info.kind != MobKind::Player {
        None
    } else {
        match info.player_id {
            Some(id) => if skins.dom().contains(id) {
                Some(skins[id])
            } else {
                None
            },
            None => None,
        }
    }
}

fn player_skin(skins: &PlayerSkins, info: &EntityInfo) -> (skin: Option<PlayerSkin>)
    ensures
        skin == skin_of(skins.skins@, *info),
{
    if info.kind != MobKind::Player {
        return None;
    }
    match info.player_id {
        Some(id) => skins.get(id),
        None => None,
    }
}

/// The texture set of an entity: a player's skin, where it is there.
pub fn player_texture_set(skins: &PlayerSkins, info: &EntityInfo, fallback: u64) -> (set: u64)
    ensures
        set == (match skin_of(skins.skins@, *info) {
            Some(skin) => skin.texture_set,
            None => fallback,
        }),
{
    match player_skin(skins, info) {
        Some(skin) => skin.texture_set,
        None => fallback,
    }
}

/// The number of the model that an entity has: a player's follows from the skin.
pub open spec fn variant_number(skins: Map<u128, PlayerSkin>, info: EntityInfo) -> u32 {
    match skin_of(skins, info) {
        Some(skin) => if skin.slim {
            1
        } else {
            0
        },
        None => info.variant_index,
    }
}

/// The number of the model that an entity has.
pub fn effective_variant_index(skins: &PlayerSkins, info: &EntityInfo) -> (index: u32)
    ensures
        index == variant_number(skins.skins@, *info),
{
    match player_skin(skins, info) {
        Some(skin) => if skin.slim {
            1
        } else {
            0
        },
        None => info.variant_index,
    }
}

/// One drawing of an entity's layer.
#[derive(Clone, Copy, Debug, PartialEq, Eq, Structural)]
pub struct Member {
    /// The entity, by its place among those that are drawn.
    pub entity: usize,
    /// The overlay whose tint is used; the model itself has none.
    pub overlay: Option<usize>,
    /// Whether it is reddened.
    pub hurt: bool,
    /// Whether the texture scrolls.
    pub scrolling: bool,
}

/// What is drawn at once: a model, a texture, and the entities.
pub struct Group {
    pub vertex_buffer: u64,
    pub texture_set: u64,
    pub part_ranges: Vec<(u32, u32)>,
    pub members: Vec<Member>,
}

/// A group as a value.
pub struct GroupView {
    pub vertex_buffer: u64,
    pub texture_set: u64,
    pub part_ranges: Seq<(u32, u32)>,
    pub members: Seq<Member>,
}

impl Group {
    pub open spec fn view(self) -> GroupView {
        GroupView {
            vertex_buffer: self.vertex_buffer,
            texture_set: self.texture_set,
            part_ranges: self.part_ranges@,
            members: self.members@,
        }
    }
}

/// Groups as values.
pub open spec fn group_views(groups: Seq<Group>) -> Seq<GroupView> {
    Seq::new(groups.len(), |i: int| groups[i]@)
}

/// A layer of an entity that is to be drawn.
pub struct Addition {
    pub vertex_buffer: u64,
    pub texture_set: u64,
    pub part_ranges: Seq<(u32, u32)>,
    pub member: Member,
}

/// The first group from `n` on with a model and a texture, or how many groups
/// there are.
pub open spec fn group_from(groups: Seq<GroupView>, vertex_buffer: u64, texture_set: u64, n: int)
    -> int
    decreases groups.len() - n,
{
    if n >= groups.len() {
        groups.len() as int
    } else if groups[n].vertex_buffer == vertex_buffer && groups[n].texture_set == texture_set {
        n
    } else {
        group_from(groups, vertex_buffer, texture_set, n + 1)
    }
}

/// A layer joins the group of its model and texture, or begins a new one.
pub open spec fn with_addition(groups: Seq<GroupView>, a: Addition) -> Seq<GroupView> {
    let i = group_from(groups, a.vertex_buffer, a.texture_set, 0);
    if i < groups.len() {
        groups.update(i, GroupView { members: groups[i].members.push(a.member), ..groups[i] })
    } else {
        groups.push(
            GroupView {
                vertex_buffer: a.vertex_buffer,
                texture_set: a.texture_set,
                part_ranges: a.part_ranges,
                members: seq![a.member],
            },
        )
    }
}

/// The groups of some layers, in their order.
pub open spec fn grouped(adds: Seq<Addition>) -> Seq<GroupView>
    decreases adds.len(),
{
    if adds.len() == 0 {
        Seq::empty()
    } else {
        with_addition(grouped(adds.drop_last()), adds.last())
    }
}

proof fn grouped_after_push(adds: Seq<Addition>, a: Addition)
    ensures
        grouped(adds.push(a)) == with_addition(grouped(adds), a),
{
    assert(adds.push(a).drop_last() =~= adds);
}

pub(crate) proof fn group_from_bounds(groups: Seq<GroupView>, vertex_buffer: u64, texture_set: u64, n: int)
    requires
        0 <= n <= groups.len(),
    ensures
        n <= group_from(groups, vertex_buffer, texture_set, n) <= groups.len(),
        group_from(groups, vertex_buffer, texture_set, n) < groups.len() ==> groups[group_from(
            groups,
            vertex_buffer,
            texture_set,
            n,
        )].vertex_buffer == vertex_buffer && groups[group_from(
            groups,
            vertex_buffer,
            texture_set,
            n,
        )].texture_set == texture_set,
        group_from(groups, vertex_buffer, texture_set, n) == groups.len() ==> forall|i: int|
            n <= i < groups.len() ==> (#[trigger] groups[i]).vertex_buffer != vertex_buffer
                || groups[i].texture_set != texture_set,
    decreases groups.len() - n,
{
    if n < groups.len() && (groups[n].vertex_buffer != vertex_buffer || groups[n].texture_set
        != texture_set) {
        group_from_bounds(groups, vertex_buffer, texture_set, n + 1);
    }
}

/// What is drawn, in groups.
pub struct VariantGroups {
    pub groups: Vec<Group>,
}

impl VariantGroups {
    /// The groups as values.
    pub open spec fn view(self) -> Seq<GroupView> {
        group_views(self.groups@)
    }

    /// No groups.
    pub fn new() -> (groups: VariantGroups)
        ensures
            groups@ == grouped(Seq::empty()),
    {
        let groups = VariantGroups { groups: Vec::new() };
        assert(groups@ =~= grouped(Seq::empty()));
        groups
    }

    /// Adds a layer.
    pub fn add(&mut self, variant: &MobVariant, texture_set: u64, member: Member)
        ensures
            final(self)@ == with_addition(
                old(self)@,
                Addition {
                    vertex_buffer: variant.vertex_buffer,
                    texture_set,
                    part_ranges: variant.part_ranges@,
                    member,
                },
            ),
    {
        let ghost before = self@;
        let mut i: usize = 0;
        while i < self.groups.len() && !(self.groups[i].vertex_buffer == variant.vertex_buffer
            && self.groups[i].texture_set == texture_set)
            invariant
                i <= self.groups@.len(),
                before == self@,
                group_from(before, variant.vertex_buffer, texture_set, 0) == group_from(
                    before,
                    variant.vertex_buffer,
                    texture_set,
                    i as int,
                ),
            decreases self.groups@.len() - i,
        {
            i = i + 1;
        }
        if i < self.groups.len() {
            let mut group = Group {
                vertex_buffer: 0,
                texture_set: 0,
                part_ranges: Vec::new(),
                members: Vec::new(),
            };
            let ghost held = self.groups@[i as int]@;
            self.groups.set_and_swap(i, &mut group);
            group.members.push(member);
            let ghost now = group@;
            assert(now == GroupView { members: held.members.push(member), ..held });
            self.groups.set(i, group);
            assert(self@ =~= before.update(i as int, now));
        } else {
            let part_ranges = copy_ranges(&variant.part_ranges);
            let mut members: Vec<Member> = Vec::new();
            members.push(member);
            let group = Group {
                vertex_buffer: variant.vertex_buffer,
                texture_set,
                part_ranges,
                members,
            };
            let ghost now = group@;
            assert(members@ =~= seq![member]);
            self.groups.push(group);
            assert(self@ =~= before.push(now));
        }
    }
}

fn copy_ranges(ranges: &Vec<(u32, u32)>) -> (copy: Vec<(u32, u32)>)
    ensures
        copy@ == ranges@,
{
    let mut copy: Vec<(u32, u32)> = Vec::new();
    let mut i: usize = 0;
    while i < ranges.len()
        invariant
            i <= ranges@.len(),
            copy@ == ranges@.take(i as int),
        decreases ranges@.len() - i,
    {
        copy.push(ranges[i]);
        i = i + 1;
        assert(copy@ =~= ranges@.take(i as int));
    }
    assert(copy@ =~= ranges@);
    copy
}

/// An entity that is drawn, and what is held of its kind, both by their places.
#[derive(Clone, Copy, Debug, PartialEq, Eq, Structural)]
pub struct Seen {
    pub info: usize,
    pub entry: usize,
}

/// Whether entries are what is held of mobs: each can be drawn, and no kind occurs
/// twice.
pub open spec fn are_entries(mobs: Seq<MobEntry>) -> bool {
    &&& forall|i: int| 0 <= i < mobs.len() ==> (#[trigger] mobs[i]).wf()
    &&& forall|i: int, j: int|
        0 <= i < j < mobs.len() ==> (#[trigger] mobs[i]).kind != (#[trigger] mobs[j]).kind
}

/// The first entry of a kind from `n` on, or how many entries there are.
pub open spec fn entry_from(mobs: Seq<MobEntry>, kind: MobKind, n: int) -> int
    decreases mobs.len() - n,
{
    if n >= mobs.len() {
        mobs.len() as int
    } else if mobs[n].kind == kind {
        n
    } else {
        entry_from(mobs, kind, n + 1)
    }
}

/// Each entry is the one that is found for its kind, and none is found for a kind
/// that no entry has.
pub proof fn entries_are_found_by_their_kind(mobs: Seq<MobEntry>, kind: MobKind, i: int)
    requires
        are_entries(mobs),
    ensures
        0 <= i < mobs.len() && mobs[i].kind == kind ==> entry_from(mobs, kind, 0) == i,
        (forall|k: int| 0 <= k < mobs.len() ==> (#[trigger] mobs[k]).kind != kind) ==> entry_from(
            mobs,
            kind,
            0,
        ) == mobs.len(),
{
    lemma_entry_from(mobs, kind, 0);
}

pub(crate) proof fn lemma_entry_from(mobs: Seq<MobEntry>, kind: MobKind, n: int)
    requires
        0 <= n <= mobs.len(),
    ensures
        n <= entry_from(mobs, kind, n) <= mobs.len(),
        entry_from(mobs, kind, n) < mobs.len() ==> mobs[entry_from(mobs, kind, n)].kind == kind,
        forall|k: int|
            n <= k < entry_from(mobs, kind, n) ==> (#[trigger] mobs[k]).kind != kind,
    decreases mobs.len() - n,
{
    if n < mobs.len() && mobs[n].kind != kind {
        lemma_entry_from(mobs, kind, n + 1);
    }
}

/// The first `n` entities without those that are not drawn: of a kind that is not
/// held, or out of view.
pub open spec fn seen(mobs: Seq<MobEntry>, entities: Seq<EntityInfo>, n: nat) -> Seq<Seen>
    decreases n,
{
    if n == 0 {
        Seq::empty()
    } else {
        let before = seen(mobs, entities, (n - 1) as nat);
        let info = entities[n - 1];
        let entry = entry_from(mobs, info.kind, 0);
        if entry < mobs.len() && (info.skip_cull || info.visible) {
            before.push(Seen { info: (n - 1) as usize, entry: entry as usize })
        } else {
            before
        }
    }
}

/// Whether places are those of entities and of what is held of them.
pub open spec fn is_seen(mobs: Seq<MobEntry>, entities: Seq<EntityInfo>, vis: Seq<Seen>) -> bool {
    &&& forall|i: int| 0 <= i < mobs.len() ==> (#[trigger] mobs[i]).wf()
    &&& forall|i: int|
        0 <= i < vis.len() ==> (#[trigger] vis[i]).info < entities.len() && vis[i].entry
            < mobs.len()
}

fn find_entry(mobs: &Vec<MobEntry>, kind: MobKind) -> (entry: usize)
    ensures
        entry == entry_from(mobs@, kind, 0),
        entry <= mobs@.len(),
{
    let mut i: usize = 0;
    while i < mobs.len() && mobs[i].kind != kind
        invariant
            i <= mobs@.len(),
            entry_from(mobs@, kind, 0) == entry_from(mobs@, kind, i as int),
        decreases mobs@.len() - i,
    {
        i = i + 1;
    }
    i
}

/// The entities that are drawn.
pub fn visible_entities(mobs: &Vec<MobEntry>, entities: &Vec<EntityInfo>) -> (vis: Vec<Seen>)
    requires
        are_entries(mobs@),
    ensures
        vis@ == seen(mobs@, entities@, entities@.len()),
        is_seen(mobs@, entities@, vis@),
{
    let mut vis: Vec<Seen> = Vec::new();
    let mut i: usize = 0;
    while i < entities.len()
        invariant
            forall|k: int| 0 <= k < mobs@.len() ==> (#[trigger] mobs@[k]).wf(),
            i <= entities@.len(),
            vis@ == seen(mobs@, entities@, i as nat),
            is_seen(mobs@, entities@, vis@),
        decreases entities@.len() - i,
    {
        let entry: usize = find_entry(mobs, entities[i].kind);
        if entry < mobs.len() && (entities[i].skip_cull || entities[i].visible) {
            vis.push(Seen { info: i, entry });
        }
        i = i + 1;
    }
    vis
}

/// The models of the first `n` entities.
pub open spec fn base_layers(
    mobs: Seq<MobEntry>,
    skins: Map<u128, PlayerSkin>,
    entities: Seq<EntityInfo>,
    vis: Seq<Seen>,
    n: nat,
) -> Seq<Addition>
    decreases n,
{
    if n == 0 {
        Seq::empty()
    } else {
        let info = entities[vis[n - 1].info as int];
        let base = mobs[vis[n - 1].entry as int].base(info.is_baby, variant_number(skins, info));
        base_layers(mobs, skins, entities, vis, (n - 1) as nat).push(
            Addition {
                vertex_buffer: base.vertex_buffer,
                texture_set: match skin_of(skins, info) {
                    Some(skin) => skin.texture_set,
                    None => base.texture_set,
                },
                part_ranges: base.part_ranges@,
                member: Member {
                    entity: (n - 1) as usize,
                    overlay: None,
                    hurt: info.has_red_overlay,
                    scrolling: false,
                },
            },
        )
    }
}

/// The overlay of an entity in a slot, where it has one of a kind and shows it.
pub open spec fn overlay_layer(
    mobs: Seq<MobEntry>,
    entities: Seq<EntityInfo>,
    vis: Seq<Seen>,
    i: int,
    slot: int,
    kind: OverlayKind,
) -> Seq<Addition> {
    let info = entities[vis[i].info as int];
    let layers = mobs[vis[i].entry as int].layers(info.is_baby);
    if slot >= layers.len() {
        Seq::empty()
    } else {
        let overlay = nth_or_last(layers[slot]@, info.overlay_variants@[slot]);
        if overlay.overlay_kind != kind || !info.overlay_shown@[slot] {
            Seq::empty()
        } else {
            seq![
                Addition {
                    vertex_buffer: overlay.vertex_buffer,
                    texture_set: overlay.texture_set,
                    part_ranges: overlay.part_ranges@,
                    member: Member {
                        entity: i as usize,
                        overlay: Some(slot as usize),
                        hurt: kind == OverlayKind::Opaque && info.has_red_overlay,
                        scrolling: kind == OverlayKind::SwirlAdditive,
                    },
                },
            ]
        }
    }
}

/// The opaque overlays of the first `n` entities in a slot.
pub open spec fn slot_layers(
    mobs: Seq<MobEntry>,
    entities: Seq<EntityInfo>,
    vis: Seq<Seen>,
    slot: int,
    n: nat,
) -> Seq<Addition>
    decreases n,
{
    if n == 0 {
        Seq::empty()
    } else {
        slot_layers(mobs, entities, vis, slot, (n - 1) as nat) + overlay_layer(
            mobs,
            entities,
            vis,
            n - 1,
            slot,
            OverlayKind::Opaque,
        )
    }
}

/// The opaque layers up to a slot: first all models, then one slot after the
/// other, so that what lies above is drawn later.
pub open spec fn opaque_layers(
    mobs: Seq<MobEntry>,
    skins: Map<u128, PlayerSkin>,
    entities: Seq<EntityInfo>,
    vis: Seq<Seen>,
    slots: nat,
) -> Seq<Addition>
    decreases slots,
{
    if slots == 0 {
        base_layers(mobs, skins, entities, vis, vis.len())
    } else {
        opaque_layers(mobs, skins, entities, vis, (slots - 1) as nat) + slot_layers(
            mobs,
            entities,
            vis,
            slots - 1,
            vis.len(),
        )
    }
}

/// The overlays of a kind of one entity, up to a slot.
pub open spec fn entity_overlays(
    mobs: Seq<MobEntry>,
    entities: Seq<EntityInfo>,
    vis: Seq<Seen>,
    i: int,
    slots: nat,
    kind: OverlayKind,
) -> Seq<Addition>
    decreases slots,
{
    if slots == 0 {
        Seq::empty()
    } else {
        entity_overlays(mobs, entities, vis, i, (slots - 1) as nat, kind) + overlay_layer(
            mobs,
            entities,
            vis,
            i,
            slots - 1,
            kind,
        )
    }
}

/// The overlays of a kind of the first `n` entities.
pub open spec fn emissive_layers(
    mobs: Seq<MobEntry>,
    entities: Seq<EntityInfo>,
    vis: Seq<Seen>,
    n: nat,
    kind: OverlayKind,
) -> Seq<Addition>
    decreases n,
{
    if n == 0 {
        Seq::empty()
    } else {
        emissive_layers(mobs, entities, vis, (n - 1) as nat, kind) + entity_overlays(
            mobs,
            entities,
            vis,
            n - 1,
            4,
            kind,
        )
    }
}

fn add_overlay(
    groups: &mut VariantGroups,
    mobs: &Vec<MobEntry>,
    entities: &Vec<EntityInfo>,
    vis: &Vec<Seen>,
    i: usize,
    slot: usize,
    kind: OverlayKind,
    Ghost(adds): Ghost<Seq<Addition>>,
)
    requires
        is_seen(mobs@, entities@, vis@),
        i < vis@.len(),
        slot < 4,
        old(groups)@ == grouped(adds),
    ensures
        final(groups)@ == grouped(
            adds + overlay_layer(mobs@, entities@, vis@, i as int, slot as int, kind),
        ),
{
    let ghost one = overlay_layer(mobs@, entities@, vis@, i as int, slot as int, kind);
    let info = &entities[vis[i].info];
    let entry = &mobs[vis[i].entry];
    if slot < entry.overlays(info.is_baby).len() {
        let overlay = entry.overlay_variant(info.is_baby, slot, info.overlay_variants[slot]);
        if overlay.overlay_kind == kind && info.overlay_shown[slot] {
            let member = Member {
                entity: i,
                overlay: Some(slot),
                hurt: kind == OverlayKind::Opaque && info.has_red_overlay,
                scrolling: kind == OverlayKind::SwirlAdditive,
            };
            groups.add(overlay, overlay.texture_set, member);
            proof {
                grouped_after_push(adds, one[0]);
                assert(adds + one =~= adds.push(one[0]));
            }
            return;
        }
    }
    assert(adds + one =~= adds);
}

fn add_bases(
    groups: &mut VariantGroups,
    mobs: &Vec<MobEntry>,
    skins: &PlayerSkins,
    entities: &Vec<EntityInfo>,
    vis: &Vec<Seen>,
)
    requires
        is_seen(mobs@, entities@, vis@),
        old(groups)@ == grouped(Seq::empty()),
    ensures
        final(groups)@ == grouped(
            base_layers(mobs@, skins.skins@, entities@, vis@, vis@.len()),
        ),
{
    let mut i: usize = 0;
    while i < vis.len()
        invariant
            is_seen(mobs@, entities@, vis@),
            i <= vis@.len(),
            groups@ == grouped(base_layers(mobs@, skins.skins@, entities@, vis@, i as nat)),
        decreases vis@.len() - i,
    {
        let ghost adds = base_layers(mobs@, skins.skins@, entities@, vis@, i as nat);
        let info = &entities[vis[i].info];
        let entry = &mobs[vis[i].entry];
        let base = entry.base_variant(info.is_baby, effective_variant_index(skins, info));
        let texture_set: u64 = player_texture_set(skins, info, base.texture_set);
        let member = Member {
            entity: i,
            overlay: None,
            hurt: info.has_red_overlay,
            scrolling: false,
        };
        groups.add(base, texture_set, member);
        i = i + 1;
        proof {
            let after = base_layers(mobs@, skins.skins@, entities@, vis@, i as nat);
            grouped_after_push(adds, after.last());
            assert(after == adds.push(after.last()));
        }
    }
}

/// The groups of the opaque layers: all models, then slot after slot.
pub fn collect_opaque(
    mobs: &Vec<MobEntry>,
    skins: &PlayerSkins,
    entities: &Vec<EntityInfo>,
    vis: &Vec<Seen>,
) -> (groups: VariantGroups)
    requires
        is_seen(mobs@, entities@, vis@),
    ensures
        groups@ == grouped(opaque_layers(mobs@, skins.skins@, entities@, vis@, 4)),
{
    let mut groups = VariantGroups::new();
    add_bases(&mut groups, mobs, skins, entities, vis);
    let mut slot: usize = 0;
    while slot < MAX_OVERLAYS
        invariant
            is_seen(mobs@, entities@, vis@),
            slot <= 4,
            groups@ == grouped(
                opaque_layers(mobs@, skins.skins@, entities@, vis@, slot as nat),
            ),
        decreases 4 - slot,
    {
        let ghost below = opaque_layers(mobs@, skins.skins@, entities@, vis@, slot as nat);
        let mut i: usize = 0;
        assert(below + slot_layers(mobs@, entities@, vis@, slot as int, 0) =~= below);
        while i < vis.len()
            invariant
                is_seen(mobs@, entities@, vis@),
                slot < 4,
                i <= vis@.len(),
                groups@ == grouped(
                    below + slot_layers(mobs@, entities@, vis@, slot as int, i as nat),
                ),
            decreases vis@.len() - i,
        {
            let ghost so_far = slot_layers(mobs@, entities@, vis@, slot as int, i as nat);
            add_overlay(
                &mut groups,
                mobs,
                entities,
                vis,
                i,
                slot,
                OverlayKind::Opaque,
                Ghost(below + so_far),
            );
            proof {
                let one = overlay_layer(
                    mobs@,
                    entities@,
                    vis@,
                    i as int,
                    slot as int,
                    OverlayKind::Opaque,
                );
                assert((below + so_far) + one =~= below + (so_far + one));
            }
            i = i + 1;
        }
        slot = slot + 1;
    }
    groups
}

/// The groups of the overlays of a kind.
pub fn collect_emissive(
    mobs: &Vec<MobEntry>,
    entities: &Vec<EntityInfo>,
    vis: &Vec<Seen>,
    kind: OverlayKind,
) -> (groups: VariantGroups)
    requires
        is_seen(mobs@, entities@, vis@),
    ensures
        groups@ == grouped(emissive_layers(mobs@, entities@, vis@, vis@.len(), kind)),
{
    let mut groups = VariantGroups::new();
    let mut i: usize = 0;
    while i < vis.len()
        invariant
            is_seen(mobs@, entities@, vis@),
            i <= vis@.len(),
            groups@ == grouped(emissive_layers(mobs@, entities@, vis@, i as nat, kind)),
        decreases vis@.len() - i,
    {
        let ghost below = emissive_layers(mobs@, entities@, vis@, i as nat, kind);
        let mut slot: usize = 0;
        assert(below + entity_overlays(mobs@, entities@, vis@, i as int, 0, kind) =~= below);
        while slot < MAX_OVERLAYS
            invariant
                is_seen(mobs@, entities@, vis@),
                i < vis@.len(),
                slot <= 4,
                groups@ == grouped(
                    below + entity_overlays(
                        mobs@,
                        entities@,
                        vis@,
                        i as int,
                        slot as nat,
                        kind,
                    ),
                ),
            decreases 4 - slot,
        {
            let ghost so_far = entity_overlays(
                mobs@,
                entities@,
                vis@,
                i as int,
                slot as nat,
                kind,
            );
            add_overlay(
                &mut groups,
                mobs,
                entities,
                vis,
                i,
                slot,
                kind,
                Ghost(below + so_far),
            );
            proof {
                let one = overlay_layer(mobs@, entities@, vis@, i as int, slot as int, kind);
                assert((below + so_far) + one =~= below + (so_far + one));
            }
            slot = slot + 1;
        }
        i = i + 1;
    }
    groups
}

/// One instance: a drawing of an entity's layer, of one part of the model.
#[derive(Clone, Copy, Debug, PartialEq, Eq, Structural)]
pub struct EntityInstance {
    pub member: Member,
    pub part: usize,
}

/// One call: a part of a model, for a run of instances.
#[derive(Clone, Copy, Debug, PartialEq, Eq, Structural)]
pub struct DrawRecord {
    pub texture_set: u64,
    pub vertex_buffer: u64,
    pub part_start: u32,
    pub part_count: u32,
    pub first_instance: u32,
    pub instance_count: u32,
}

/// Instances, and the calls that draw them.
pub struct Emitted {
    pub instances: Seq<EntityInstance>,
    pub records: Seq<DrawRecord>,
}

/// The instances of a part of a group.
pub open spec fn part_instances(members: Seq<Member>, part: usize) -> Seq<EntityInstance> {
    Seq::new(members.len(), |i: int| EntityInstance { member: members[i], part })
}

/// The first `n` parts of a group are added: a call for each that has vertices,
/// and an instance for each member.
pub open spec fn emitted_parts(before: Emitted, group: GroupView, n: nat) -> Emitted
    decreases n,
{
    if n == 0 {
        before
    } else {
        let e = emitted_parts(before, group, (n - 1) as nat);
        let (start, count) = group.part_ranges[n - 1];
        if count == 0 {
            e
        } else {
            Emitted {
                instances: e.instances + part_instances(group.members, (n - 1) as usize),
                records: e.records.push(
                    DrawRecord {
                        texture_set: group.texture_set,
                        vertex_buffer: group.vertex_buffer,
                        part_start: start,
                        part_count: count,
                        first_instance: e.instances.len() as u32,
                        instance_count: group.members.len() as u32,
                    },
                ),
            }
        }
    }
}

/// The first `n` groups are added to some instances.
pub open spec fn emitted(instances: Seq<EntityInstance>, groups: Seq<GroupView>, n: nat) -> Emitted
    decreases n,
{
    if n == 0 {
        Emitted { instances, records: Seq::empty() }
    } else {
        emitted_parts(
            emitted(instances, groups, (n - 1) as nat),
            groups[n - 1],
            groups[n - 1].part_ranges.len(),
        )
    }
}

fn emit_part(instances: &mut Vec<EntityInstance>, members: &Vec<Member>, part: usize)
    ensures
        final(instances)@ == old(instances)@ + part_instances(members@, part),
{
    let ghost before = instances@;
    let mut k: usize = 0;
    assert(instances@ =~= before + part_instances(members@, part).take(0));
    while k < members.len()
        invariant
            k <= members@.len(),
            instances@ == before + part_instances(members@, part).take(k as int),
        decreases members@.len() - k,
    {
        instances.push(EntityInstance { member: members[k], part });
        k = k + 1;
        assert(instances@ =~= before + part_instances(members@, part).take(k as int));
    }
    assert(part_instances(members@, part).take(k as int) =~= part_instances(members@, part));
}

proof fn parts_only_add(before: Emitted, group: GroupView, n: nat, m: nat)
    requires
        n <= m,
    ensures
        emitted_parts(before, group, n).instances.len() <= emitted_parts(
            before,
            group,
            m,
        ).instances.len(),
    decreases m,
{
    if n < m {
        parts_only_add(before, group, n, (m - 1) as nat);
    }
}

proof fn groups_only_add(instances: Seq<EntityInstance>, groups: Seq<GroupView>, n: nat, m: nat)
    requires
        n <= m,
    ensures
        emitted(instances, groups, n).instances.len() <= emitted(
            instances,
            groups,
            m,
        ).instances.len(),
    decreases m,
{
    if n < m {
        groups_only_add(instances, groups, n, (m - 1) as nat);
        parts_only_add(
            emitted(instances, groups, (m - 1) as nat),
            groups[m - 1],
            0,
            groups[m - 1].part_ranges.len(),
        );
    }
}

impl VariantGroups {
    /// Adds the instances of all groups, and returns the calls that draw them.
    pub fn emit(&self, instances: &mut Vec<EntityInstance>) -> (records: Vec<DrawRecord>)
        ensures
            final(instances)@ == emitted(old(instances)@, self@, self@.len()).instances,
            records@ == emitted(old(instances)@, self@, self@.len()).records,
    {
        let ghost start = instances@;
        let mut records: Vec<DrawRecord> = Vec::new();
        let mut g: usize = 0;
        while g < self.groups.len()
            invariant
                g <= self.groups@.len(),
                instances@ == emitted(start, self@, g as nat).instances,
                records@ == emitted(start, self@, g as nat).records,
            decreases self.groups@.len() - g,
        {
            let group = &self.groups[g];
            let ghost before = emitted(start, self@, g as nat);
            let mut p: usize = 0;
            while p < group.part_ranges.len()
                invariant
                    p <= group.part_ranges@.len(),
                    instances@ == emitted_parts(before, group@, p as nat).instances,
                    records@ == emitted_parts(before, group@, p as nat).records,
                decreases group.part_ranges@.len() - p,
            {
                let (part_start, part_count): (u32, u32) = group.part_ranges[p];
                if part_count != 0 {
                    let first: usize = instances.len();
                    let count: usize = group.members.len();
                    emit_part(instances, &group.members, p);
                    records.push(
                        DrawRecord {
                            texture_set: group.texture_set,
                            vertex_buffer: group.vertex_buffer,
                            part_start,
                            part_count,
                            first_instance: first as u32,
                            instance_count: count as u32,
                        },
                    );
                }
                p = p + 1;
            }
            assert(self@[g as int] == group@);
            g = g + 1;
        }
        records
    }
}

/// The end of a call's run of instances.
pub open spec fn run_end(r: DrawRecord) -> int {
    r.first_instance + r.instance_count
}

/// Whether calls follow one another: each begins where the one before ended, the
/// first at `start` and the last ending at `end`.
pub open spec fn follow(records: Seq<DrawRecord>, start: int, end: int) -> bool {
    &&& records.len() == 0 ==> start == end
    &&& records.len() > 0 ==> records[0].first_instance == start && run_end(records.last()) == end
    &&& forall|k: int|
        0 < k < records.len() ==> (#[trigger] records[k]).first_instance == run_end(
            records[k - 1],
        )
}

proof fn parts_follow(before: Emitted, group: GroupView, n: nat, start: int)
    requires
        follow(before.records, start, before.instances.len() as int),
        emitted_parts(before, group, n).instances.len() <= u32::MAX,
    ensures
        follow(
            emitted_parts(before, group, n).records,
            start,
            emitted_parts(before, group, n).instances.len() as int,
        ),
    decreases n,
{
    if n > 0 {
        parts_only_add(before, group, (n - 1) as nat, n);
        parts_follow(before, group, (n - 1) as nat, start);
    }
}

proof fn groups_follow(instances: Seq<EntityInstance>, groups: Seq<GroupView>, n: nat)
    requires
        emitted(instances, groups, n).instances.len() <= u32::MAX,
    ensures
        follow(
            emitted(instances, groups, n).records,
            instances.len() as int,
            emitted(instances, groups, n).instances.len() as int,
        ),
    decreases n,
{
    if n > 0 {
        groups_only_add(instances, groups, (n - 1) as nat, n);
        groups_follow(instances, groups, (n - 1) as nat);
        parts_follow(
            emitted(instances, groups, (n - 1) as nat),
            groups[n - 1],
            groups[n - 1].part_ranges.len(),
            instances.len() as int,
        );
    }
}

/// The calls of some groups draw the instances that the groups added, each of
/// them once: the runs follow one another without a gap.
pub proof fn calls_cover_the_instances(instances: Seq<EntityInstance>, groups: Seq<GroupView>)
    requires
        emitted(instances, groups, groups.len()).instances.len() <= u32::MAX,
    ensures
        follow(
            emitted(instances, groups, groups.len()).records,
            instances.len() as int,
            emitted(instances, groups, groups.len()).instances.len() as int,
        ),
{
    groups_follow(instances, groups, groups.len());
}

/// The layers of groups, where each model belongs to a layer, never decrease.
pub open spec fn in_layer_order(groups: Seq<GroupView>, layer: spec_fn(u64) -> int) -> bool {
    forall|i: int, j: int|
        0 <= i <= j < groups.len() ==> layer((#[trigger] groups[i]).vertex_buffer) <= layer(
            (#[trigger] groups[j]).vertex_buffer,
        )
}

/// Layers that are added from the lowest to the highest are drawn in that order,
/// though what shares a model and a texture is drawn at once.
pub proof fn groups_keep_the_layer_order(adds: Seq<Addition>, layer: spec_fn(u64) -> int)
    requires
        forall|i: int, j: int|
            0 <= i <= j < adds.len() ==> layer((#[trigger] adds[i]).vertex_buffer) <= layer(
                (#[trigger] adds[j]).vertex_buffer,
            ),
    ensures
        in_layer_order(grouped(adds), layer),
        forall|i: int|
            0 <= i < grouped(adds).len() && adds.len() > 0 ==> layer(
                (#[trigger] grouped(adds)[i]).vertex_buffer,
            ) <= layer(adds.last().vertex_buffer),
    decreases adds.len(),
{
    if adds.len() > 0 {
        let less = adds.drop_last();
        let a = adds.last();
        groups_keep_the_layer_order(less, layer);
        let before = grouped(less);
        group_from_bounds(before, a.vertex_buffer, a.texture_set, 0);
        let after = grouped(adds);
        assert forall|i: int| 0 <= i < before.len() implies layer(
            (#[trigger] before[i]).vertex_buffer,
        ) <= layer(a.vertex_buffer) by {
            if less.len() > 0 {
                assert(layer(adds[less.len() - 1].vertex_buffer) <= layer(
                    adds[adds.len() - 1].vertex_buffer,
                ));
            }
        }
        assert forall|i: int| 0 <= i < before.len() implies (#[trigger] after[i]).vertex_buffer
            == before[i].vertex_buffer by {}
        assert forall|i: int| 0 <= i < after.len() implies layer(
            (#[trigger] after[i]).vertex_buffer,
        ) <= layer(a.vertex_buffer) by {
            if i < before.len() {
                assert(after[i].vertex_buffer == before[i].vertex_buffer);
            }
        }
        assert forall|i: int, j: int| 0 <= i <= j < after.len() implies layer(
            (#[trigger] after[i]).vertex_buffer,
        ) <= layer((#[trigger] after[j]).vertex_buffer) by {
            if j < before.len() {
                assert(after[i].vertex_buffer == before[i].vertex_buffer);
                assert(after[j].vertex_buffer == before[j].vertex_buffer);
            }
        }
    }
}

/// Whether a numbering of models puts the models themselves at 0 and the overlays
/// of each slot one above the slot below.
pub open spec fn is_layering(mobs: Seq<MobEntry>, layer: spec_fn(u64) -> int) -> bool {
    &&& forall|m: int, is_baby: bool, n: u32|
        0 <= m < mobs.len() ==> layer((#[trigger] mobs[m].base(is_baby, n)).vertex_buffer) == 0
    &&& forall|m: int, is_baby: bool, slot: int, n: u32|
        0 <= m < mobs.len() && 0 <= slot < mobs[m].layers(is_baby).len() ==> layer(
            (#[trigger] nth_or_last(mobs[m].layers(is_baby)[slot]@, n)).vertex_buffer,
        ) == slot + 1
}

proof fn bases_are_lowest(
    mobs: Seq<MobEntry>,
    skins: Map<u128, PlayerSkin>,
    entities: Seq<EntityInfo>,
    vis: Seq<Seen>,
    n: nat,
    layer: spec_fn(u64) -> int,
)
    requires
        is_layering(mobs, layer),
        is_seen(mobs, entities, vis),
        n <= vis.len(),
    ensures
        forall|i: int|
            0 <= i < base_layers(mobs, skins, entities, vis, n).len() ==> layer(
                (#[trigger] base_layers(mobs, skins, entities, vis, n)[i]).vertex_buffer,
            ) == 0,
    decreases n,
{
    if n > 0 {
        bases_are_lowest(mobs, skins, entities, vis, (n - 1) as nat, layer);
        let v = vis[n - 1];
        let info = entities[v.info as int];
        assert(layer(
            mobs[v.entry as int].base(
                info.is_baby,
                variant_number(skins, info),
            ).vertex_buffer,
        ) == 0);
    }
}

proof fn slots_are_layers(
    mobs: Seq<MobEntry>,
    entities: Seq<EntityInfo>,
    vis: Seq<Seen>,
    slot: int,
    n: nat,
    layer: spec_fn(u64) -> int,
)
    requires
        is_layering(mobs, layer),
        is_seen(mobs, entities, vis),
        0 <= slot,
        n <= vis.len(),
    ensures
        forall|i: int|
            0 <= i < slot_layers(mobs, entities, vis, slot, n).len() ==> layer(
                (#[trigger] slot_layers(mobs, entities, vis, slot, n)[i]).vertex_buffer,
            ) == slot + 1,
    decreases n,
{
    if n > 0 {
        slots_are_layers(mobs, entities, vis, slot, (n - 1) as nat, layer);
        let v = vis[n - 1];
        let info = entities[v.info as int];
        let layers = mobs[v.entry as int].layers(info.is_baby);
        if slot < layers.len() {
            assert(layer(
                nth_or_last(
                    mobs[v.entry as int].layers(info.is_baby)[slot]@,
                    info.overlay_variants@[slot],
                ).vertex_buffer,
            ) == slot + 1);
        }
    }
}

proof fn opaque_layers_rise(
    mobs: Seq<MobEntry>,
    skins: Map<u128, PlayerSkin>,
    entities: Seq<EntityInfo>,
    vis: Seq<Seen>,
    slots: nat,
    layer: spec_fn(u64) -> int,
)
    requires
        is_layering(mobs, layer),
        is_seen(mobs, entities, vis),
    ensures
        ({
            let adds = opaque_layers(mobs, skins, entities, vis, slots);
            &&& forall|i: int|
                0 <= i < adds.len() ==> layer((#[trigger] adds[i]).vertex_buffer) <= slots
            &&& forall|i: int, j: int|
                0 <= i <= j < adds.len() ==> layer((#[trigger] adds[i]).vertex_buffer) <= layer(
                    (#[trigger] adds[j]).vertex_buffer,
                )
        }),
    decreases slots,
{
    if slots == 0 {
        bases_are_lowest(mobs, skins, entities, vis, vis.len(), layer);
    } else {
        opaque_layers_rise(mobs, skins, entities, vis, (slots - 1) as nat, layer);
        slots_are_layers(mobs, entities, vis, slots - 1, vis.len(), layer);
        let below = opaque_layers(mobs, skins, entities, vis, (slots - 1) as nat);
        let top = slot_layers(mobs, entities, vis, slots - 1, vis.len());
        let adds = below + top;
        assert forall|i: int| 0 <= i < adds.len() implies layer(
            (#[trigger] adds[i]).vertex_buffer,
        ) <= slots by {
            if i >= below.len() {
                assert(adds[i] == top[i - below.len()]);
            }
        }
        assert forall|i: int, j: int| 0 <= i <= j < adds.len() implies layer(
            (#[trigger] adds[i]).vertex_buffer,
        ) <= layer((#[trigger] adds[j]).vertex_buffer) by {
            if i >= below.len() {
                assert(adds[i] == top[i - below.len()]);
            } else {
                assert(adds[i] == below[i]);
            }
            if j >= below.len() {
                assert(adds[j] == top[j - below.len()]);
            } else {
                assert(adds[j] == below[j]);
            }
        }
    }
}

/// Where models and overlays have vertices of their own, all models are drawn
/// before the overlays, and the overlays slot after slot.
pub proof fn overlays_are_drawn_above(
    mobs: Seq<MobEntry>,
    skins: Map<u128, PlayerSkin>,
    entities: Seq<EntityInfo>,
    vis: Seq<Seen>,
    layer: spec_fn(u64) -> int,
)
    requires
        is_layering(mobs, layer),
        is_seen(mobs, entities, vis),
    ensures
        in_layer_order(grouped(opaque_layers(mobs, skins, entities, vis, 4)), layer),
{
    opaque_layers_rise(mobs, skins, entities, vis, 4, layer);
    groups_keep_the_layer_order(opaque_layers(mobs, skins, entities, vis, 4), layer);
}

/// What a frame draws of the entities.
pub struct EntityPlan {
    /// The instances, as many as there is room for.
    pub instances: Vec<EntityInstance>,
    /// How many instances the entities ask for. Those beyond what there is room
    /// for are dropped, which is worth a warning.
    pub wanted: usize,
    pub opaque: Vec<DrawRecord>,
    pub eyes: Vec<DrawRecord>,
    pub swirl: Vec<DrawRecord>,
}

/// The instances and the calls of a frame: the opaque layers, the glowing eyes,
/// and the charges.
pub open spec fn frame_parts(
    mobs: Seq<MobEntry>,
    skins: Map<u128, PlayerSkin>,
    entities: Seq<EntityInfo>,
) -> (Emitted, Emitted, Emitted) {
    let vis = seen(mobs, entities, entities.len());
    let opaque = grouped(opaque_layers(mobs, skins, entities, vis, 4));
    let eyes = grouped(
        emissive_layers(mobs, entities, vis, vis.len(), OverlayKind::EyesTranslucent),
    );
    let swirl = grouped(
        emissive_layers(mobs, entities, vis, vis.len(), OverlayKind::SwirlAdditive),
    );
    let first = emitted(Seq::empty(), opaque, opaque.len());
    let second = emitted(first.instances, eyes, eyes.len());
    let third = emitted(second.instances, swirl, swirl.len());
    (first, second, third)
}

/// What a frame draws of the entities.
pub fn plan_frame(mobs: &Vec<MobEntry>, skins: &PlayerSkins, entities: &Vec<EntityInfo>) -> (plan:
    EntityPlan)
    requires
        are_entries(mobs@),
    ensures
        ({
            let (opaque, eyes, swirl) = frame_parts(mobs@, skins.skins@, entities@);
            &&& plan.opaque@ == opaque.records
            &&& plan.eyes@ == eyes.records
            &&& plan.swirl@ == swirl.records
            &&& plan.wanted == swirl.instances.len()
            &&& plan.instances@ == if swirl.instances.len() > 16384 {
                swirl.instances.take(16384)
            } else {
                swirl.instances
            }
        }),
{
    let vis = visible_entities(mobs, entities);
    let opaque_groups = collect_opaque(mobs, skins, entities, &vis);
    let eye_groups = collect_emissive(mobs, entities, &vis, OverlayKind::EyesTranslucent);
    let swirl_groups = collect_emissive(mobs, entities, &vis, OverlayKind::SwirlAdditive);
    let mut instances: Vec<EntityInstance> = Vec::new();
    assert(instances@ =~= Seq::empty());
    let opaque = opaque_groups.emit(&mut instances);
    let eyes = eye_groups.emit(&mut instances);
    let swirl = swirl_groups.emit(&mut instances);
    let wanted: usize = instances.len();
    if wanted > MAX_INSTANCES {
        instances.truncate(MAX_INSTANCES);
    }
    EntityPlan { instances, wanted, opaque, eyes, swirl }
}

/// A command of a pass.
#[derive(Clone, Copy, Debug, PartialEq, Eq, Structural)]
pub enum PassCommand {
    Bind { vertex_buffer: u64, texture_set: u64 },
    Draw { part_count: u32, instance_count: u32, part_start: u32, first_instance: u32 },
}

/// The call of a record.
pub open spec fn draw_of(r: DrawRecord) -> PassCommand {
    PassCommand::Draw {
        part_count: r.part_count,
        instance_count: r.instance_count,
        part_start: r.part_start,
        first_instance: r.first_instance,
    }
}

/// The commands of the first `n` records, and what is bound after them. A record
/// whose instances were dropped is left out, and what is bound already is not
/// bound again.
pub open spec fn pass_commands(records: Seq<DrawRecord>, count: usize, n: nat) -> (
    Seq<PassCommand>,
    (u64, u64),
)
    decreases n,
{
    if n == 0 {
        (Seq::empty(), (0, 0))
    } else {
        let (before, bound) = pass_commands(records, count, (n - 1) as nat);
        let r = records[n - 1];
        if run_end(r) > count {
            (before, bound)
        } else if bound == (r.vertex_buffer, r.texture_set) {
            (before.push(draw_of(r)), bound)
        } else {
            (
                before.push(
                    PassCommand::Bind {
                        vertex_buffer: r.vertex_buffer,
                        texture_set: r.texture_set,
                    },
                ).push(draw_of(r)),
                (r.vertex_buffer, r.texture_set),
            )
        }
    }
}

/// The commands of a pass, for the first `count` instances.
pub fn record_pass(records: &Vec<DrawRecord>, count: usize) -> (commands: Vec<PassCommand>)
    ensures
        commands@ == pass_commands(records@, count, records@.len()).0,
{
    let mut commands: Vec<PassCommand> = Vec::new();
    let mut last_vb: u64 = 0;
    let mut last_texture_set: u64 = 0;
    let mut i: usize = 0;
    while i < records.len()
        invariant
            i <= records@.len(),
            (commands@, (last_vb, last_texture_set)) == pass_commands(records@, count, i as nat),
        decreases records@.len() - i,
    {
        let r: DrawRecord = records[i];
        let end: u64 = r.first_instance as u64 + r.instance_count as u64;
        if end <= count as u64 {
            if r.vertex_buffer != last_vb || r.texture_set != last_texture_set {
                commands.push(
                    PassCommand::Bind {
                        vertex_buffer: r.vertex_buffer,
                        texture_set: r.texture_set,
                    },
                );
                last_vb = r.vertex_buffer;
                last_texture_set = r.texture_set;
            }
            commands.push(
                PassCommand::Draw {
                    part_count: r.part_count,
                    instance_count: r.instance_count,
                    part_start: r.part_start,
                    first_instance: r.first_instance,
                },
            );
        }
        i = i + 1;
    }
    commands
}

/// What is bound after some commands.
pub open spec fn bound_after(commands: Seq<PassCommand>) -> (u64, u64)
    decreases commands.len(),
{
    if commands.len() == 0 {
        (0, 0)
    } else {
        match commands.last() {
            PassCommand::Bind { vertex_buffer, texture_set } => (vertex_buffer, texture_set),
            _ => bound_after(commands.drop_last()),
        }
    }
}

/// When a record is drawn, its own model and texture are bound.
pub proof fn records_are_drawn_with_their_own(records: Seq<DrawRecord>, count: usize, n: nat)
    requires
        0 < n <= records.len(),
        run_end(records[n - 1]) <= count,
    ensures
        ({
            let commands = pass_commands(records, count, n).0;
            &&& commands.len() > 0
            &&& commands.last() == draw_of(records[n - 1])
            &&& bound_after(commands) == (
                records[n - 1].vertex_buffer,
                records[n - 1].texture_set,
            )
        }),
{
    bound_is_tracked(records, count, n);
}

proof fn bound_is_tracked(records: Seq<DrawRecord>, count: usize, n: nat)
    requires
        n <= records.len(),
    ensures
        bound_after(pass_commands(records, count, n).0) == pass_commands(records, count, n).1,
    decreases n,
{
    if n > 0 {
        bound_is_tracked(records, count, (n - 1) as nat);
        let (before, bound) = pass_commands(records, count, (n - 1) as nat);
        let r = records[n - 1];
        let bind = PassCommand::Bind {
            vertex_buffer: r.vertex_buffer,
            texture_set: r.texture_set,
        };
        assert(before.push(draw_of(r)).drop_last() =~= before);
        assert(before.push(bind).drop_last() =~= before);
        assert(before.push(bind).push(draw_of(r)).drop_last() =~= before.push(bind));
        assert(bound_after(before.push(bind)) == (r.vertex_buffer, r.texture_set));
        assert(bound_after(before.push(draw_of(r))) == bound_after(before));
    }
}

/// Whether a layer's texture is repeated beyond its edges: the scrolling swirl
/// moves over them, and every other layer stays within.
pub fn texture_repeats(kind: OverlayKind) -> (repeats: bool)
    ensures
        repeats == (kind == OverlayKind::SwirlAdditive),
{
    kind == OverlayKind::SwirlAdditive
}

/// The pink texture that stands in for one that cannot be read.
pub open spec fn is_fallback(image: Image, size: u32) -> bool {
    &&& image.width == size
    &&& image.height == size
    &&& image.rgba@.len() == size * size * 4
    &&& forall|i: int|
        0 <= i < image.rgba@.len() ==> #[trigger] image.rgba@[i] == (if i % 4 == 0 {
            219u8
        } else if i % 4 == 3 {
            255
        } else {
            148
        })
}

/// The pink texture that stands in for one that cannot be read.
pub fn fallback_texture(size: u32) -> (image: Image)
    requires
        size * size * 4 <= u32::MAX,
    ensures
        is_fallback(image, size),
{
    let mut rgba: Vec<u8> = Vec::new();
    assert(size * size <= size * size * 4 && size * size >= 0) by (nonlinear_arith);
    let total: u32 = size * size;
    let mut i: u32 = 0;
    while i < total
        invariant
            i <= total,
            total * 4 <= u32::MAX,
            rgba@.len() == i * 4,
            forall|k: int|
                0 <= k < rgba@.len() ==> #[trigger] rgba@[k] == (if k % 4 == 0 {
                    219u8
                } else if k % 4 == 3 {
                    255
                } else {
                    148
                }),
        decreases total - i,
    {
        rgba.push(219);
        rgba.push(148);
        rgba.push(148);
        rgba.push(255);
        i = i + 1;
    }
    Image { width: size, height: size, rgba }
}

/// Whether a file of a list is there and can be read as a picture.
pub open spec fn is_readable(files: Seq<Option<Vec<u8>>>, i: int) -> bool {
    files[i] matches Some(bytes) && !is_decoded(bytes@, None)
}

/// The texture of an entity: the first of some files that can be read, or the one
/// that stands in for it.
pub fn load_entity_texture(files: &Vec<Option<Vec<u8>>>, fallback_size: u32) -> (image: Image)
    requires
        fallback_size * fallback_size * 4 <= u32::MAX,
    ensures
        (exists|i: int|
            0 <= i < files@.len() && #[trigger] is_readable(files@, i) && is_decoded(
                files@[i]->Some_0@,
                Some(image),
            ) && forall|k: int| 0 <= k < i ==> !#[trigger] is_readable(files@, k)) || (
        is_fallback(image, fallback_size) && forall|k: int|
            0 <= k < files@.len() ==> !#[trigger] is_readable(files@, k)),
{
    let mut i: usize = 0;
    while i < files.len()
        invariant
            i <= files@.len(),
            forall|k: int| 0 <= k < i ==> !#[trigger] is_readable(files@, k),
        decreases files@.len() - i,
    {
        if let Some(bytes) = &files[i] {
            if let Some(image) = decode_image(bytes) {
                assert(is_readable(files@, i as int));
                return image;
            }
        }
        i = i + 1;
    }
    fallback_texture(fallback_size)
}

/// The names of a model's parts.
pub open spec fn part_names(parts: Seq<String>) -> Seq<Seq<char>> {
    Seq::new(parts.len(), |i: int| parts[i]@)
}

fn same_names(a: &Vec<String>, b: &Vec<String>) -> (same: bool)
    ensures
        same == (part_names(a@) == part_names(b@)),
{
    if a.len() != b.len() {
        assert(part_names(a@).len() != part_names(b@).len());
        return false;
    }
    let mut i: usize = 0;
    while i < a.len()
        invariant
            i <= a@.len(),
            a@.len() == b@.len(),
            forall|k: int| 0 <= k < i ==> (#[trigger] a@[k])@ == b@[k]@,
        decreases a@.len() - i,
    {
        if a[i] != b[i] {
            assert(part_names(a@)[i as int] != part_names(b@)[i as int]);
            return false;
        }
        i = i + 1;
    }
    assert(part_names(a@) =~= part_names(b@));
    true
}

/// Whether the overlays have the parts of the model in its order, so that a part
/// of the model and that of an overlay have one number.
pub fn part_order_matches(base: &Vec<String>, overlays: &Vec<Vec<String>>) -> (matching: bool)
    ensures
        matching == forall|i: int|
            0 <= i < overlays@.len() ==> part_names((#[trigger] overlays@[i])@) == part_names(
                base@,
            ),
{
    let mut i: usize = 0;
    while i < overlays.len()
        invariant
            i <= overlays@.len(),
            forall|k: int|
                0 <= k < i ==> part_names((#[trigger] overlays@[k])@) == part_names(base@),
        decreases overlays@.len() - i,
    {
        if !same_names(&overlays[i], base) {
            return false;
        }
        i = i + 1;
    }
    true
}

} // verus!
