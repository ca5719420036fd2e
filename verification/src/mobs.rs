//! The mobs that are drawn: their models, their layers and their textures.

use vstd::prelude::*;

verus! {

/// A kind of entity that can be drawn.
#[derive(Clone, Copy, Debug, PartialEq, Eq, Structural)]
pub enum MobKind {
    Pig,
    Cow,
    Sheep,
    Player,
    Zombie,
    Skeleton,
    Creeper,
    Villager,
    Spider,
    /// Any other kind: nothing is drawn of it.
    Other,
}

/// How a mob moves its parts.
#[derive(Clone, Copy, Debug, PartialEq, Eq, Structural)]
pub enum AnimationType {
    Quadruped,
    Humanoid,
    Zombie,
    Skeleton,
    Spider,
    Villager,
}

/// How a layer is blended.
#[derive(Clone, Copy, Debug, PartialEq, Eq, Structural)]
pub enum OverlayKind {
    /// Cut out, writing depth: base models, wool, clothing.
    Opaque,
    /// Translucent and bright, with depth-write off: glowing eyes.
    EyesTranslucent,
    /// Added to what is below, bright, with depth-write off, and scrolling: the
    /// charge of a creeper.
    SwirlAdditive,
}

/// A model.
#[derive(Clone, Copy, Debug, PartialEq, Eq, Structural)]
pub enum MobModel {
    Pig,
    BabyPig,
    Cow,
    BabyCow,
    Sheep,
    BabySheep,
    SheepWoolUndercoat,
    SheepWool,
    BabySheepWool,
    WidePlayer,
    SlimPlayer,
    Zombie,
    BabyZombie,
    Skeleton,
    Creeper,
    Villager,
    HatlessVillager,
    BabyVillager,
    HatlessBabyVillager,
    Spider,
}

/// The textures of a layer, one for each variant of it.
#[derive(Clone, Copy, Debug, PartialEq, Eq, Structural)]
pub enum TextureSet {
    PigAdult,
    PigBaby,
    CowAdult,
    CowBaby,
    SheepAdult,
    SheepBaby,
    SheepWoolUndercoat,
    SheepWool,
    SheepBabyWool,
    Player,
    Zombie,
    Skeleton,
    Creeper,
    CreeperArmor,
    Spider,
    SpiderEyes,
    Villager,
    VillagerBaby,
    VillagerType,
    VillagerBabyType,
    VillagerProfession,
    VillagerLevel,
}

/// Where a layer belongs.
#[derive(Clone, Copy, Debug, PartialEq, Eq, Structural)]
pub enum Layer {
    Adult,
    Baby,
    AdultOverlay,
    BabyOverlay,
}

/// The textures of each set, in the order of its variants: the file, and the one
/// that is tried after it, or nothing.
pub const TEXTURES: [(TextureSet, &'static str, &'static str); 55] = [
    (
        TextureSet::PigAdult,
        "minecraft/textures/entity/pig/pig_temperate.png",
        "minecraft/textures/entity/pig/temperate_pig.png",
    ),
    (TextureSet::PigBaby, "minecraft/textures/entity/pig/pig_temperate_baby.png", ""),
    (
        TextureSet::CowAdult,
        "minecraft/textures/entity/cow/cow_temperate.png",
        "minecraft/textures/entity/cow/cow.png",
    ),
    (TextureSet::CowAdult, "minecraft/textures/entity/cow/cow_cold.png", ""),
    (TextureSet::CowAdult, "minecraft/textures/entity/cow/cow_warm.png", ""),
    (TextureSet::CowBaby, "minecraft/textures/entity/cow/cow_temperate_baby.png", ""),
    (TextureSet::CowBaby, "minecraft/textures/entity/cow/cow_cold_baby.png", ""),
    (TextureSet::CowBaby, "minecraft/textures/entity/cow/cow_warm_baby.png", ""),
    (TextureSet::SheepAdult, "minecraft/textures/entity/sheep/sheep.png", ""),
    (TextureSet::SheepBaby, "minecraft/textures/entity/sheep/sheep_baby.png", ""),
    (
        TextureSet::SheepWoolUndercoat,
        "minecraft/textures/entity/sheep/sheep_wool_undercoat.png",
        "",
    ),
    (TextureSet::SheepWool, "minecraft/textures/entity/sheep/sheep_wool.png", ""),
    (TextureSet::SheepBabyWool, "minecraft/textures/entity/sheep/sheep_wool_baby.png", ""),
    (TextureSet::Player, "minecraft/textures/entity/player/wide/steve.png", ""),
    (TextureSet::Zombie, "minecraft/textures/entity/zombie/zombie.png", ""),
    (TextureSet::Skeleton, "minecraft/textures/entity/skeleton/skeleton.png", ""),
    (TextureSet::Creeper, "minecraft/textures/entity/creeper/creeper.png", ""),
    (TextureSet::CreeperArmor, "minecraft/textures/entity/creeper/creeper_armor.png", ""),
    (TextureSet::Spider, "minecraft/textures/entity/spider/spider.png", ""),
    (TextureSet::SpiderEyes, "minecraft/textures/entity/spider/spider_eyes.png", ""),
    (TextureSet::Villager, "minecraft/textures/entity/villager/villager.png", ""),
    (TextureSet::VillagerBaby, "minecraft/textures/entity/villager/villager_baby.png", ""),
    (TextureSet::VillagerType, "minecraft/textures/entity/villager/type/desert.png", ""),
    (TextureSet::VillagerType, "minecraft/textures/entity/villager/type/jungle.png", ""),
    (TextureSet::VillagerType, "minecraft/textures/entity/villager/type/plains.png", ""),
    (TextureSet::VillagerType, "minecraft/textures/entity/villager/type/savanna.png", ""),
    (TextureSet::VillagerType, "minecraft/textures/entity/villager/type/snow.png", ""),
    (TextureSet::VillagerType, "minecraft/textures/entity/villager/type/swamp.png", ""),
    (TextureSet::VillagerType, "minecraft/textures/entity/villager/type/taiga.png", ""),
    (TextureSet::VillagerBabyType, "minecraft/textures/entity/villager/baby/desert.png", ""),
    (TextureSet::VillagerBabyType, "minecraft/textures/entity/villager/baby/jungle.png", ""),
    (TextureSet::VillagerBabyType, "minecraft/textures/entity/villager/baby/plains.png", ""),
    (TextureSet::VillagerBabyType, "minecraft/textures/entity/villager/baby/savanna.png", ""),
    (TextureSet::VillagerBabyType, "minecraft/textures/entity/villager/baby/snow.png", ""),
    (TextureSet::VillagerBabyType, "minecraft/textures/entity/villager/baby/swamp.png", ""),
    (TextureSet::VillagerBabyType, "minecraft/textures/entity/villager/baby/taiga.png", ""),
    (
        TextureSet::VillagerProfession,
        "minecraft/textures/entity/villager/profession/armorer.png",
        "",
    ),
    (
        TextureSet::VillagerProfession,
        "minecraft/textures/entity/villager/profession/butcher.png",
        "",
    ),
    (
        TextureSet::VillagerProfession,
        "minecraft/textures/entity/villager/profession/cartographer.png",
        "",
    ),
    (
        TextureSet::VillagerProfession,
        "minecraft/textures/entity/villager/profession/cleric.png",
        "",
    ),
    (
        TextureSet::VillagerProfession,
        "minecraft/textures/entity/villager/profession/farmer.png",
        "",
    ),
    (
        TextureSet::VillagerProfession,
        "minecraft/textures/entity/villager/profession/fisherman.png",
        "",
    ),
    (
        TextureSet::VillagerProfession,
        "minecraft/textures/entity/villager/profession/fletcher.png",
        "",
    ),
    (
        TextureSet::VillagerProfession,
        "minecraft/textures/entity/villager/profession/leatherworker.png",
        "",
    ),
    (
        TextureSet::VillagerProfession,
        "minecraft/textures/entity/villager/profession/librarian.png",
        "",
    ),
    (TextureSet::VillagerProfession, "minecraft/textures/entity/villager/profession/mason.png", ""),
    (
        TextureSet::VillagerProfession,
        "minecraft/textures/entity/villager/profession/nitwit.png",
        "",
    ),
    (
        TextureSet::VillagerProfession,
        "minecraft/textures/entity/villager/profession/shepherd.png",
        "",
    ),
    (
        TextureSet::VillagerProfession,
        "minecraft/textures/entity/villager/profession/toolsmith.png",
        "",
    ),
    (
        TextureSet::VillagerProfession,
        "minecraft/textures/entity/villager/profession/weaponsmith.png",
        "",
    ),
    (
        TextureSet::VillagerLevel,
        "minecraft/textures/entity/villager/profession_level/stone.png",
        "",
    ),
    (TextureSet::VillagerLevel, "minecraft/textures/entity/villager/profession_level/iron.png", ""),
    (TextureSet::VillagerLevel, "minecraft/textures/entity/villager/profession_level/gold.png", ""),
    (
        TextureSet::VillagerLevel,
        "minecraft/textures/entity/villager/profession_level/emerald.png",
        "",
    ),
    (
        TextureSet::VillagerLevel,
        "minecraft/textures/entity/villager/profession_level/diamond.png",
        "",
    ),
];

/// The mobs and how they move.
pub const MOBS: [(MobKind, AnimationType); 9] = [
    (MobKind::Pig, AnimationType::Quadruped),
    (MobKind::Cow, AnimationType::Quadruped),
    (MobKind::Sheep, AnimationType::Quadruped),
    (MobKind::Player, AnimationType::Humanoid),
    (MobKind::Zombie, AnimationType::Zombie),
    (MobKind::Skeleton, AnimationType::Skeleton),
    (MobKind::Creeper, AnimationType::Quadruped),
    (MobKind::Villager, AnimationType::Villager),
    (MobKind::Spider, AnimationType::Spider),
];

/// The layers of each mob: where a layer belongs, its model, its textures, the
/// side of its texture, and how it is blended. Overlays are numbered in their
/// order here.
pub const LAYERS: [(MobKind, Layer, MobModel, TextureSet, u32, OverlayKind); 26] = [
    (
        MobKind::Pig,
        Layer::Adult,
        MobModel::Pig,
        TextureSet::PigAdult,
        64,
        OverlayKind::Opaque,
    ),
    (
        MobKind::Pig,
        Layer::Baby,
        MobModel::BabyPig,
        TextureSet::PigBaby,
        32,
        OverlayKind::Opaque,
    ),
    (
        MobKind::Cow,
        Layer::Adult,
        MobModel::Cow,
        TextureSet::CowAdult,
        64,
        OverlayKind::Opaque,
    ),
    (
        MobKind::Cow,
        Layer::Baby,
        MobModel::BabyCow,
        TextureSet::CowBaby,
        64,
        OverlayKind::Opaque,
    ),
    (
        MobKind::Sheep,
        Layer::Adult,
        MobModel::Sheep,
        TextureSet::SheepAdult,
        64,
        OverlayKind::Opaque,
    ),
    (
        MobKind::Sheep,
        Layer::Baby,
        MobModel::BabySheep,
        TextureSet::SheepBaby,
        64,
        OverlayKind::Opaque,
    ),
    (
        MobKind::Sheep,
        Layer::AdultOverlay,
        MobModel::SheepWoolUndercoat,
        TextureSet::SheepWoolUndercoat,
        64,
        OverlayKind::Opaque,
    ),
    (
        MobKind::Sheep,
        Layer::AdultOverlay,
        MobModel::SheepWool,
        TextureSet::SheepWool,
        64,
        OverlayKind::Opaque,
    ),
    (
        MobKind::Sheep,
        Layer::BabyOverlay,
        MobModel::BabySheepWool,
        TextureSet::SheepBabyWool,
        64,
        OverlayKind::Opaque,
    ),
    (
        MobKind::Player,
        Layer::Adult,
        MobModel::WidePlayer,
        TextureSet::Player,
        64,
        OverlayKind::Opaque,
    ),
    (
        MobKind::Player,
        Layer::Adult,
        MobModel::SlimPlayer,
        TextureSet::Player,
        64,
        OverlayKind::Opaque,
    ),
    (
        MobKind::Zombie,
        Layer::Adult,
        MobModel::Zombie,
        TextureSet::Zombie,
        64,
        OverlayKind::Opaque,
    ),
    (
        MobKind::Zombie,
        Layer::Baby,
        MobModel::BabyZombie,
        TextureSet::Zombie,
        64,
        OverlayKind::Opaque,
    ),
    (
        MobKind::Skeleton,
        Layer::Adult,
        MobModel::Skeleton,
        TextureSet::Skeleton,
        64,
        OverlayKind::Opaque,
    ),
    (
        MobKind::Creeper,
        Layer::Adult,
        MobModel::Creeper,
        TextureSet::Creeper,
        64,
        OverlayKind::Opaque,
    ),
    (
        MobKind::Creeper,
        Layer::AdultOverlay,
        MobModel::Creeper,
        TextureSet::CreeperArmor,
        64,
        OverlayKind::SwirlAdditive,
    ),
    (
        MobKind::Villager,
        Layer::Adult,
        MobModel::Villager,
        TextureSet::Villager,
        64,
        OverlayKind::Opaque,
    ),
    (
        MobKind::Villager,
        Layer::Baby,
        MobModel::BabyVillager,
        TextureSet::VillagerBaby,
        64,
        OverlayKind::Opaque,
    ),
    (
        MobKind::Villager,
        Layer::AdultOverlay,
        MobModel::Villager,
        TextureSet::VillagerType,
        64,
        OverlayKind::Opaque,
    ),
    (
        MobKind::Villager,
        Layer::AdultOverlay,
        MobModel::HatlessVillager,
        TextureSet::VillagerType,
        64,
        OverlayKind::Opaque,
    ),
    (
        MobKind::Villager,
        Layer::AdultOverlay,
        MobModel::Villager,
        TextureSet::VillagerProfession,
        64,
        OverlayKind::Opaque,
    ),
    (
        MobKind::Villager,
        Layer::AdultOverlay,
        MobModel::Villager,
        TextureSet::VillagerLevel,
        64,
        OverlayKind::Opaque,
    ),
    (
        MobKind::Villager,
        Layer::BabyOverlay,
        MobModel::BabyVillager,
        TextureSet::VillagerBabyType,
        64,
        OverlayKind::Opaque,
    ),
    (
        MobKind::Villager,
        Layer::BabyOverlay,
        MobModel::HatlessBabyVillager,
        TextureSet::VillagerBabyType,
        64,
        OverlayKind::Opaque,
    ),
    (
        MobKind::Spider,
        Layer::Adult,
        MobModel::Spider,
        TextureSet::Spider,
        64,
        OverlayKind::Opaque,
    ),
    (
        MobKind::Spider,
        Layer::AdultOverlay,
        MobModel::Spider,
        TextureSet::SpiderEyes,
        64,
        OverlayKind::EyesTranslucent,
    ),
];

/// How many players' skins are kept.
pub const MAX_PLAYER_SKINS: u32 = 128;

/// A layer of a mob.
#[derive(Clone, Copy, Debug, PartialEq, Eq, Structural)]
pub struct VariantDef {
    pub model: MobModel,
    pub textures: TextureSet,
    pub tex_size: u32,
    pub overlay_kind: OverlayKind,
}

/// A mob and its layers.
pub struct MobDef {
    pub kind: MobKind,
    pub anim: AnimationType,
    pub adult: Vec<VariantDef>,
    pub baby: Option<VariantDef>,
    pub adult_overlays: Vec<VariantDef>,
    pub baby_overlays: Vec<VariantDef>,
}

/// The layer in a row of the table.
pub open spec fn layer_at(i: int) -> VariantDef {
    let row = LAYERS@[i];
    VariantDef { model: row.2, textures: row.3, tex_size: row.4, overlay_kind: row.5 }
}

/// The layers of a mob in one place, among the first `n` rows.
pub open spec fn layers_of(kind: MobKind, layer: Layer, n: nat) -> Seq<VariantDef>
    decreases n,
{
    if n == 0 {
        Seq::empty()
    } else if LAYERS@[n - 1].0 == kind && LAYERS@[n - 1].1 == layer {
        layers_of(kind, layer, (n - 1) as nat).push(layer_at(n - 1))
    } else {
        layers_of(kind, layer, (n - 1) as nat)
    }
}

/// The model of a baby, where the mob has one of its own.
pub open spec fn baby_of(kind: MobKind) -> Option<VariantDef> {
    let all = layers_of(kind, Layer::Baby, 26);
    if all.len() == 0 {
        None
    } else {
        Some(all[0])
    }
}

/// Whether a definition is that of the `i`th mob.
pub open spec fn is_mob(def: MobDef, i: int) -> bool {
    let kind = MOBS@[i].0;
    &&& def.kind == kind
    &&& def.anim == MOBS@[i].1
    &&& def.adult@ == layers_of(kind, Layer::Adult, 26)
    &&& def.baby == baby_of(kind)
    &&& def.adult_overlays@ == layers_of(kind, Layer::AdultOverlay, 26)
    &&& def.baby_overlays@ == layers_of(kind, Layer::BabyOverlay, 26)
}

/// Whether no kind of mob is defined twice.
pub open spec fn defined_once(defs: Seq<MobDef>) -> bool {
    forall|i: int, j: int|
        0 <= i < j < defs.len() ==> (#[trigger] defs[i]).kind != (#[trigger] defs[j]).kind
}

/// The models of adults and babies are opaque; only overlays are blended.
pub proof fn base_models_are_opaque(kind: MobKind, layer: Layer, i: int)
    requires
        layer == Layer::Adult || layer == Layer::Baby,
        0 <= i < layers_of(kind, layer, 26).len(),
    ensures
        layers_of(kind, layer, 26)[i].overlay_kind == OverlayKind::Opaque,
{
    lemma_base_rows_are_opaque(kind, layer, 26, i);
}

proof fn lemma_base_rows_are_opaque(kind: MobKind, layer: Layer, n: nat, i: int)
    requires
        n <= 26,
        layer == Layer::Adult || layer == Layer::Baby,
        0 <= i < layers_of(kind, layer, n).len(),
    ensures
        layers_of(kind, layer, n)[i].overlay_kind == OverlayKind::Opaque,
    decreases n,
{
    let rest = layers_of(kind, layer, (n - 1) as nat);
    if i < rest.len() {
        lemma_base_rows_are_opaque(kind, layer, (n - 1) as nat, i);
    }
}

fn collect_layers(kind: MobKind, layer: Layer) -> (layers: Vec<VariantDef>)
    ensures
        layers@ == layers_of(kind, layer, 26),
{
    let mut layers: Vec<VariantDef> = Vec::new();
    let mut i: usize = 0;
    while i < 26
        invariant
            i <= 26,
            layers@ == layers_of(kind, layer, i as nat),
        decreases 26 - i,
    {
        let row: (MobKind, Layer, MobModel, TextureSet, u32, OverlayKind) = LAYERS[i];
        if row.0 == kind && row.1 == layer {
            layers.push(
                VariantDef {
                    model: row.2,
                    textures: row.3,
                    tex_size: row.4,
                    overlay_kind: row.5,
                },
            );
        }
        i = i + 1;
    }
    layers
}

/// The mobs and their layers.
pub fn mob_definitions() -> (defs: Vec<MobDef>)
    ensures
        defs@.len() == 9,
        forall|i: int| 0 <= i < 9 ==> is_mob(#[trigger] defs@[i], i),
        defined_once(defs@),
{
    let mut defs: Vec<MobDef> = Vec::new();
    let mut i: usize = 0;
    while i < 9
        invariant
            i <= 9,
            defs@.len() == i,
            forall|k: int| 0 <= k < i ==> is_mob(#[trigger] defs@[k], k),
        decreases 9 - i,
    {
        let (kind, anim): (MobKind, AnimationType) = MOBS[i];
        let babies = collect_layers(kind, Layer::Baby);
        defs.push(
            MobDef {
                kind,
                anim,
                adult: collect_layers(kind, Layer::Adult),
                baby: if babies.len() == 0 {
                    None
                } else {
                    Some(babies[0])
                },
                adult_overlays: collect_layers(kind, Layer::AdultOverlay),
                baby_overlays: collect_layers(kind, Layer::BabyOverlay),
            },
        );
        i = i + 1;
    }
    defs
}

/// The textures of a set among the first `n`: for each variant the files that
/// are tried in turn.
pub open spec fn textures_of(set: TextureSet, n: nat) -> Seq<Seq<Seq<char>>>
    decreases n,
{
    if n == 0 {
        Seq::empty()
    } else {
        let row = TEXTURES@[n - 1];
        let before = textures_of(set, (n - 1) as nat);
        if row.0 != set {
            before
        } else if row.2@.len() == 0 {
            before.push(seq![row.1@])
        } else {
            before.push(seq![row.1@, row.2@])
        }
    }
}

/// The views of some lists of texts.
pub open spec fn text_lists(lists: Seq<Vec<&'static str>>) -> Seq<Seq<Seq<char>>> {
    Seq::new(lists.len(), |i: int| Seq::new(lists[i]@.len(), |k: int| lists[i]@[k]@))
}

/// The textures of a set: for each variant the files that are tried in turn.
pub fn texture_variants(set: TextureSet) -> (lists: Vec<Vec<&'static str>>)
    ensures
        text_lists(lists@) == textures_of(set, 55),
{
    let mut lists: Vec<Vec<&'static str>> = Vec::new();
    let mut i: usize = 0;
    assert(text_lists(lists@) =~= textures_of(set, 0));
    while i < 55
        invariant
            i <= 55,
            text_lists(lists@) == textures_of(set, i as nat),
        decreases 55 - i,
    {
        let row: (TextureSet, &'static str, &'static str) = TEXTURES[i];
        let ghost before = lists@;
        if row.0 == set {
            let mut files: Vec<&'static str> = Vec::new();
            files.push(row.1);
            if !row.2.is_empty() {
                files.push(row.2);
            }
            proof {
                let all = Seq::new(files@.len(), |k: int| files@[k]@);
                assert(all =~= if row.2@.len() == 0 {
                    seq![row.1@]
                } else {
                    seq![row.1@, row.2@]
                });
                assert(text_lists(before.push(files)) =~= text_lists(before).push(all));
            }
            lists.push(files);
        }
        i = i + 1;
    }
    lists
}

/// How many variants the textures of a set have among the first `n`.
pub open spec fn variants_of(set: TextureSet, n: nat) -> nat
    decreases n,
{
    if n == 0 {
        0
    } else {
        variants_of(set, (n - 1) as nat) + (if TEXTURES@[n - 1].0 == set {
            1nat
        } else {
            0
        })
    }
}

/// A set has as many lists of files as it has variants.
pub proof fn a_list_for_each_variant(set: TextureSet, n: nat)
    ensures
        textures_of(set, n).len() == variants_of(set, n),
    decreases n,
{
    if n > 0 {
        a_list_for_each_variant(set, (n - 1) as nat);
    }
}

/// How many textures the layers in the first `n` rows have.
pub open spec fn textures_in(n: nat) -> nat
    decreases n,
{
    if n == 0 {
        0
    } else {
        textures_in((n - 1) as nat) + variants_of(LAYERS@[n - 1].3, 55)
    }
}

fn count_variants(set: TextureSet) -> (count: u32)
    ensures
        count == variants_of(set, 55),
        count <= 55,
{
    let mut count: u32 = 0;
    let mut i: usize = 0;
    while i < 55
        invariant
            i <= 55,
            count <= i,
            count == variants_of(set, i as nat),
        decreases 55 - i,
    {
        if TEXTURES[i].0 == set {
            count = count + 1;
        }
        i = i + 1;
    }
    count
}

/// How many textures there is room for: one for each variant of each layer, and
/// one for each player's skin.
pub fn texture_capacity() -> (count: u32)
    ensures
        count == textures_in(26) + 128,
{
    let mut count: u32 = 0;
    let mut i: usize = 0;
    while i < 26
        invariant
            i <= 26,
            count <= i * 55,
            count == textures_in(i as nat),
        decreases 26 - i,
    {
        count = count + count_variants(LAYERS[i].3);
        i = i + 1;
    }
    count + MAX_PLAYER_SKINS
}

/// Every mob has a model, and no mob has more overlays than there are slots.
pub proof fn layers_fit(i: int)
    requires
        0 <= i < 9,
    ensures
        1 <= layers_of(MOBS@[i].0, Layer::Adult, 26).len() <= 2,
        layers_of(MOBS@[i].0, Layer::Baby, 26).len() <= 1,
        layers_of(MOBS@[i].0, Layer::AdultOverlay, 26).len() <= 4,
        layers_of(MOBS@[i].0, Layer::BabyOverlay, 26).len() <= 4,
{
    reveal_with_fuel(layers_of, 27);
}

/// The width and height of a mob, in thousandths of a block.
pub open spec fn bounds(kind: MobKind, is_baby: bool) -> (u32, u32) {
    let (w, h) = match kind {
        MobKind::Pig => (900u32, 900u32),
        MobKind::Cow => (900, 1400),
        MobKind::Sheep => (900, 1300),
        MobKind::Zombie => (600, 1950),
        MobKind::Skeleton => (600, 1990),
        MobKind::Creeper => (600, 1700),
        MobKind::Spider => (1400, 900),
        MobKind::Villager => (600, 1950),
        MobKind::Player => (600, 1800),
        MobKind::Other => (1000, 1000),
    };
    if is_baby {
        (w / 2, h / 2)
    } else {
        (w, h)
    }
}

/// The width and height of a mob, in thousandths of a block; a baby has half of
/// each.
pub fn entity_bounds(kind: MobKind, is_baby: bool) -> (size: (u32, u32))
    ensures
        size == bounds(kind, is_baby),
{
    let (w, h): (u32, u32) = match kind {
        MobKind::Pig => (900, 900),
        MobKind::Cow => (900, 1400),
        MobKind::Sheep => (900, 1300),
        MobKind::Zombie => (600, 1950),
        MobKind::Skeleton => (600, 1990),
        MobKind::Creeper => (600, 1700),
        MobKind::Spider => (1400, 900),
        MobKind::Villager => (600, 1950),
        MobKind::Player => (600, 1800),
        MobKind::Other => (1000, 1000),
    };
    if is_baby {
        (w / 2, h / 2)
    } else {
        (w, h)
    }
}

/// The colours of wool, by their numbers.
pub const WOOL_COLORS: [u32; 16] = [
    0xF0F0F0,
    0xEB8844,
    0xC354CD,
    0x6689D3,
    0xDECF2A,
    0x41CD34,
    0xD88198,
    0x434343,
    0xABABAB,
    0x287697,
    0x7B2FBE,
    0x253192,
    0x51301A,
    0x3B511A,
    0xB3312C,
    0x1E1B1B,
];

/// The colour of wool of a number, of which the low four bits count.
pub fn wool_color_tint(color: u8) -> (tint: u32)
    ensures
        tint == WOOL_COLORS@[color as int % 16],
{
    WOOL_COLORS[(color % 16) as usize]
}

/// A colour between two, in twenty-fifths of the way.
#[derive(Clone, Copy, Debug, PartialEq, Eq, Structural)]
pub struct FadingTint {
    pub from: u32,
    pub to: u32,
    pub step: u32,
}

/// Where in the circle of colours a sheep starts that shows all of them.
pub open spec fn jeb_start(entity_id: i32, age_in_ticks: u32) -> u32 {
    (age_in_ticks / 25).wrapping_add(entity_id as u32)
}

/// The colour of a sheep that shows all of them in turn.
pub fn jeb_sheep_tint(entity_id: i32, age_in_ticks: u32) -> (tint: FadingTint)
    requires
        jeb_start(entity_id, age_in_ticks) < u32::MAX,
    ensures
        tint.from == WOOL_COLORS@[jeb_start(entity_id, age_in_ticks) as int % 16],
        tint.to == WOOL_COLORS@[(jeb_start(entity_id, age_in_ticks) + 1) % 16],
        tint.step == age_in_ticks % 25,
{
    let base: u32 = (age_in_ticks / 25).wrapping_add(entity_id as u32);
    FadingTint {
        from: WOOL_COLORS[(base % 16) as usize],
        to: WOOL_COLORS[((base + 1) % 16) as usize],
        step: age_in_ticks % 25,
    }
}

/// Each colour fades into the next: where one fade ends, the next begins.
pub proof fn fades_join(entity_id: i32, age: u32)
    requires
        jeb_start(entity_id, age) < u32::MAX,
        age <= u32::MAX - 25,
    ensures
        jeb_start(entity_id, (age + 25) as u32) == jeb_start(entity_id, age) + 1,
{
}

/// The layers of a mob are the rows of its kind and layer, each once and in their
/// order: every row of them is there, and there are no others.
pub proof fn layers_are_the_rows_of_their_kind(kind: MobKind, layer: Layer, n: nat, r: int)
    requires
        0 <= r < n <= 26,
    ensures
        ({
            let all = layers_of(kind, layer, n);
            let before = layers_of(kind, layer, r as nat);
            &&& before.len() <= all.len()
            &&& LAYERS@[r].0 == kind && LAYERS@[r].1 == layer ==> before.len() < all.len() && {
                let found = all[before.len() as int];
                &&& found.model == LAYERS@[r].2
                &&& found.textures == LAYERS@[r].3
                &&& found.tex_size == LAYERS@[r].4
                &&& found.overlay_kind == LAYERS@[r].5
            }
            &&& LAYERS@[r].0 != kind || LAYERS@[r].1 != layer ==> layers_of(
                kind,
                layer,
                (r + 1) as nat,
            ) == before
        }),
    decreases n,
{
    if r < n - 1 {
        layers_are_the_rows_of_their_kind(kind, layer, (n - 1) as nat, r);
        let fewer = layers_of(kind, layer, (n - 1) as nat);
        let before = layers_of(kind, layer, r as nat);
        if before.len() < fewer.len() {
            assert(layers_of(kind, layer, n)[before.len() as int] == fewer[before.len() as int]);
        }
    }
}

/// The textures of a set are those of its rows, in their order: one picture, or two
/// where a second one lies over the first.
pub proof fn textures_are_the_rows_of_their_set(set: TextureSet, n: nat, r: int)
    requires
        0 <= r < n <= 55,
        TEXTURES@[r].0 == set,
    ensures
        ({
            let all = textures_of(set, n);
            let at = textures_of(set, r as nat).len();
            &&& at < all.len()
            &&& all[at as int][0] == TEXTURES@[r].1@
            &&& all[at as int].len() == if TEXTURES@[r].2@.len() == 0 {
                1nat
            } else {
                2nat
            }
            &&& TEXTURES@[r].2@.len() > 0 ==> all[at as int][1] == TEXTURES@[r].2@
        }),
    decreases n,
{
    if r < n - 1 {
        textures_are_the_rows_of_their_set(set, (n - 1) as nat, r);
        let at = textures_of(set, r as nat).len();
        assert(textures_of(set, n)[at as int] == textures_of(set, (n - 1) as nat)[at as int]);
    }
}

/// The young are half as wide and half as high as the grown.
pub proof fn the_young_are_half_as_large(kind: MobKind)
    ensures
        2 * bounds(kind, true).0 == bounds(kind, false).0,
        2 * bounds(kind, true).1 <= bounds(kind, false).1 <= 2 * bounds(kind, true).1 + 1,
{
}

} // verus!
