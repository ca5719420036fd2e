use std::collections::HashSet;

use image::ImageEncoder;
use pomme_client::entities::{
    collect_emissive, collect_opaque, effective_variant_index, fallback_texture,
    load_entity_texture, part_order_matches, plan_frame, player_texture_set, record_pass,
    texture_repeats, visible_entities, DrawRecord, EntityInfo, MobEntry, MobVariant, PassCommand,
    PlayerSkins, MAX_INSTANCES,
};
use pomme_client::item_atlas::{
    atlas_px_for_slot, is_animated_item, DynamicAtlasAllocator, GuiItemAtlas, KeySet, Slot,
    SlotState,
};
use pomme_client::mobs::{
    entity_bounds, jeb_sheep_tint, mob_definitions, texture_capacity, texture_variants,
    wool_color_tint, AnimationType, MobKind, MobModel, OverlayKind, TextureSet,
};

#[test]
fn only_some_items_are_animated() {
    assert!(is_animated_item("compass"));
    assert!(is_animated_item("recovery_compass"));
    assert!(is_animated_item("clock"));
    assert!(!is_animated_item("clocks"));
    assert!(!is_animated_item(""));
}

#[test]
fn the_item_atlas_is_a_power_of_two() {
    assert_eq!(atlas_px_for_slot(16), 512);
    assert_eq!(atlas_px_for_slot(32), 512);
    assert_eq!(atlas_px_for_slot(33), 1024);
    assert_eq!(atlas_px_for_slot(64), 1024);
    assert_eq!(atlas_px_for_slot(128), 2048);
    assert_eq!(atlas_px_for_slot(129), 4096);
    assert_eq!(atlas_px_for_slot(100_000), 4096);
}

#[test]
fn slots_are_kept_and_reused() {
    let mut atlas = DynamicAtlasAllocator::new(2, 1);
    let first = Slot { x: 0, y: 0 };
    let second = Slot { x: 1, y: 0 };
    assert_eq!(atlas.get_or_allocate("a", false), Some((first, SlotState::Empty)));
    assert_eq!(atlas.get_or_allocate("a", true), Some((first, SlotState::Ready)));
    assert_eq!(atlas.get_or_allocate("b", false), Some((second, SlotState::Empty)));
    assert_eq!(atlas.get_or_allocate("c", false), None);
    atlas.end_frame();
    assert_eq!(atlas.get_or_allocate("c", false), Some((first, SlotState::Stale)));
    assert_eq!(atlas.get_or_allocate("b", false), Some((second, SlotState::Ready)));
    atlas.end_frame();
    assert_eq!(atlas.get_or_allocate("c", false), Some((first, SlotState::Ready)));
}

#[test]
fn a_slot_once_marked_is_given_back_whatever_is_asked_later() {
    let mut atlas = DynamicAtlasAllocator::new(2, 1);
    let (first, second) = (Slot { x: 0, y: 0 }, Slot { x: 1, y: 0 });
    atlas.get_or_allocate("a", true);
    atlas.get_or_allocate("a", false);
    atlas.get_or_allocate("b", false);
    atlas.end_frame();
    atlas.end_frame();
    assert_eq!(atlas.get_or_allocate("b", false), Some((second, SlotState::Ready)));
    assert_eq!(atlas.get_or_allocate("c", false), Some((first, SlotState::Stale)));
    assert_eq!(atlas.get_or_allocate("a", false), None);
    // The mark of the name that had the slot before is gone.
    atlas.end_frame();
    assert_eq!(atlas.get_or_allocate("c", false), Some((first, SlotState::Ready)));
}

fn keys(names: &[&str]) -> KeySet {
    let mut set = KeySet::new();
    for name in names {
        set.insert(name);
    }
    set
}

#[test]
fn space_is_counted_without_repetition() {
    let mut atlas = DynamicAtlasAllocator::new(2, 2);
    for name in ["a", "b", "c"] {
        atlas.get_or_allocate(name, false);
    }
    assert!(atlas.has_space_for_all(&keys(&["a", "b", "a", "d"])));
    assert!(!atlas.has_space_for_all(&keys(&["d", "e"])));
    assert!(keys(&["a", "a"]).contains("a"));
    assert_eq!(keys(&["a", "a"]).keys.len(), 1);
}

#[test]
fn unwanted_slots_make_room() {
    let mut atlas = DynamicAtlasAllocator::new(3, 1);
    for name in ["a", "b", "c"] {
        atlas.get_or_allocate(name, false);
    }
    let wanted = keys(&["b", "x"]);
    assert!(!atlas.has_space_for_all(&wanted));
    assert!(atlas.reclaim_space_for(&wanted));
    assert_eq!(atlas.used_by_key.len(), 2);
    assert!(atlas.has_space_for_all(&wanted));
    assert_eq!(atlas.get_or_allocate("b", false).unwrap().1, SlotState::Ready);
    assert_eq!(atlas.get_or_allocate("x", false).unwrap().1, SlotState::Stale);
    assert!(!atlas.reclaim_space_for(&keys(&["1", "2", "3", "4"])));
    assert_eq!(atlas.used_by_key.len(), 0);
    assert!(atlas.reclaim_space_for(&keys(&[])));
}

#[test]
fn item_slots_share_no_pixel() {
    let mut atlas = GuiItemAtlas::new(48);
    assert_eq!((atlas.slot_px(), atlas.atlas_px()), (48, 1024));
    let mut seen = HashSet::new();
    for i in 0..21 * 21 {
        let (slot, _) = atlas.get_or_allocate(&format!("item{i}"), false).unwrap();
        let origin = atlas.slot_origin_pixels(&slot);
        assert!(seen.insert(origin));
        assert!(origin.0 + 48 <= 1024 && origin.1 + 48 <= 1024);
        let rect = atlas.scissor_rect(&slot);
        assert_eq!(rect.x as u32, origin.0);
        assert_eq!(rect.y as u32 + 48 + origin.1, 1024);
        assert_eq!((rect.width, rect.height), (48, 48));
    }
    assert!(atlas.get_or_allocate("one too many", false).is_none());
    assert!(!atlas.has_space_for_all(&keys(&["one too many"])));
    assert!(atlas.reclaim_space_for(&keys(&["one too many"])));
    assert!(atlas.get_or_allocate("one too many", true).is_some());
    atlas.end_frame();
    assert_eq!(atlas.allocator.used_by_key.len(), 440);
}

#[test]
fn mobs_have_their_layers() {
    let defs = mob_definitions();
    let kinds: Vec<MobKind> = defs.iter().map(|d| d.kind).collect();
    assert_eq!(
        kinds,
        vec![
            MobKind::Pig,
            MobKind::Cow,
            MobKind::Sheep,
            MobKind::Player,
            MobKind::Zombie,
            MobKind::Skeleton,
            MobKind::Creeper,
            MobKind::Villager,
            MobKind::Spider,
        ]
    );
    let sheep = &defs[2];
    assert_eq!(sheep.anim, AnimationType::Quadruped);
    assert_eq!(sheep.baby.unwrap().model, MobModel::BabySheep);
    assert_eq!(sheep.adult_overlays.len(), 2);
    assert_eq!(sheep.adult_overlays[1].model, MobModel::SheepWool);
    assert_eq!(sheep.baby_overlays.len(), 1);
    assert_eq!(defs[3].adult.len(), 2);
    assert!(defs[3].baby.is_none());
    assert_eq!(defs[6].adult_overlays[0].overlay_kind, OverlayKind::SwirlAdditive);
    assert_eq!(defs[7].adult_overlays[2].textures, TextureSet::VillagerProfession);
    assert_eq!(defs[8].adult_overlays[0].overlay_kind, OverlayKind::EyesTranslucent);
    assert_eq!(defs[0].baby.unwrap().tex_size, 32);
}

#[test]
fn textures_are_tried_in_turn() {
    assert_eq!(
        texture_variants(TextureSet::CowAdult),
        vec![
            vec![
                "minecraft/textures/entity/cow/cow_temperate.png",
                "minecraft/textures/entity/cow/cow.png",
            ],
            vec!["minecraft/textures/entity/cow/cow_cold.png"],
            vec!["minecraft/textures/entity/cow/cow_warm.png"],
        ]
    );
    assert_eq!(texture_variants(TextureSet::VillagerProfession).len(), 14);
    assert_eq!(texture_capacity(), 71 + 128);
}

#[test]
fn babies_are_half_as_large() {
    assert_eq!(entity_bounds(MobKind::Spider, false), (1400, 900));
    assert_eq!(entity_bounds(MobKind::Zombie, true), (300, 975));
    assert_eq!(entity_bounds(MobKind::Other, false), (1000, 1000));
}

#[test]
fn wool_has_sixteen_colours() {
    assert_eq!(wool_color_tint(0), 0xF0F0F0);
    assert_eq!(wool_color_tint(15), 0x1E1B1B);
    assert_eq!(wool_color_tint(0xF1), 0xEB8844);
}

#[test]
fn a_colourful_sheep_fades_from_one_colour_into_the_next() {
    let tint = jeb_sheep_tint(3, 60);
    assert_eq!((tint.from, tint.to, tint.step), (0x41CD34, 0xD88198, 10));
    let later = jeb_sheep_tint(3, 85);
    assert_eq!(later.from, tint.to);
    let wrapped = jeb_sheep_tint(-2, 50);
    assert_eq!((wrapped.from, wrapped.to), (0xF0F0F0, 0xEB8844));
}

fn variant(buffer: u64, kind: OverlayKind) -> MobVariant {
    MobVariant {
        vertex_buffer: buffer,
        texture_set: buffer + 1000,
        overlay_kind: kind,
        part_ranges: vec![(0, 36), (36, 0), (36, 24)],
    }
}

fn sheep() -> MobEntry {
    MobEntry {
        kind: MobKind::Sheep,
        adult_variants: vec![variant(1, OverlayKind::Opaque)],
        baby_variants: Some(vec![variant(2, OverlayKind::Opaque)]),
        adult_overlays: vec![
            vec![variant(3, OverlayKind::Opaque)],
            vec![variant(4, OverlayKind::Opaque)],
        ],
        baby_overlays: vec![],
    }
}

fn player() -> MobEntry {
    MobEntry {
        kind: MobKind::Player,
        adult_variants: vec![variant(5, OverlayKind::Opaque), variant(6, OverlayKind::Opaque)],
        baby_variants: None,
        adult_overlays: vec![],
        baby_overlays: vec![],
    }
}

fn spider() -> MobEntry {
    MobEntry {
        kind: MobKind::Spider,
        adult_variants: vec![variant(7, OverlayKind::Opaque)],
        baby_variants: None,
        adult_overlays: vec![vec![variant(8, OverlayKind::EyesTranslucent)]],
        baby_overlays: vec![],
    }
}

fn entity(kind: MobKind) -> EntityInfo {
    EntityInfo {
        kind,
        is_baby: false,
        player_id: None,
        variant_index: 0,
        overlay_shown: [true; 4],
        overlay_variants: [0; 4],
        has_red_overlay: false,
        skip_cull: false,
        visible: true,
    }
}

#[test]
fn variants_are_picked_by_number_or_the_last() {
    let p = player();
    assert_eq!(p.base_variant(false, 0).vertex_buffer, 5);
    assert_eq!(p.base_variant(false, 9).vertex_buffer, 6);
    assert_eq!(p.base_variant(true, 1).vertex_buffer, 6);
    assert_eq!(sheep().base_variant(true, 0).vertex_buffer, 2);
    assert_eq!(sheep().overlays(true).len(), 0);
    assert_eq!(sheep().overlay_variant(false, 1, 7).vertex_buffer, 4);
}

#[test]
fn entities_out_of_view_or_unknown_are_left_out() {
    let mobs = vec![sheep(), spider()];
    let mut hidden = entity(MobKind::Sheep);
    hidden.visible = false;
    let mut own = entity(MobKind::Spider);
    own.visible = false;
    own.skip_cull = true;
    let entities = vec![hidden, entity(MobKind::Other), own, entity(MobKind::Sheep)];
    let vis = visible_entities(&mobs, &entities);
    let found: Vec<(usize, usize)> = vis.iter().map(|s| (s.info, s.entry)).collect();
    assert_eq!(found, vec![(2, 1), (3, 0)]);
}

#[test]
fn overlays_are_drawn_over_all_models() {
    let mobs = vec![sheep(), player(), spider()];
    let entities = vec![entity(MobKind::Sheep), entity(MobKind::Spider), entity(MobKind::Sheep)];
    let vis = visible_entities(&mobs, &entities);
    let groups = collect_opaque(&mobs, &PlayerSkins::new(), &entities, &vis);
    let order: Vec<(u64, usize)> =
        groups.groups.iter().map(|g| (g.vertex_buffer, g.members.len())).collect();
    assert_eq!(order, vec![(1, 2), (7, 1), (3, 2), (4, 2)]);
    assert_eq!(groups.groups[2].members[1].entity, 2);
    assert_eq!(groups.groups[2].members[1].overlay, Some(0));
    let eyes = collect_emissive(&mobs, &entities, &vis, OverlayKind::EyesTranslucent);
    assert_eq!(eyes.groups.len(), 1);
    assert_eq!(eyes.groups[0].vertex_buffer, 8);
    assert!(!eyes.groups[0].members[0].hurt);
}

#[test]
fn a_frame_draws_every_instance_once() {
    let mobs = vec![sheep(), spider()];
    let mut shorn = entity(MobKind::Sheep);
    shorn.overlay_shown = [false; 4];
    shorn.has_red_overlay = true;
    let entities = vec![entity(MobKind::Sheep), shorn, entity(MobKind::Spider)];
    let plan = plan_frame(&mobs, &PlayerSkins::new(), &entities);
    // Two parts of each model have vertices.
    assert_eq!(plan.opaque.len(), 8);
    assert_eq!(plan.eyes.len(), 2);
    assert!(plan.swirl.is_empty());
    let mut next = 0;
    for r in plan.opaque.iter().chain(&plan.eyes) {
        assert_eq!(r.first_instance, next);
        next += r.instance_count;
    }
    assert_eq!(plan.instances.len(), next as usize);
    assert_eq!(plan.wanted, next as usize);
    assert_eq!(plan.opaque[0].instance_count, 2);
    assert!(plan.instances[1].member.hurt);
    assert_eq!(plan.instances[2].part, 2);
}

#[test]
fn a_frame_says_how_many_instances_it_drops() {
    let entities: Vec<EntityInfo> = (0..9000).map(|_| entity(MobKind::Player)).collect();
    let plan = plan_frame(&vec![player()], &PlayerSkins::new(), &entities);
    assert_eq!(plan.wanted, 18000);
    assert_eq!(plan.instances.len(), MAX_INSTANCES);
    // The run that was cut is not drawn.
    let drawn = record_pass(&plan.opaque, plan.instances.len());
    assert_eq!(drawn.iter().filter(|c| matches!(c, PassCommand::Draw { .. })).count(), 1);
}

#[test]
fn each_kind_of_mob_is_found_by_its_own_entry() {
    let kinds: Vec<MobKind> = mob_definitions().iter().map(|d| d.kind).collect();
    for (i, kind) in kinds.iter().enumerate() {
        assert!(!kinds[..i].contains(kind));
    }
    let mobs = vec![sheep(), player(), spider()];
    let entities = vec![entity(MobKind::Spider), entity(MobKind::Pig), entity(MobKind::Sheep)];
    let seen: Vec<(usize, usize)> =
        visible_entities(&mobs, &entities).iter().map(|s| (s.info, s.entry)).collect();
    assert_eq!(seen, vec![(0, 2), (2, 0)]);
}

#[test]
fn passes_bind_what_they_draw() {
    let record = |vertex_buffer, first_instance| DrawRecord {
        texture_set: 9,
        vertex_buffer,
        part_start: 0,
        part_count: 6,
        first_instance,
        instance_count: 2,
    };
    let records = vec![record(1, 0), record(1, 2), record(2, 4), record(2, 6)];
    let commands = record_pass(&records, 6);
    let binds: Vec<u64> = commands
        .iter()
        .filter_map(|c| match c {
            PassCommand::Bind { vertex_buffer, .. } => Some(*vertex_buffer),
            _ => None,
        })
        .collect();
    assert_eq!(binds, vec![1, 2]);
    assert_eq!(commands.len(), 5);
    assert!(record_pass(&vec![], 6).is_empty());
}

#[test]
fn skins_choose_the_model_and_the_texture() {
    let mut skins = PlayerSkins::new();
    let mut info = entity(MobKind::Player);
    info.player_id = Some(7);
    assert_eq!(player_texture_set(&skins, &info, 1), 1);
    assert_eq!(skins.update_player_skin(7, true, 50), Some(50));
    assert_eq!(player_texture_set(&skins, &info, 1), 50);
    assert_eq!(effective_variant_index(&skins, &info), 1);
    assert_eq!(skins.update_player_skin(7, false, 60), Some(50));
    assert_eq!(effective_variant_index(&skins, &info), 0);
    let mut other = entity(MobKind::Zombie);
    other.player_id = Some(7);
    other.variant_index = 4;
    assert_eq!(effective_variant_index(&skins, &other), 4);
    assert_eq!(skins.remove_player_skin(7).unwrap().texture_set, 50);
    assert!(skins.remove_player_skin(7).is_none());
}

#[test]
fn no_more_skins_are_kept_than_there_is_room_for() {
    let mut skins = PlayerSkins::new();
    for id in 0..128 {
        assert_eq!(skins.update_player_skin(id, false, id as u64), Some(id as u64));
    }
    assert_eq!(skins.update_player_skin(128, false, 128), None);
    assert_eq!(skins.update_player_skin(5, true, 999), Some(5));
    skins.clear_player_skins();
    assert_eq!(skins.update_player_skin(128, false, 128), Some(128));
}

fn png(width: u32, height: u32, rgba: &[u8]) -> Vec<u8> {
    let mut file = Vec::new();
    image::codecs::png::PngEncoder::new(&mut file)
        .write_image(rgba, width, height, image::ExtendedColorType::Rgba8)
        .unwrap();
    file
}

#[test]
fn unreadable_textures_are_pink() {
    let pink = fallback_texture(2);
    assert_eq!((pink.width, pink.height), (2, 2));
    assert_eq!(pink.rgba, [219, 148, 148, 255].repeat(4));
    let good = png(1, 1, &[1, 2, 3, 4]);
    let files = vec![None, Some(vec![0]), Some(good), Some(png(1, 1, &[9; 4]))];
    assert_eq!(load_entity_texture(&files, 2).rgba, vec![1, 2, 3, 4]);
    assert_eq!(load_entity_texture(&vec![None], 2).rgba, pink.rgba);
}

#[test]
fn overlays_have_the_parts_of_the_model() {
    let names = |parts: &[&str]| parts.iter().map(|p| p.to_string()).collect::<Vec<String>>();
    let base = names(&["head", "body"]);
    assert!(part_order_matches(&base, &vec![]));
    assert!(part_order_matches(&base, &vec![names(&["head", "body"])]));
    assert!(!part_order_matches(&base, &vec![names(&["body", "head"])]));
    assert!(!part_order_matches(&base, &vec![names(&["head"])]));
}

#[test]
fn only_the_swirl_repeats_its_texture() {
    assert!(texture_repeats(OverlayKind::SwirlAdditive));
    assert!(!texture_repeats(OverlayKind::EyesTranslucent));
    assert!(!texture_repeats(OverlayKind::Opaque));
}
