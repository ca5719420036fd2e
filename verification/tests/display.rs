use pomme_client::death::{
    build_death_confirm, build_death_screen, DeathAction, CONFIRM_BUTTONS, DEATH_BUTTONS,
};
use pomme_client::hud::{
    air_bubbles, build_hud, debug_left, debug_right, facing_name, gui_scale, max_gui_scale,
    push_debug_lines, AirBubbles, Bar, DebugInfo, FrameTimings, HudElement, HudItem, HudState,
    TargetBlock,
};
use pomme_client::inventory::build_inventory;
use pomme_client::pause::{build_pause_menu, PauseAction, PAUSE_BUTTONS};
use pomme_client::sprites::SpriteId;
use pomme_client::widgets::{
    push_button, push_cursor_blink, push_item_count, push_results_overlay, push_slider, push_slot,
    rgb, ResultAction, SlotLayer, Tone, UploadStatus,
};

#[test]
fn the_scale_is_the_largest_that_fits() {
    assert_eq!(max_gui_scale(1920, 1080), 4);
    assert_eq!(max_gui_scale(640, 480), 2);
    assert_eq!(max_gui_scale(639, 480), 1);
    assert_eq!(max_gui_scale(100, 100), 1);
}

#[test]
fn a_setting_of_zero_is_automatic_and_none_exceeds_the_largest() {
    assert_eq!(gui_scale(1920, 1080, 0), 4);
    assert_eq!(gui_scale(1920, 1080, 2), 2);
    assert_eq!(gui_scale(1920, 1080, 9), 4);
}

#[test]
fn full_air_above_water_shows_no_bubbles() {
    assert_eq!(air_bubbles(300, false), None);
    assert_eq!(
        air_bubbles(300, true),
        Some(AirBubbles { full: 10, popping_pos: 10, empty: 0, is_popping: false })
    );
}

#[test]
fn a_bubble_pops_just_before_it_is_empty() {
    assert_eq!(
        air_bubbles(271, true),
        Some(AirBubbles { full: 9, popping_pos: 10, empty: 0, is_popping: true })
    );
    assert_eq!(
        air_bubbles(270, true),
        Some(AirBubbles { full: 9, popping_pos: 9, empty: 0, is_popping: false })
    );
    assert_eq!(
        air_bubbles(269, true),
        Some(AirBubbles { full: 9, popping_pos: 9, empty: 1, is_popping: false })
    );
}

#[test]
fn no_air_leaves_ten_empty_bubbles() {
    for air in [0, -20] {
        assert_eq!(
            air_bubbles(air, true),
            Some(AirBubbles { full: 0, popping_pos: 0, empty: 10, is_popping: false })
        );
    }
}

fn state() -> HudState {
    HudState {
        selected_slot: 3,
        health: 20,
        food: 20,
        armor: 0,
        air_bubbles: None,
        eyes_in_water: false,
        tick: 0,
        experience_level: 0,
        experience_pixels: 0,
        survival: false,
        hotbar: Vec::new(),
        first_person: false,
        debug: false,
    }
}

#[test]
fn outside_survival_only_the_hotbar_is_shown() {
    assert_eq!(
        build_hud(&state()),
        vec![HudElement::Hotbar, HudElement::Selection { slot: 3 }]
    );
    let mut h = state();
    h.first_person = true;
    h.debug = true;
    assert_eq!(build_hud(&h)[..2], [HudElement::Crosshair, HudElement::DebugText]);
}

#[test]
fn items_show_their_count_where_there_is_more_than_one() {
    let mut h = state();
    h.hotbar.push(None);
    h.hotbar.push(Some(HudItem { name: "stone".to_string(), count: 1 }));
    h.hotbar.push(Some(HudItem { name: "dirt".to_string(), count: 64 }));
    assert_eq!(
        build_hud(&h)[2..],
        [
            HudElement::Item { slot: 1 },
            HudElement::Item { slot: 2 },
            HudElement::ItemCount { slot: 2, count: 64 },
        ]
    );
    for _ in 0..20 {
        h.hotbar.push(Some(HudItem { name: "sand".to_string(), count: 1 }));
    }
    let items = build_hud(&h).iter().filter(|e| matches!(e, HudElement::Item { .. })).count();
    assert_eq!(items, 8);
}

fn icons(h: &HudState, wanted: Bar) -> Vec<(u8, SpriteId)> {
    let mut found = Vec::new();
    for e in build_hud(h) {
        if let HudElement::Status { bar, index, sprite } = e {
            if bar == wanted {
                found.push((index, sprite));
            }
        }
    }
    found
}

#[test]
fn an_odd_number_ends_in_half_an_icon() {
    let mut h = state();
    h.survival = true;
    h.health = 5;
    let hearts = icons(&h, Bar::Health);
    assert_eq!(hearts.len(), 13);
    assert_eq!(
        hearts[..7],
        [
            (0, SpriteId::HeartContainer),
            (0, SpriteId::HeartFull),
            (1, SpriteId::HeartContainer),
            (1, SpriteId::HeartFull),
            (2, SpriteId::HeartContainer),
            (2, SpriteId::HeartHalf),
            (3, SpriteId::HeartContainer),
        ]
    );
    assert_eq!(icons(&h, Bar::Food).len(), 20);
    assert_eq!(icons(&h, Bar::Armor).len(), 0);
    h.armor = 1;
    assert_eq!(icons(&h, Bar::Armor)[1], (0, SpriteId::ArmorHalf));
}

#[test]
fn experience_shows_once_there_is_any() {
    let mut h = state();
    h.survival = true;
    assert_eq!(build_hud(&h).last(), Some(&HudElement::ExperienceBackground));
    h.experience_pixels = 91;
    h.experience_level = 7;
    let shown = build_hud(&h);
    assert_eq!(
        shown[shown.len() - 2..],
        [
            HudElement::ExperienceFill { pixels: 91 },
            HudElement::ExperienceLevel { level: 7 },
        ]
    );
}

#[test]
fn empty_bubbles_wobble_by_the_tick() {
    let mut h = state();
    h.eyes_in_water = true;
    h.air_bubbles = air_bubbles(0, true);
    h.tick = 20;
    let lowered: Vec<i32> = build_hud(&h)
        .iter()
        .filter_map(|e| match e {
            HudElement::Air { lowered, sprite: SpriteId::AirEmpty, .. } => Some(*lowered),
            _ => None,
        })
        .collect();
    assert_eq!(lowered, vec![0, 1, 1, 1, 1, 0, 1, 0, 1, 1]);
    h.tick = 21;
    for e in build_hud(&h) {
        if let HudElement::Air { lowered, .. } = e {
            assert_eq!(lowered, 0);
        }
    }
}

#[test]
fn bubbles_burst_only_under_water() {
    let mut h = state();
    h.air_bubbles = air_bubbles(271, true);
    h.eyes_in_water = true;
    assert_eq!(
        build_hud(&h).last(),
        Some(&HudElement::Air { index: 9, sprite: SpriteId::AirBursting, lowered: 0 })
    );
    h.eyes_in_water = false;
    assert_eq!(
        build_hud(&h).last(),
        Some(&HudElement::Air { index: 8, sprite: SpriteId::AirFull, lowered: 0 })
    );
}

#[test]
fn headings_have_names() {
    assert_eq!(facing_name(0), "South (+Z)");
    assert_eq!(facing_name(44), "South (+Z)");
    assert_eq!(facing_name(45), "West (-X)");
    assert_eq!(facing_name(135), "North (-Z)");
    assert_eq!(facing_name(225), "East (+X)");
    assert_eq!(facing_name(314), "East (+X)");
    assert_eq!(facing_name(315), "South (+Z)");
    assert_eq!(facing_name(360), "South (+Z)");
}

fn info() -> DebugInfo {
    DebugInfo {
        fps: 144,
        position: "-0.500 / 64.00000 / 17.250".to_string(),
        block_x: -1,
        block_y: 64,
        block_z: 17,
        heading: 90,
        rotation: "90.0 / -12.5".to_string(),
        target_block: None,
        chunk_count: 441,
        sections_drawn: 1200,
        occlusion_on: false,
        mesh_gate: None,
        gpu_name: "Card".to_string(),
        vulkan_version: "Vulkan 1.3".to_string(),
        screen_w: 1920,
        screen_h: 1080,
        timings: None,
    }
}

#[test]
fn the_debug_text_tells_the_place() {
    assert_eq!(
        debug_left(&info()),
        vec![
            "Pomme (144fps)",
            "",
            "XYZ: -0.500 / 64.00000 / 17.250",
            "Block: -1 64 17",
            "Chunk: 15 1 in [-1, 1]",
            "Facing: West (-X) (90.0 / -12.5)",
            "",
            "Chunks: 441 loaded",
            "Sections drawn: 1200 (occlusion off)",
            "Mesh gate: off (meshing all)",
        ]
    );
    let mut i = info();
    i.occlusion_on = true;
    i.mesh_gate = Some((1, 2, 3));
    i.target_block = Some(TargetBlock {
        x: -7,
        y: 63,
        z: 0,
        name: "stone".to_string(),
        face: "Up".to_string(),
    });
    assert_eq!(
        debug_left(&i)[8..],
        [
            "Sections drawn: 1200 (occlusion on)",
            "Mesh gate: vis 1 / margin 2 / hidden 3",
            "",
            "Targeted Block: -7, 63, 0",
            "minecraft:stone",
            "Face: Up",
        ]
    );
}

#[test]
fn the_debug_text_tells_the_machine() {
    assert_eq!(debug_right(&info()), vec!["Vulkan 1.3", "GPU: Card", "Display: 1920x1080"]);
    let mut i = info();
    i.timings = Some(FrameTimings {
        frame: "6.94".to_string(),
        fence: "1.00".to_string(),
        acquire: "0.10".to_string(),
        cull: "0.20".to_string(),
        draw: "3.00".to_string(),
        present: "0.50".to_string(),
    });
    assert_eq!(
        debug_right(&i)[3..],
        [
            "",
            "Frame: 6.94ms",
            "  Fence: 1.00ms",
            "  Acquire: 0.10ms",
            "  Cull: 0.20ms",
            "  Draw: 3.00ms",
            "  Present: 0.50ms",
        ]
    );
}

#[test]
fn empty_lines_take_their_place_only() {
    let lines = vec!["a".to_string(), String::new(), "b".to_string()];
    assert_eq!(push_debug_lines(&lines), vec![0, 2]);
}

#[test]
fn colours_are_split_into_their_parts() {
    assert_eq!(rgb(0xEB8844), (0xEB, 0x88, 0x44));
    assert_eq!(rgb(0xFF00_0001), (0, 0, 1));
}

#[test]
fn buttons_look_pressed_or_not() {
    let look = push_button(true, true);
    assert_eq!((look.sprite, look.border, look.hovered), (SpriteId::ButtonHover, 3, true));
    let look = push_button(true, false);
    assert_eq!((look.sprite, look.dimmed), (SpriteId::ButtonNormal, false));
    let look = push_button(false, true);
    assert_eq!(
        (look.sprite, look.border, look.dimmed, look.hovered),
        (SpriteId::ButtonDisabled, 1, true, false)
    );
}

#[test]
fn a_slider_follows_the_pointer_while_it_is_held() {
    assert!(push_slider(true, true, false).dragging);
    assert!(push_slider(false, true, true).dragging);
    assert!(!push_slider(false, true, false).dragging);
    assert!(!push_slider(true, false, true).dragging);
    assert_eq!(push_slider(false, false, false).handle, SpriteId::SliderHandle);
    assert_eq!(push_slider(true, false, false).handle, SpriteId::SliderHandleHover);
}

#[test]
fn slots_layer_their_highlight_round_the_item() {
    assert_eq!(
        push_slot(true, Some(5), Some(SpriteId::EmptyHelmet)),
        vec![
            SlotLayer::HighlightBack,
            SlotLayer::Item,
            SlotLayer::Count(5),
            SlotLayer::HighlightFront,
        ]
    );
    assert_eq!(
        push_slot(false, None, Some(SpriteId::EmptyHelmet)),
        vec![SlotLayer::Placeholder(SpriteId::EmptyHelmet)]
    );
    assert_eq!(push_slot(false, None, None), vec![]);
    assert_eq!(push_slot(false, Some(1), None), vec![SlotLayer::Item]);
}

#[test]
fn counts_are_set_back_by_their_width() {
    assert_eq!(push_item_count(64), ("64".to_string(), 12));
    assert_eq!(push_item_count(-2147483648), ("-2147483648".to_string(), 66));
}

#[test]
fn the_text_cursor_blinks() {
    assert!(push_cursor_blink(0));
    assert!(push_cursor_blink(499));
    assert!(!push_cursor_blink(500));
    assert!(push_cursor_blink(1000));
}

#[test]
fn results_can_be_uploaded_once() {
    let panel = push_results_overlay(&None, false, true, true, false);
    assert!(panel.status.is_none());
    assert_eq!((panel.label, panel.enabled), ("Upload & copy link", true));
    assert_eq!(panel.action, ResultAction::StartUpload);
    let panel = push_results_overlay(&Some(UploadStatus::Uploading), false, true, true, false);
    assert_eq!(panel.status, Some(("Uploading...".to_string(), Tone::Plain)));
    assert_eq!((panel.label, panel.enabled), ("Uploading...", false));
    assert_eq!(panel.action, ResultAction::Nothing);
    let done = UploadStatus::Done { url: "x.y/1".to_string(), copied: true };
    let panel = push_results_overlay(&Some(done), false, true, true, false);
    assert_eq!(panel.status, Some(("Link copied: x.y/1".to_string(), Tone::Good)));
    assert_eq!(panel.label, "Copy link again");
    assert_eq!(panel.action, ResultAction::Recopy);
    let done = UploadStatus::Done { url: "x.y/1".to_string(), copied: false };
    let panel = push_results_overlay(&Some(done), false, false, false, false);
    assert_eq!(
        panel.status,
        Some(("Uploaded (copy failed): x.y/1".to_string(), Tone::Doubtful))
    );
    assert_eq!(panel.action, ResultAction::Nothing);
    let failed = UploadStatus::Failed("no route".to_string());
    let panel = push_results_overlay(&Some(failed), false, true, true, false);
    assert_eq!(panel.status, Some(("no route".to_string(), Tone::Bad)));
    assert_eq!(panel.action, ResultAction::StartUpload);
}

#[test]
fn results_of_a_debug_build_stay_here() {
    let panel = push_results_overlay(&None, true, true, true, true);
    assert_eq!((panel.label, panel.enabled), ("Upload disabled (debug build)", false));
    assert_eq!(panel.action, ResultAction::Nothing);
}

#[test]
fn results_are_dismissed_by_escape_or_a_click_elsewhere() {
    assert_eq!(
        push_results_overlay(&None, false, false, true, false).action,
        ResultAction::Dismiss
    );
    assert_eq!(
        push_results_overlay(&None, false, true, false, true).action,
        ResultAction::Dismiss
    );
}

#[test]
fn pause_buttons_do_what_they_say() {
    let expected = [
        PauseAction::Resume,
        PauseAction::Nothing,
        PauseAction::Nothing,
        PauseAction::Nothing,
        PauseAction::Nothing,
        PauseAction::Options,
        PauseAction::Benchmark,
        PauseAction::Disconnect,
    ];
    for i in 0..8 {
        let mut over = [false; 8];
        over[i] = true;
        assert_eq!(build_pause_menu(&over, true), expected[i], "{}", PAUSE_BUTTONS[i].0);
        assert_eq!(build_pause_menu(&over, false), PauseAction::Nothing);
    }
    assert_eq!(build_pause_menu(&[false; 8], true), PauseAction::Nothing);
}

#[test]
fn leaving_after_a_death_is_confirmed() {
    let none = String::new();
    let screen = build_death_screen(&none, -3, true, &[false, true], true);
    assert_eq!(screen.action, DeathAction::ShowConfirm);
    assert!(screen.message.is_none());
    assert_eq!(screen.score, "-3");
    assert_eq!(build_death_confirm(true, &[true, false], true), DeathAction::TitleScreen);
    assert_eq!(build_death_confirm(true, &[false, true], true), DeathAction::Respawn);
    assert_eq!(DEATH_BUTTONS[1].0, "Title Screen");
    assert_eq!(CONFIRM_BUTTONS[0].0, "Title Screen");
}

#[test]
fn the_dead_respawn_once_the_buttons_are_enabled() {
    let message = "Steve fell".to_string();
    let screen = build_death_screen(&message, 12, false, &[true, false], true);
    assert_eq!(screen.action, DeathAction::Nothing);
    assert_eq!(screen.message, Some(message.clone()));
    let screen = build_death_screen(&message, 12, true, &[true, false], true);
    assert_eq!(screen.action, DeathAction::Respawn);
    let screen = build_death_screen(&message, 12, true, &[true, false], false);
    assert_eq!(screen.action, DeathAction::Nothing);
}

#[test]
fn inventory_slots_stand_in_their_places() {
    let slots = build_inventory();
    assert_eq!(slots.len(), 10);
    let places: Vec<(u32, u32, u16)> = slots.iter().map(|s| (s.x, s.y, s.number)).collect();
    assert_eq!(
        places,
        vec![
            (8, 8, 5),
            (8, 26, 6),
            (8, 44, 7),
            (8, 62, 8),
            (98, 18, 1),
            (116, 18, 2),
            (98, 36, 3),
            (116, 36, 4),
            (154, 28, 0),
            (77, 62, 45),
        ]
    );
    assert_eq!(slots[0].placeholder, Some(SpriteId::EmptyHelmet));
    assert_eq!(slots[4].placeholder, None);
    assert_eq!(slots[9].placeholder, Some(SpriteId::EmptyShield));
}
