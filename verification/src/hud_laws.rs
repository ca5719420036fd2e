//! What holds of the heads-up display: how many hearts, bubbles and items it
//! shows.

use crate::hud::{
    air_icons, air_row, bar_icons, bar_sprites, bubbles_shown, facing, filled_lines, hotbar_items,
    hud_elements, left_lines, scale_in_use, shown_if, survival_elements, wobble_seed, AirBubbles,
    Bar, DebugInfo, HudElement, HudItem, HudState,
};
use crate::java_random::scrambled;
use crate::sprites::SpriteId;
use crate::strings::signed_decimal;
use vstd::prelude::*;

verus! {

/// A scale that is asked for is used where the window has room for it, with 320 by
/// 240 pixels at least; else the largest that there is room for is, or 1.
pub proof fn scales_are_used_where_they_fit(width: u32, height: u32, setting: u32)
    ensures
        ({
            let scale = scale_in_use(width, height, setting);
            &&& setting >= 1 && setting * 320 <= width && setting * 240 <= height ==> scale
                == setting
            &&& scale > 1 ==> scale * 320 <= width && scale * 240 <= height
            &&& setting == 0 || setting * 320 > width || setting * 240 > height ==> (scale + 1) * 320
                > width || (scale + 1) * 240 > height
            &&& scale >= 1
        }),
{
}

/// There is a bubble for every thirty ticks of air, begun ones included. Full are
/// as many as there are two ticks of air less; where that is fewer, one bursts. What
/// is left of ten is empty. Bubbles are shown under water and while the air comes
/// back.
pub proof fn bubbles_measure_the_air(air_supply: i32, eyes_in_water: bool)
    ensures
        bubbles_shown(air_supply, eyes_in_water) is None <==> !eyes_in_water && air_supply >= 300,
        bubbles_shown(air_supply, eyes_in_water) matches Some(b) ==> {
            let air = if air_supply < 0 {
                0int
            } else if air_supply > 300 {
                300
            } else {
                air_supply as int
            };
            let breath = if air > 0 && eyes_in_water {
                air + 1
            } else {
                air
            };
            &&& 30 * (b.popping_pos - 1) < air <= 30 * b.popping_pos
            &&& air >= 2 ==> 30 * (b.full - 1) < air - 2 <= 30 * b.full
            &&& air < 2 ==> b.full == 0
            &&& breath <= 300 ==> 30 * (9 - b.empty) < breath <= 30 * (10 - b.empty)
            &&& breath > 300 ==> b.empty == 0
            &&& b.is_popping <==> b.full != b.popping_pos
        },
{
}

proof fn lemma_bar(bar: Bar, units: u32, n: nat, i: u8, sprite: SpriteId)
    requires
        n <= 10,
        units < 512,
    ensures
        ({
            let (behind, whole, half) = bar_sprites(bar);
            bar_icons(bar, units, n).contains(HudElement::Status { bar, index: i, sprite }) <==> i
                < n && (sprite == behind || (sprite == whole && 2 * i + 2 <= units) || (sprite
                == half && 2 * i + 1 == units))
        }),
    decreases n,
{
    let all = bar_icons(bar, units, n);
    let x = HudElement::Status { bar, index: i, sprite };
    if n > 0 {
        let m = (n - 1) as nat;
        lemma_bar(bar, units, m, i, sprite);
        let before = bar_icons(bar, units, m);
        if before.contains(x) {
            let k = before.index_of(x);
            assert(all[k] == x);
        }
        if all.contains(x) {
            let k = all.index_of(x);
            if k < before.len() {
                assert(before[k] == x);
            }
        }
        if i == m {
            assert(all[before.len() as int] is Status);
            if all.len() > before.len() + 1 {
                assert(all[(before.len() + 1) as int] is Status);
            }
            assert(all.contains(all[before.len() as int]));
            if all.len() > before.len() + 1 {
                assert(all.contains(all[(before.len() + 1) as int]));
            }
        }
    }
}

proof fn lemma_bar_is_its_own(bar: Bar, other: Bar, units: u32, n: nat, i: u8, sprite: SpriteId)
    requires
        bar != other,
    ensures
        !bar_icons(other, units, n).contains(HudElement::Status { bar, index: i, sprite }),
    decreases n,
{
    if n > 0 {
        let m = (n - 1) as nat;
        lemma_bar_is_its_own(bar, other, units, m, i, sprite);
        let (before, all) = (bar_icons(other, units, m), bar_icons(other, units, n));
        let x = HudElement::Status { bar, index: i, sprite };
        if all.contains(x) {
            let k = all.index_of(x);
            if k < before.len() {
                assert(before[k] == x);
            }
        }
    }
}

proof fn lemma_bar_is_status(bar: Bar, units: u32, n: nat, x: HudElement)
    requires
        x !is Status,
    ensures
        !bar_icons(bar, units, n).contains(x),
    decreases n,
{
    if n > 0 {
        let m = (n - 1) as nat;
        lemma_bar_is_status(bar, units, m, x);
        let (before, all) = (bar_icons(bar, units, m), bar_icons(bar, units, n));
        if all.contains(x) {
            let k = all.index_of(x);
            if k < before.len() {
                assert(before[k] == x);
            }
        }
    }
}

proof fn lemma_both(a: Seq<HudElement>, b: Seq<HudElement>, x: HudElement)
    ensures
        (a + b).contains(x) <==> a.contains(x) || b.contains(x),
{
    if a.contains(x) {
        let k = a.index_of(x);
        assert((a + b)[k] == x);
    }
    if b.contains(x) {
        let k = b.index_of(x);
        assert((a + b)[a.len() + k] == x);
    }
    if (a + b).contains(x) {
        let k = (a + b).index_of(x);
        if k < a.len() {
            assert(a[k] == x);
        } else {
            assert(b[k - a.len()] == x);
        }
    }
}

proof fn lemma_one(e: HudElement, x: HudElement)
    ensures
        seq![e].contains(x) <==> x == e,
{
    assert(seq![e][0] == e);
}

proof fn lemma_survival(h: HudState, x: HudElement)
    ensures
        survival_elements(h).contains(x) <==> {
            ||| bar_icons(Bar::Health, h.health, 10).contains(x)
            ||| bar_icons(Bar::Food, h.food, 10).contains(x)
            ||| h.armor > 0 && bar_icons(Bar::Armor, h.armor, 10).contains(x)
            ||| x == HudElement::ExperienceBackground
            ||| h.experience_pixels > 0 && x == (HudElement::ExperienceFill {
                pixels: h.experience_pixels,
            })
            ||| h.experience_level > 0 && x == (HudElement::ExperienceLevel {
                level: h.experience_level,
            })
        },
{
    let a = bar_icons(Bar::Health, h.health, 10);
    let b = bar_icons(Bar::Food, h.food, 10);
    let c = if h.armor > 0 {
        bar_icons(Bar::Armor, h.armor, 10)
    } else {
        Seq::empty()
    };
    let d = seq![HudElement::ExperienceBackground];
    let fill = HudElement::ExperienceFill { pixels: h.experience_pixels };
    let level = HudElement::ExperienceLevel { level: h.experience_level };
    let e = shown_if(h.experience_pixels > 0, fill);
    let f = shown_if(h.experience_level > 0, level);
    lemma_both(a, b, x);
    lemma_both(a + b, c, x);
    lemma_both(a + b + c, d, x);
    lemma_both(a + b + c + d, e, x);
    lemma_both(a + b + c + d + e, f, x);
    lemma_one(HudElement::ExperienceBackground, x);
    lemma_one(fill, x);
    lemma_one(level, x);
}

proof fn lemma_hud(h: HudState, x: HudElement)
    ensures
        hud_elements(h).contains(x) <==> {
            ||| h.first_person && x == HudElement::Crosshair
            ||| h.debug && x == HudElement::DebugText
            ||| x == HudElement::Hotbar
            ||| x == (HudElement::Selection { slot: h.selected_slot })
            ||| hotbar_items(
                h.hotbar@,
                if h.hotbar@.len() < 9 {
                    h.hotbar@.len()
                } else {
                    9
                },
            ).contains(x)
            ||| h.survival && survival_elements(h).contains(x)
            ||| (h.air_bubbles matches Some(b) && air_icons(b, h.eyes_in_water, h.tick).contains(x))
        },
{
    let places = if h.hotbar@.len() < 9 {
        h.hotbar@.len()
    } else {
        9
    };
    let a = shown_if(h.first_person, HudElement::Crosshair);
    let b = shown_if(h.debug, HudElement::DebugText);
    let selection = HudElement::Selection { slot: h.selected_slot };
    let c = seq![HudElement::Hotbar, selection];
    let d = hotbar_items(h.hotbar@, places);
    let e = if h.survival {
        survival_elements(h)
    } else {
        Seq::empty()
    };
    let f = match h.air_bubbles {
        Some(b) => air_icons(b, h.eyes_in_water, h.tick),
        None => Seq::empty(),
    };
    lemma_both(a, b, x);
    lemma_both(a + b, c, x);
    lemma_both(a + b + c, d, x);
    lemma_both(a + b + c + d, e, x);
    lemma_both(a + b + c + d + e, f, x);
    lemma_one(HudElement::Crosshair, x);
    lemma_one(HudElement::DebugText, x);
    assert(c[0] == HudElement::Hotbar && c[1] == selection);
}

proof fn lemma_items(hotbar: Seq<Option<HudItem>>, n: nat, x: HudElement)
    requires
        n <= hotbar.len() <= usize::MAX,
    ensures
        hotbar_items(hotbar, n).contains(x) <==> {
            ||| (x matches HudElement::Item { slot } && slot < n && hotbar[slot as int] is Some)
            ||| (x matches HudElement::ItemCount { slot, count } && slot < n
                && hotbar[slot as int] is Some && hotbar[slot as int].unwrap().count == count
                && count > 1)
        },
    decreases n,
{
    if n > 0 {
        let m = (n - 1) as nat;
        lemma_items(hotbar, m, x);
        let (before, all) = (hotbar_items(hotbar, m), hotbar_items(hotbar, n));
        if before.contains(x) {
            let k = before.index_of(x);
            assert(all[k] == x);
        }
        if all.contains(x) {
            let k = all.index_of(x);
            if k < before.len() {
                assert(before[k] == x);
            }
        }
        if all.len() > before.len() {
            assert(all.contains(all[before.len() as int]));
        }
        if all.len() > before.len() + 1 {
            assert(all.contains(all[(before.len() + 1) as int]));
        }
    }
}

proof fn lemma_air_is_air(
    b: AirBubbles,
    eyes_in_water: bool,
    wobbling: bool,
    start: int,
    n: nat,
    x: HudElement,
)
    requires
        x !is Air,
    ensures
        !air_row(b, eyes_in_water, wobbling, start, n).icons.contains(x),
    decreases n,
{
    if n > 0 {
        let m = (n - 1) as nat;
        lemma_air_is_air(b, eyes_in_water, wobbling, start, m, x);
        let before = air_row(b, eyes_in_water, wobbling, start, m).icons;
        let all = air_row(b, eyes_in_water, wobbling, start, n).icons;
        if all.contains(x) {
            let k = all.index_of(x);
            if k < before.len() {
                assert(before[k] == x);
            }
        }
    }
}

/// In a world where the player can be hurt every bar has ten places. Of the hearts,
/// the food and the armour a place is whole for both of its points, half for the
/// one, and bare for none; armour is shown only where there is any. Elsewhere there
/// are no bars.
pub proof fn bars_show_their_points(h: HudState, i: u8)
    requires
        h.health < 512,
        h.food < 512,
        h.armor < 512,
        i < 10,
    ensures
        ({
            let all = hud_elements(h);
            let heart = |sprite: SpriteId| HudElement::Status {
                bar: Bar::Health,
                index: i,
                sprite,
            };
            let food = |sprite: SpriteId| HudElement::Status { bar: Bar::Food, index: i, sprite };
            let armor = |sprite: SpriteId| HudElement::Status { bar: Bar::Armor, index: i, sprite };
            &&& all.contains(heart(SpriteId::HeartContainer)) == h.survival
            &&& all.contains(heart(SpriteId::HeartFull)) == (h.survival && h.health >= 2 * i + 2)
            &&& all.contains(heart(SpriteId::HeartHalf)) == (h.survival && h.health == 2 * i + 1)
            &&& all.contains(food(SpriteId::FoodEmpty)) == h.survival
            &&& all.contains(food(SpriteId::FoodFull)) == (h.survival && h.food >= 2 * i + 2)
            &&& all.contains(food(SpriteId::FoodHalf)) == (h.survival && h.food == 2 * i + 1)
            &&& all.contains(armor(SpriteId::ArmorEmpty)) == (h.survival && h.armor > 0)
            &&& all.contains(armor(SpriteId::ArmorFull)) == (h.survival && h.armor >= 2 * i + 2)
            &&& all.contains(armor(SpriteId::ArmorHalf)) == (h.survival && h.armor == 2 * i + 1)
        }),
{
    assert forall|bar: Bar, sprite: SpriteId|
        {
            let units = match bar {
                Bar::Health => h.health,
                Bar::Food => h.food,
                Bar::Armor => h.armor,
            };
            let (behind, whole, half) = bar_sprites(bar);
            #[trigger] hud_elements(h).contains(HudElement::Status { bar, index: i, sprite })
                <==> h.survival && (bar != Bar::Armor || h.armor > 0) && (sprite == behind || (
            sprite == whole && 2 * i + 2 <= units) || (sprite == half && 2 * i + 1 == units))
        } by {
        lemma_status(h, bar, i, sprite);
    }
}

proof fn lemma_status(h: HudState, bar: Bar, i: u8, sprite: SpriteId)
    requires
        h.health < 512,
        h.food < 512,
        h.armor < 512,
        i < 10,
    ensures
        ({
            let units = match bar {
                Bar::Health => h.health,
                Bar::Food => h.food,
                Bar::Armor => h.armor,
            };
            let (behind, whole, half) = bar_sprites(bar);
            hud_elements(h).contains(HudElement::Status { bar, index: i, sprite }) <==> h.survival
                && (bar != Bar::Armor || h.armor > 0) && (sprite == behind || (sprite == whole && 2
                * i + 2 <= units) || (sprite == half && 2 * i + 1 == units))
        }),
{
    let x = HudElement::Status { bar, index: i, sprite };
    lemma_hud(h, x);
    lemma_survival(h, x);
    let places = if h.hotbar@.len() < 9 {
        h.hotbar@.len()
    } else {
        9
    };
    assert(h.hotbar.len() == h.hotbar@.len());
    lemma_items(h.hotbar@, places, x);
    if let Some(b) = h.air_bubbles {
        lemma_air_is_air(
            b,
            h.eyes_in_water,
            b.empty == 10 && h.tick % 2 == 0,
            scrambled(wobble_seed(h.tick)),
            10,
            x,
        );
    }
    match bar {
        Bar::Health => {
            lemma_bar(bar, h.health, 10, i, sprite);
            lemma_bar_is_its_own(bar, Bar::Food, h.food, 10, i, sprite);
            lemma_bar_is_its_own(bar, Bar::Armor, h.armor, 10, i, sprite);
        },
        Bar::Food => {
            lemma_bar(bar, h.food, 10, i, sprite);
            lemma_bar_is_its_own(bar, Bar::Health, h.health, 10, i, sprite);
            lemma_bar_is_its_own(bar, Bar::Armor, h.armor, 10, i, sprite);
        },
        Bar::Armor => {
            lemma_bar(bar, h.armor, 10, i, sprite);
            lemma_bar_is_its_own(bar, Bar::Health, h.health, 10, i, sprite);
            lemma_bar_is_its_own(bar, Bar::Food, h.food, 10, i, sprite);
        },
    }
}

/// The hotbar shows the items of its first nine places, each in its own, and how
/// many there are where there is more than one. The place that is selected is
/// marked, and no other. The cross and the debug text are shown where they are
/// asked for.
pub proof fn the_hotbar_shows_its_items(h: HudState, slot: usize, count: i32, place: u8)
    ensures
        hud_elements(h).contains(HudElement::Item { slot }) <==> slot < 9 && slot < h.hotbar@.len()
            && h.hotbar@[slot as int] is Some,
        hud_elements(h).contains(HudElement::ItemCount { slot, count }) <==> slot < 9 && slot
            < h.hotbar@.len() && h.hotbar@[slot as int] is Some
            && h.hotbar@[slot as int].unwrap().count == count && count > 1,
        hud_elements(h).contains(HudElement::Selection { slot: place }) <==> place
            == h.selected_slot,
        hud_elements(h).contains(HudElement::Hotbar),
        hud_elements(h).contains(HudElement::Crosshair) == h.first_person,
        hud_elements(h).contains(HudElement::DebugText) == h.debug,
{
    assert(h.hotbar.len() == h.hotbar@.len());
    lemma_plain(h, HudElement::Selection { slot: place });
    lemma_plain(h, HudElement::Hotbar);
    lemma_plain(h, HudElement::Item { slot });
    lemma_plain(h, HudElement::ItemCount { slot, count });
    lemma_plain(h, HudElement::Crosshair);
    lemma_plain(h, HudElement::DebugText);
}

proof fn lemma_plain(h: HudState, x: HudElement)
    requires
        x !is Status,
        x !is Air,
        x !is ExperienceBackground,
        x !is ExperienceFill,
        x !is ExperienceLevel,
    ensures
        hud_elements(h).contains(x) <==> {
            ||| h.first_person && x == HudElement::Crosshair
            ||| h.debug && x == HudElement::DebugText
            ||| x == HudElement::Hotbar
            ||| x == (HudElement::Selection { slot: h.selected_slot })
            ||| (x matches HudElement::Item { slot } && slot < 9 && slot < h.hotbar@.len()
                && h.hotbar@[slot as int] is Some)
            ||| (x matches HudElement::ItemCount { slot, count } && slot < 9 && slot
                < h.hotbar@.len() && h.hotbar@[slot as int] is Some
                && h.hotbar@[slot as int].unwrap().count == count && count > 1)
        },
{
    lemma_hud(h, x);
    lemma_survival(h, x);
    assert(h.hotbar.len() == h.hotbar@.len());
    let places = if h.hotbar@.len() < 9 {
        h.hotbar@.len()
    } else {
        9
    };
    lemma_items(h.hotbar@, places, x);
    lemma_bar_is_status(Bar::Health, h.health, 10, x);
    lemma_bar_is_status(Bar::Food, h.food, 10, x);
    lemma_bar_is_status(Bar::Armor, h.armor, 10, x);
    if let Some(b) = h.air_bubbles {
        lemma_air_is_air(
            b,
            h.eyes_in_water,
            b.empty == 10 && h.tick % 2 == 0,
            scrambled(wobble_seed(h.tick)),
            10,
            x,
        );
    }
}

/// A quarter turn to the right leads from south to west, to north, to east, and
/// back to south.
pub proof fn a_quarter_turn_changes_the_facing(degrees: u32)
    requires
        degrees < 360,
    ensures
        ({
            let next = facing(((degrees + 90) % 360) as u32);
            &&& facing(degrees) == "South (+Z)"@ ==> next == "West (-X)"@
            &&& facing(degrees) == "West (-X)"@ ==> next == "North (-Z)"@
            &&& facing(degrees) == "North (-Z)"@ ==> next == "East (+X)"@
            &&& facing(degrees) == "East (+X)"@ ==> next == "South (+Z)"@
        }),
        facing(0) == "South (+Z)"@,
{
    reveal_strlit("South (+Z)");
    reveal_strlit("West (-X)");
    reveal_strlit("North (-Z)");
    reveal_strlit("East (+X)");
    assert("South (+Z)"@[0] != "West (-X)"@[0]);
    assert("South (+Z)"@[0] != "North (-Z)"@[0]);
    assert("South (+Z)"@[0] != "East (+X)"@[0]);
    assert("West (-X)"@[0] != "North (-Z)"@[0]);
    assert("West (-X)"@[0] != "East (+X)"@[0]);
    assert("North (-Z)"@[0] != "East (+X)"@[0]);
}

/// The lines of the debug text that are shown are those that hold something, each
/// once, in their order.
pub proof fn lines_that_hold_something_are_shown(lines: Seq<String>, n: nat)
    requires
        n <= lines.len() <= usize::MAX,
    ensures
        ({
            let places = filled_lines(lines, n);
            &&& forall|i: int|
                0 <= i < places.len() ==> (#[trigger] places[i]) < n && lines[places[i] as int]@.len()
                    > 0
            &&& forall|i: int, j: int|
                0 <= i < j < places.len() ==> (#[trigger] places[i]) < (#[trigger] places[j])
            &&& forall|k: int|
                0 <= k < n && (#[trigger] lines[k])@.len() > 0 ==> places.contains(k as usize)
        }),
    decreases n,
{
    if n > 0 {
        let m = (n - 1) as nat;
        lines_that_hold_something_are_shown(lines, m);
        let (before, places) = (filled_lines(lines, m), filled_lines(lines, n));
        assert forall|k: int| 0 <= k < n && (#[trigger] lines[k])@.len() > 0 implies
            places.contains(k as usize) by {
            if k < m {
                let i = before.index_of(k as usize);
                assert(places[i] == k);
            } else {
                assert(places[before.len() as int] == k);
            }
        }
    }
}

/// Whether a row shows a bubble of a kind at a place.
pub open spec fn shows_bubble(icons: Seq<HudElement>, i: int, sprite: SpriteId) -> bool {
    exists|k: int|
        0 <= k < icons.len() && (#[trigger] icons[k] matches HudElement::Air {
            index,
            sprite: s,
            ..
        } && index == i && s == sprite)
}

proof fn lemma_row(
    b: AirBubbles,
    eyes_in_water: bool,
    wobbling: bool,
    start: int,
    n: nat,
    i: int,
    sprite: SpriteId,
)
    requires
        n <= 10,
        0 <= i,
    ensures
        ({
            let icons = air_row(b, eyes_in_water, wobbling, start, n).icons;
            let full = i < b.full;
            let bursts = !full && b.is_popping && i + 1 == b.popping_pos && eyes_in_water;
            let empty = !full && !bursts && i >= 10 - b.empty;
            shows_bubble(icons, i, sprite) <==> i < n && {
                ||| full && sprite == SpriteId::AirFull
                ||| bursts && sprite == SpriteId::AirBursting
                ||| empty && sprite == SpriteId::AirEmpty
            }
        }),
    decreases n,
{
    if n > 0 {
        let m = (n - 1) as nat;
        lemma_row(b, eyes_in_water, wobbling, start, m, i, sprite);
        let before = air_row(b, eyes_in_water, wobbling, start, m).icons;
        let all = air_row(b, eyes_in_water, wobbling, start, n).icons;
        if shows_bubble(before, i, sprite) {
            let k = choose|k: int|
                0 <= k < before.len() && (#[trigger] before[k] matches HudElement::Air {
                    index,
                    sprite: s,
                    ..
                } && index == i && s == sprite);
            assert(all[k] == before[k]);
        }
        if shows_bubble(all, i, sprite) {
            let k = choose|k: int|
                0 <= k < all.len() && (#[trigger] all[k] matches HudElement::Air {
                    index,
                    sprite: s,
                    ..
                } && index == i && s == sprite);
            if k < before.len() {
                assert(before[k] == all[k]);
            }
        }
        if all.len() > before.len() {
            assert(all[before.len() as int] is Air);
        }
    }
}

/// The bubbles stand in a row of ten: the full ones, under water the one that
/// bursts, and at the far end the empty ones. Between them a place may be bare.
pub proof fn bubbles_stand_in_a_row(
    b: AirBubbles,
    eyes_in_water: bool,
    tick: u64,
    i: int,
    sprite: SpriteId,
)
    requires
        0 <= i < 10,
    ensures
        ({
            let full = i < b.full;
            let bursts = !full && b.is_popping && i + 1 == b.popping_pos && eyes_in_water;
            let empty = !full && !bursts && i >= 10 - b.empty;
            shows_bubble(air_icons(b, eyes_in_water, tick), i, sprite) <==> {
                ||| full && sprite == SpriteId::AirFull
                ||| bursts && sprite == SpriteId::AirBursting
                ||| empty && sprite == SpriteId::AirEmpty
            }
        }),
{
    lemma_row(
        b,
        eyes_in_water,
        b.empty == 10 && tick % 2 == 0,
        scrambled(wobble_seed(tick)),
        10,
        i,
        sprite,
    );
}

/// Whether an icon lies right over another.
pub open spec fn lies_over(icons: Seq<HudElement>, below: HudElement, above: HudElement) -> bool {
    exists|k: int| 0 <= k < icons.len() - 1 && #[trigger] icons[k] == below && icons[k + 1] == above
}

/// The icons of a bar lie over their own places: a whole or a half one right over
/// what is behind it.
pub proof fn icons_lie_over_their_places(bar: Bar, units: u32, n: nat, i: u8)
    requires
        i < n <= 10,
        units < 512,
    ensures
        ({
            let icons = bar_icons(bar, units, n);
            let (behind, whole, half) = match bar {
                Bar::Health => (
                    SpriteId::HeartContainer,
                    SpriteId::HeartFull,
                    SpriteId::HeartHalf,
                ),
                Bar::Food => (SpriteId::FoodEmpty, SpriteId::FoodFull, SpriteId::FoodHalf),
                Bar::Armor => (SpriteId::ArmorEmpty, SpriteId::ArmorFull, SpriteId::ArmorHalf),
            };
            let at = |sprite: SpriteId| HudElement::Status { bar, index: i, sprite };
            &&& 2 * i + 2 <= units ==> lies_over(icons, at(behind), at(whole))
            &&& 2 * i + 1 == units ==> lies_over(icons, at(behind), at(half))
        }),
    decreases n,
{
    let m = (n - 1) as nat;
    let (before, all) = (bar_icons(bar, units, m), bar_icons(bar, units, n));
    let (behind, whole, half) = bar_sprites(bar);
    let at = |sprite: SpriteId| HudElement::Status { bar, index: i, sprite };
    if i < m {
        icons_lie_over_their_places(bar, units, m, i);
        assert forall|above: HudElement| #[trigger]
            lies_over(before, at(behind), above) implies lies_over(all, at(behind), above) by {
            let k = choose|k: int|
                0 <= k < before.len() - 1 && #[trigger] before[k] == at(behind) && before[k + 1]
                    == above;
            assert(all[k] == before[k] && all[k + 1] == before[k + 1]);
        }
    } else {
        let b = before.len() as int;
        assert(all[b] == at(behind));
        if 2 * i + 2 <= units {
            assert(all[b + 1] == at(whole));
        } else if 2 * i + 1 == units {
            assert(all[b + 1] == at(half));
        }
    }
}

/// The debug text tells the block that the player is in, and the chunk around it:
/// sixteen times the chunk's number and the place in the chunk make up the block's
/// own. It tells the block that is looked at where there is one, and only then.
pub proof fn the_debug_text_tells_the_place(info: DebugInfo, qx: int, rx: int, qz: int, rz: int)
    requires
        info.block_x == 16 * qx + rx,
        info.block_z == 16 * qz + rz,
        0 <= rx < 16,
        0 <= rz < 16,
    ensures
        ({
            let lines = left_lines(info);
            let n = |m: int| signed_decimal(m);
            &&& lines.contains(
                "Block: "@ + n(info.block_x as int) + " "@ + n(info.block_y as int) + " "@ + n(
                    info.block_z as int,
                ),
            )
            &&& lines.contains(
                "Chunk: "@ + n(rx) + " "@ + n(rz) + " in ["@ + n(qx) + ", "@ + n(qz) + "]"@,
            )
            &&& lines.contains("XYZ: "@ + info.position@)
            &&& lines.len() == if info.target_block is Some {
                14nat
            } else {
                10nat
            }
            &&& (info.target_block matches Some(t) ==> {
                &&& lines[11] == "Targeted Block: "@ + n(t.x as int) + ", "@ + n(t.y as int) + ", "@
                    + n(t.z as int)
                &&& lines[12] == "minecraft:"@ + t.name@
                &&& lines[13] == "Face: "@ + t.face@
            })
        }),
{
    let lines = left_lines(info);
    assert(info.block_x as int / 16 == qx && info.block_x as int % 16 == rx);
    assert(info.block_z as int / 16 == qz && info.block_z as int % 16 == rz);
    assert(lines[2] == "XYZ: "@ + info.position@);
    assert(lines[3] == "Block: "@ + signed_decimal(info.block_x as int) + " "@ + signed_decimal(
        info.block_y as int,
    ) + " "@ + signed_decimal(info.block_z as int));
    assert(lines[4] == "Chunk: "@ + signed_decimal(rx) + " "@ + signed_decimal(rz) + " in ["@
        + signed_decimal(qx) + ", "@ + signed_decimal(qz) + "]"@);
}

/// In a world where the player can be hurt the bar of experience is there; what was
/// gained fills it, and the level stands over it, where there is any. Elsewhere none
/// of it is shown.
pub proof fn experience_is_shown_where_there_is_any(h: HudState, pixels: i32, level: i32)
    ensures
        hud_elements(h).contains(HudElement::ExperienceBackground) == h.survival,
        hud_elements(h).contains(HudElement::ExperienceFill { pixels }) <==> h.survival && pixels
            == h.experience_pixels && pixels > 0,
        hud_elements(h).contains(HudElement::ExperienceLevel { level }) <==> h.survival && level
            == h.experience_level && level > 0,
{
    lemma_experience(h, HudElement::ExperienceBackground);
    lemma_experience(h, HudElement::ExperienceFill { pixels });
    lemma_experience(h, HudElement::ExperienceLevel { level });
}

proof fn lemma_experience(h: HudState, x: HudElement)
    requires
        x is ExperienceBackground || x is ExperienceFill || x is ExperienceLevel,
    ensures
        hud_elements(h).contains(x) <==> h.survival && {
            ||| x == HudElement::ExperienceBackground
            ||| h.experience_pixels > 0 && x == (HudElement::ExperienceFill {
                pixels: h.experience_pixels,
            })
            ||| h.experience_level > 0 && x == (HudElement::ExperienceLevel {
                level: h.experience_level,
            })
        },
{
    lemma_hud(h, x);
    lemma_survival(h, x);
    assert(h.hotbar.len() == h.hotbar@.len());
    let places = if h.hotbar@.len() < 9 {
        h.hotbar@.len()
    } else {
        9
    };
    lemma_items(h.hotbar@, places, x);
    lemma_bar_is_status(Bar::Health, h.health, 10, x);
    lemma_bar_is_status(Bar::Food, h.food, 10, x);
    lemma_bar_is_status(Bar::Armor, h.armor, 10, x);
    if let Some(b) = h.air_bubbles {
        lemma_air_is_air(
            b,
            h.eyes_in_water,
            b.empty == 10 && h.tick % 2 == 0,
            scrambled(wobble_seed(h.tick)),
            10,
            x,
        );
    }
}

} // verus!
