//! The display over the game: what it shows, and in which order.

use crate::java_random::{high_bits, scrambled, step, JavaRandom};
use crate::sprites::SpriteId;
use crate::strings::{decimal, decimal_text, signed_decimal, signed_text};
use vstd::prelude::*;

verus! {

/// The smallest window that a scale needs, per unit of it.
pub const SCALE_WIDTH: u32 = 320;

/// The smallest window that a scale needs, per unit of it.
pub const SCALE_HEIGHT: u32 = 240;

/// The largest scale that a window of a size has room for, but at least 1.
pub open spec fn largest_scale(width: u32, height: u32) -> u32 {
    let (a, b) = (width / 320, height / 240);
    let fits = if a < b {
        a
    } else {
        b
    };
    if fits < 1 {
        1
    } else {
        fits
    }
}

/// The largest scale that a window of a size has room for.
pub fn max_gui_scale(width: u32, height: u32) -> (scale: u32)
    ensures
        scale == largest_scale(width, height),
        scale >= 1,
{
    let a: u32 = width / SCALE_WIDTH;
    let b: u32 = height / SCALE_HEIGHT;
    let fits: u32 = if a < b { a } else { b };
    if fits < 1 {
        1
    } else {
        fits
    }
}

/// A larger scale than the largest does not fit, and the largest does wherever
/// any does.
pub proof fn largest_scale_is_the_largest(width: u32, height: u32, scale: u32)
    requires
        scale >= 1,
    ensures
        (scale * 320 <= width && scale * 240 <= height) ==> scale <= largest_scale(width, height),
        largest_scale(width, height) > 1 ==> largest_scale(width, height) * 320 <= width
            && largest_scale(width, height) * 240 <= height,
{
}

/// The scale in use under a setting: 0 stands for the largest, and no setting
/// exceeds it.
pub open spec fn scale_in_use(width: u32, height: u32, setting: u32) -> u32 {
    let max = largest_scale(width, height);
    if setting == 0 || setting > max {
        max
    } else {
        setting
    }
}

/// The scale in use under a setting.
pub fn gui_scale(width: u32, height: u32, setting: u32) -> (scale: u32)
    ensures
        scale == scale_in_use(width, height, setting),
        scale >= 1,
{
    let max: u32 = max_gui_scale(width, height);
    if setting == 0 || setting > max {
        max
    } else {
        setting
    }
}

/// The air of a player who has not dived, in ticks.
pub const MAX_AIR_SUPPLY: i32 = 300;

/// The row of air bubbles.
#[derive(Clone, Copy, Debug, PartialEq, Eq, Structural)]
pub struct AirBubbles {
    /// How many are full.
    pub full: i32,
    /// Which one is popping.
    pub popping_pos: i32,
    /// How many are empty.
    pub empty: i32,
    pub is_popping: bool,
}

/// How many of ten bubbles some air fills, the last perhaps in part.
pub open spec fn bubbles_of(air: int) -> int {
    if air <= 0 {
        0
    } else if air >= 300 {
        10
    } else {
        (air * 10 + 299) / 300
    }
}

/// The row of air bubbles; none is shown to a player with full air who is not
/// under water.
pub open spec fn bubbles_shown(air_supply: i32, eyes_in_water: bool) -> Option<AirBubbles> {
    if !eyes_in_water && air_supply >= 300 {
        None
    } else {
        let air = if air_supply < 0 {
            0
        } else if air_supply > 300 {
            300
        } else {
            air_supply as int
        };
        let full = bubbles_of(air - 2);
        let popping = bubbles_of(air);
        let delay = if air == 0 || !eyes_in_water {
            0int
        } else {
            1
        };
        Some(
            AirBubbles {
                full: full as i32,
                popping_pos: popping as i32,
                empty: (10 - bubbles_of(air + delay)) as i32,
                is_popping: full != popping,
            },
        )
    }
}

fn bubble_count(air: i32) -> (count: i32)
    requires
        -2 <= air <= 301,
    ensures
        count == bubbles_of(air as int),
        0 <= count <= 10,
{
    if air <= 0 {
        0
    } else if air >= MAX_AIR_SUPPLY {
        10
    } else {
        (air * 10 + MAX_AIR_SUPPLY - 1) / MAX_AIR_SUPPLY
    }
}

/// The row of air bubbles.
pub fn air_bubbles(air_supply: i32, eyes_in_water: bool) -> (bubbles: Option<AirBubbles>)
    ensures
        bubbles == bubbles_shown(air_supply, eyes_in_water),
{
    if !eyes_in_water && air_supply >= MAX_AIR_SUPPLY {
        return None;
    }
    let air: i32 = if air_supply < 0 {
        0
    } else if air_supply > MAX_AIR_SUPPLY {
        MAX_AIR_SUPPLY
    } else {
        air_supply
    };
    let full: i32 = bubble_count(air - 2);
    let popping_pos: i32 = bubble_count(air);
    let delay: i32 = if air == 0 || !eyes_in_water { 0 } else { 1 };
    Some(
        AirBubbles {
            full,
            popping_pos,
            empty: 10 - bubble_count(air + delay),
            is_popping: full != popping_pos,
        },
    )
}

/// The counts of a bubble row: at most one bubble is popping, between the full
/// and the empty ones, and there are ten places in all.
pub proof fn bubble_counts_fit(air_supply: i32, eyes_in_water: bool)
    ensures
        bubbles_shown(air_supply, eyes_in_water) matches Some(b) ==> {
            &&& 0 <= b.full <= b.popping_pos <= 10
            &&& b.popping_pos <= b.full + 1
            &&& 0 <= b.empty && b.full + b.empty <= 10
            &&& b.is_popping <==> b.popping_pos == b.full + 1
        },
{
}

/// A bar of ten icons, each for two units.
#[derive(Clone, Copy, Debug, PartialEq, Eq, Structural)]
pub enum Bar {
    Health,
    Food,
    Armor,
}

/// An item of the hotbar.
pub struct HudItem {
    pub name: String,
    pub count: i32,
}

/// Something that the display shows.
#[derive(Clone, Copy, Debug, PartialEq, Eq, Structural)]
pub enum HudElement {
    Crosshair,
    DebugText,
    Hotbar,
    /// The frame round the selected place.
    Selection { slot: u8 },
    /// The item at a place.
    Item { slot: usize },
    /// The number of items at a place.
    ItemCount { slot: usize, count: i32 },
    /// An icon of a bar, counted from the bar's start.
    Status { bar: Bar, index: u8, sprite: SpriteId },
    ExperienceBackground,
    /// The experience gained, in pixels of the bar.
    ExperienceFill { pixels: i32 },
    ExperienceLevel { level: i32 },
    /// A bubble, counted from the right, and how many pixels it is lowered.
    Air { index: i32, sprite: SpriteId, lowered: i32 },
}

/// The sprites of a bar: behind, whole, half.
pub open spec fn bar_sprites(bar: Bar) -> (SpriteId, SpriteId, SpriteId) {
    match bar {
        Bar::Health => (SpriteId::HeartContainer, SpriteId::HeartFull, SpriteId::HeartHalf),
        Bar::Food => (SpriteId::FoodEmpty, SpriteId::FoodFull, SpriteId::FoodHalf),
        Bar::Armor => (SpriteId::ArmorEmpty, SpriteId::ArmorFull, SpriteId::ArmorHalf),
    }
}

/// How many whole icons some units fill, counted in eight bits.
pub open spec fn whole_icons(units: u32) -> int {
    units as int / 2 % 256
}

/// The first `n` icons of a bar: each with its background, and over it the whole
/// or the half icon that the units reach.
pub open spec fn bar_icons(bar: Bar, units: u32, n: nat) -> Seq<HudElement>
    decreases n,
{
    if n == 0 {
        Seq::empty()
    } else {
        let i = (n - 1) as u8;
        let (behind, whole, half) = bar_sprites(bar);
        let before = bar_icons(bar, units, (n - 1) as nat).push(
            HudElement::Status { bar, index: i, sprite: behind },
        );
        if i < whole_icons(units) {
            before.push(HudElement::Status { bar, index: i, sprite: whole })
        } else if i == whole_icons(units) && units % 2 == 1 {
            before.push(HudElement::Status { bar, index: i, sprite: half })
        } else {
            before
        }
    }
}

fn build_status_bar(elements: &mut Vec<HudElement>, bar: Bar, units: u32)
    ensures
        final(elements)@ == old(elements)@ + bar_icons(bar, units, 10),
{
    let ghost before = elements@;
    let (behind, whole, half): (SpriteId, SpriteId, SpriteId) = match bar {
        Bar::Health => (SpriteId::HeartContainer, SpriteId::HeartFull, SpriteId::HeartHalf),
        Bar::Food => (SpriteId::FoodEmpty, SpriteId::FoodFull, SpriteId::FoodHalf),
        Bar::Armor => (SpriteId::ArmorEmpty, SpriteId::ArmorFull, SpriteId::ArmorHalf),
    };
    let pairs: u32 = units / 2;
    assert(pairs as u8 == pairs % 256) by (bit_vector);
    let full_icons: u8 = #[verifier::truncate] (pairs as u8);
    let has_half: bool = units % 2 == 1;
    let mut i: u8 = 0;
    assert(elements@ =~= before + bar_icons(bar, units, 0));
    while i < 10
        invariant
            i <= 10,
            (behind, whole, half) == bar_sprites(bar),
            full_icons == whole_icons(units),
            has_half == (units % 2 == 1),
            elements@ == before + bar_icons(bar, units, i as nat),
        decreases 10 - i,
    {
        elements.push(HudElement::Status { bar, index: i, sprite: behind });
        if i < full_icons {
            elements.push(HudElement::Status { bar, index: i, sprite: whole });
        } else if i == full_icons && has_half {
            elements.push(HudElement::Status { bar, index: i, sprite: half });
        }
        i = i + 1;
        assert(elements@ =~= before + bar_icons(bar, units, i as nat));
    }
}

/// The first `n` places of the hotbar: the items there, and their number where
/// there is more than one.
pub open spec fn hotbar_items(hotbar: Seq<Option<HudItem>>, n: nat) -> Seq<HudElement>
    decreases n,
{
    if n == 0 {
        Seq::empty()
    } else {
        let before = hotbar_items(hotbar, (n - 1) as nat);
        let slot = (n - 1) as usize;
        match hotbar[n - 1] {
            Some(item) => {
                let with_item = before.push(HudElement::Item { slot });
                if item.count > 1 {
                    with_item.push(HudElement::ItemCount { slot, count: item.count })
                } else {
                    with_item
                }
            },
            None => before,
        }
    }
}

fn push_hotbar_items(elements: &mut Vec<HudElement>, hotbar: &Vec<Option<HudItem>>)
    ensures
        final(elements)@ == old(elements)@ + hotbar_items(
            hotbar@,
            if hotbar@.len() < 9 {
                hotbar@.len()
            } else {
                9
            },
        ),
{
    let ghost before = elements@;
    let n: usize = if hotbar.len() < 9 { hotbar.len() } else { 9 };
    let mut i: usize = 0;
    assert(elements@ =~= before + hotbar_items(hotbar@, 0));
    while i < n
        invariant
            i <= n,
            n <= hotbar@.len(),
            elements@ == before + hotbar_items(hotbar@, i as nat),
        decreases n - i,
    {
        if let Some(item) = &hotbar[i] {
            elements.push(HudElement::Item { slot: i });
            if item.count > 1 {
                elements.push(HudElement::ItemCount { slot: i, count: item.count });
            }
        }
        i = i + 1;
        assert(elements@ =~= before + hotbar_items(hotbar@, i as nat));
    }
}

/// The air row so far, and the state of the numbers that make it wobble.
pub struct AirRow {
    pub icons: Seq<HudElement>,
    pub state: int,
}

/// The first `n` bubbles from the right: the full ones, one that bursts while
/// the eyes are under water, a gap, and the empty ones, which wobble by a random
/// number.
pub open spec fn air_row(
    b: AirBubbles,
    eyes_in_water: bool,
    wobbling: bool,
    start: int,
    n: nat,
) -> AirRow
    decreases n,
{
    if n == 0 {
        AirRow { icons: Seq::empty(), state: start }
    } else {
        let before = air_row(b, eyes_in_water, wobbling, start, (n - 1) as nat);
        let index = (n - 1) as i32;
        if n <= b.full {
            AirRow {
                icons: before.icons.push(
                    HudElement::Air { index, sprite: SpriteId::AirFull, lowered: 0 },
                ),
                ..before
            }
        } else if b.is_popping && n == b.popping_pos && eyes_in_water {
            AirRow {
                icons: before.icons.push(
                    HudElement::Air { index, sprite: SpriteId::AirBursting, lowered: 0 },
                ),
                ..before
            }
        } else if n <= 10 - b.empty {
            before
        } else if wobbling {
            let state = step(before.state);
            AirRow {
                icons: before.icons.push(
                    HudElement::Air {
                        index,
                        sprite: SpriteId::AirEmpty,
                        lowered: (2 * high_bits(state) / 0x8000_0000) as i32,
                    },
                ),
                state,
            }
        } else {
            AirRow {
                icons: before.icons.push(
                    HudElement::Air { index, sprite: SpriteId::AirEmpty, lowered: 0 },
                ),
                ..before
            }
        }
    }
}

/// The seed of a tick's wobble.
pub open spec fn wobble_seed(tick: u64) -> i64 {
    (tick as i64).wrapping_mul(312871)
}

/// The air row of a tick. It wobbles on every second tick while all bubbles are
/// empty.
pub open spec fn air_icons(b: AirBubbles, eyes_in_water: bool, tick: u64) -> Seq<HudElement> {
    let wobbling = b.empty == 10 && tick % 2 == 0;
    air_row(b, eyes_in_water, wobbling, scrambled(wobble_seed(tick)), 10).icons
}

fn push_air_row(elements: &mut Vec<HudElement>, b: &AirBubbles, eyes_in_water: bool, tick: u64)
    requires
        10 - b.empty <= i32::MAX,
    ensures
        final(elements)@ == old(elements)@ + air_icons(*b, eyes_in_water, tick),
{
    let ghost before = elements@;
    let mut rng = JavaRandom::new((tick as i64).wrapping_mul(312871));
    let ghost start = rng.state();
    let wobbling: bool = b.empty == 10 && tick % 2 == 0;
    assert(2i32 & 1i32 == 0) by (bit_vector);
    let mut n: i32 = 1;
    assert(elements@ =~= before + air_row(*b, eyes_in_water, wobbling, start, 0).icons);
    while n <= 10
        invariant
            1 <= n <= 11,
            10 - b.empty <= i32::MAX,
            rng.wf(),
            2i32 & 1i32 == 0,
            rng.state() == air_row(*b, eyes_in_water, wobbling, start, (n - 1) as nat).state,
            elements@ == before + air_row(
                *b,
                eyes_in_water,
                wobbling,
                start,
                (n - 1) as nat,
            ).icons,
        decreases 11 - n,
    {
        let index: i32 = n - 1;
        if n <= b.full {
            elements.push(HudElement::Air { index, sprite: SpriteId::AirFull, lowered: 0 });
        } else if b.is_popping && n == b.popping_pos && eyes_in_water {
            elements.push(HudElement::Air { index, sprite: SpriteId::AirBursting, lowered: 0 });
        } else if n > 10 - b.empty {
            let lowered: i32 = if wobbling { rng.next_int(2) } else { 0 };
            elements.push(HudElement::Air { index, sprite: SpriteId::AirEmpty, lowered });
        }
        assert(elements@ =~= before + air_row(
            *b,
            eyes_in_water,
            wobbling,
            start,
            n as nat,
        ).icons);
        n = n + 1;
    }
}

/// What the display depends on.
pub struct HudState {
    pub selected_slot: u8,
    /// The health, rounded up to whole half hearts.
    pub health: u32,
    pub food: u32,
    pub armor: u32,
    pub air_bubbles: Option<AirBubbles>,
    pub eyes_in_water: bool,
    pub tick: u64,
    pub experience_level: i32,
    /// The experience gained, rounded up to whole pixels of its bar.
    pub experience_pixels: i32,
    pub survival: bool,
    pub hotbar: Vec<Option<HudItem>>,
    pub first_person: bool,
    pub debug: bool,
}

/// An element that is shown if `shown`.
pub open spec fn shown_if(shown: bool, element: HudElement) -> Seq<HudElement> {
    if shown {
        seq![element]
    } else {
        Seq::empty()
    }
}

/// What a player in survival is shown besides the hotbar.
pub open spec fn survival_elements(h: HudState) -> Seq<HudElement> {
    bar_icons(Bar::Health, h.health, 10) + bar_icons(Bar::Food, h.food, 10) + (if h.armor > 0 {
        bar_icons(Bar::Armor, h.armor, 10)
    } else {
        Seq::empty()
    }) + seq![HudElement::ExperienceBackground] + shown_if(
        h.experience_pixels > 0,
        HudElement::ExperienceFill { pixels: h.experience_pixels },
    ) + shown_if(
        h.experience_level > 0,
        HudElement::ExperienceLevel { level: h.experience_level },
    )
}

/// The display, from the back.
pub open spec fn hud_elements(h: HudState) -> Seq<HudElement> {
    let places = if h.hotbar@.len() < 9 {
        h.hotbar@.len()
    } else {
        9
    };
    shown_if(h.first_person, HudElement::Crosshair) + shown_if(h.debug, HudElement::DebugText)
        + seq![HudElement::Hotbar, HudElement::Selection { slot: h.selected_slot }]
        + hotbar_items(h.hotbar@, places) + (if h.survival {
        survival_elements(h)
    } else {
        Seq::empty()
    }) + (match h.air_bubbles {
        Some(b) => air_icons(b, h.eyes_in_water, h.tick),
        None => Seq::empty(),
    })
}

fn push_survival(elements: &mut Vec<HudElement>, h: &HudState)
    ensures
        final(elements)@ == old(elements)@ + survival_elements(*h),
{
    let ghost before = elements@;
    build_status_bar(elements, Bar::Health, h.health);
    build_status_bar(elements, Bar::Food, h.food);
    if h.armor > 0 {
        build_status_bar(elements, Bar::Armor, h.armor);
    }
    elements.push(HudElement::ExperienceBackground);
    if h.experience_pixels > 0 {
        elements.push(HudElement::ExperienceFill { pixels: h.experience_pixels });
    }
    if h.experience_level > 0 {
        elements.push(HudElement::ExperienceLevel { level: h.experience_level });
    }
    assert(elements@ =~= before + survival_elements(*h));
}

/// The display, from the back.
pub fn build_hud(h: &HudState) -> (elements: Vec<HudElement>)
    requires
        h.air_bubbles matches Some(b) ==> 10 - b.empty <= i32::MAX,
    ensures
        elements@ == hud_elements(*h),
{
    let mut elements: Vec<HudElement> = Vec::new();
    if h.first_person {
        elements.push(HudElement::Crosshair);
    }
    if h.debug {
        elements.push(HudElement::DebugText);
    }
    elements.push(HudElement::Hotbar);
    elements.push(HudElement::Selection { slot: h.selected_slot });
    push_hotbar_items(&mut elements, &h.hotbar);
    if h.survival {
        push_survival(&mut elements, h);
    }
    if let Some(b) = &h.air_bubbles {
        push_air_row(&mut elements, b, h.eyes_in_water, h.tick);
    }
    assert(elements@ =~= hud_elements(*h));
    elements
}

/// The direction of a heading of 0 to 359 degrees.
pub open spec fn facing(degrees: u32) -> Seq<char> {
    if 45 <= degrees <= 134 {
        "West (-X)"@
    } else if 135 <= degrees <= 224 {
        "North (-Z)"@
    } else if 225 <= degrees <= 314 {
        "East (+X)"@
    } else {
        "South (+Z)"@
    }
}

/// The direction of a heading of 0 to 359 degrees.
pub fn facing_name(degrees: u32) -> (name: &'static str)
    ensures
        name@ == facing(degrees),
{
    if 45 <= degrees && degrees <= 134 {
        "West (-X)"
    } else if 135 <= degrees && degrees <= 224 {
        "North (-Z)"
    } else if 225 <= degrees && degrees <= 314 {
        "East (+X)"
    } else {
        "South (+Z)"
    }
}

/// The block that the player looks at.
pub struct TargetBlock {
    pub x: i32,
    pub y: i32,
    pub z: i32,
    pub name: String,
    /// The face that is looked at, by its name.
    pub face: String,
}

/// What the debug text depends on. Numbers with a fraction are given as text.
pub struct DebugInfo {
    pub fps: u32,
    /// The three coordinates, each with its fraction.
    pub position: String,
    pub block_x: i32,
    pub block_y: i32,
    pub block_z: i32,
    /// The heading in whole degrees, from 0 to 359.
    pub heading: u32,
    /// The heading and the pitch, each with its fraction.
    pub rotation: String,
    pub target_block: Option<TargetBlock>,
    pub chunk_count: u32,
    pub sections_drawn: u32,
    pub occlusion_on: bool,
    /// How many columns are visible, at the margin, and hidden.
    pub mesh_gate: Option<(u32, u32, u32)>,
    pub gpu_name: String,
    pub vulkan_version: String,
    pub screen_w: u32,
    pub screen_h: u32,
    /// The times of a frame and of its parts, each with its fraction.
    pub timings: Option<FrameTimings>,
}

/// The times of a frame and of its parts, in milliseconds, as text.
pub struct FrameTimings {
    pub frame: String,
    pub fence: String,
    pub acquire: String,
    pub cull: String,
    pub draw: String,
    pub present: String,
}

/// The text views of some lines.
pub open spec fn line_views(lines: Seq<String>) -> Seq<Seq<char>> {
    Seq::new(lines.len(), |i: int| lines[i]@)
}

/// A number in decimal digits.
pub open spec fn num(n: u32) -> Seq<char> {
    decimal(n as nat)
}

/// A signed number in decimal digits.
pub open spec fn snum(n: int) -> Seq<char> {
    signed_decimal(n)
}

/// The line that tells the mesh gate's state.
pub open spec fn gate_line(gate: Option<(u32, u32, u32)>) -> Seq<char> {
    match gate {
        Some((visible, margin, hidden)) => "Mesh gate: vis "@ + num(visible) + " / margin "@ + num(
            margin,
        ) + " / hidden "@ + num(hidden),
        None => "Mesh gate: off (meshing all)"@,
    }
}

/// The line that tells the place within a chunk, and the chunk.
pub open spec fn chunk_line(x: int, z: int) -> Seq<char> {
    "Chunk: "@ + snum(x % 16) + " "@ + snum(z % 16) + " in ["@ + snum(x / 16) + ", "@ + snum(z / 16)
        + "]"@
}

/// The lines about the block that is looked at.
pub open spec fn target_lines(target: Option<TargetBlock>) -> Seq<Seq<char>> {
    match target {
        Some(t) => seq![
            Seq::empty(),
            "Targeted Block: "@ + snum(t.x as int) + ", "@ + snum(t.y as int) + ", "@ + snum(
                t.z as int,
            ),
            "minecraft:"@ + t.name@,
            "Face: "@ + t.face@,
        ],
        None => Seq::empty(),
    }
}

/// The lines on the left; an empty one is a gap.
pub open spec fn left_lines(info: DebugInfo) -> Seq<Seq<char>> {
    seq![
        "Pomme ("@ + num(info.fps) + "fps)"@,
        Seq::empty(),
        "XYZ: "@ + info.position@,
        "Block: "@ + snum(info.block_x as int) + " "@ + snum(info.block_y as int) + " "@ + snum(
            info.block_z as int,
        ),
        chunk_line(info.block_x as int, info.block_z as int),
        "Facing: "@ + facing(info.heading) + " ("@ + info.rotation@ + ")"@,
        Seq::empty(),
        "Chunks: "@ + num(info.chunk_count) + " loaded"@,
        "Sections drawn: "@ + num(info.sections_drawn) + " (occlusion "@ + (if info.occlusion_on {
            "on"@
        } else {
            "off"@
        }) + ")"@,
        gate_line(info.mesh_gate),
    ] + target_lines(info.target_block)
}

/// The lines on the right; an empty one is a gap.
pub open spec fn right_lines(info: DebugInfo) -> Seq<Seq<char>> {
    seq![
        info.vulkan_version@,
        "GPU: "@ + info.gpu_name@,
        "Display: "@ + num(info.screen_w) + "x"@ + num(info.screen_h),
    ] + (match info.timings {
        Some(t) => seq![
            Seq::empty(),
            "Frame: "@ + t.frame@ + "ms"@,
            "  Fence: "@ + t.fence@ + "ms"@,
            "  Acquire: "@ + t.acquire@ + "ms"@,
            "  Cull: "@ + t.cull@ + "ms"@,
            "  Draw: "@ + t.draw@ + "ms"@,
            "  Present: "@ + t.present@ + "ms"@,
        ],
        None => Seq::empty(),
    })
}

fn text_line(start: &str, middle: &str, end: &str) -> (line: String)
    ensures
        line@ == start@ + middle@ + end@,
{
    start.to_owned().concat(middle).concat(end)
}

fn pair_line(start: &str, text: &str) -> (line: String)
    ensures
        line@ == start@ + text@,
{
    start.to_owned().concat(text)
}

fn triple_line(start: &str, x: i32, between: &str, y: i32, z: i32) -> (line: String)
    ensures
        line@ == start@ + snum(x as int) + between@ + snum(y as int) + between@ + snum(z as int),
{
    start.to_owned().concat(signed_text(x).as_str()).concat(between).concat(
        signed_text(y).as_str(),
    ).concat(between).concat(signed_text(z).as_str())
}

fn chunk_text(x: i32, z: i32) -> (line: String)
    ensures
        line@ == chunk_line(x as int, z as int),
{
    let in_x: i32 = x.checked_rem_euclid(16).unwrap();
    let in_z: i32 = z.checked_rem_euclid(16).unwrap();
    let chunk_x: i32 = x.checked_div_euclid(16).unwrap();
    let chunk_z: i32 = z.checked_div_euclid(16).unwrap();
    "Chunk: ".to_owned().concat(signed_text(in_x).as_str()).concat(" ").concat(
        signed_text(in_z).as_str(),
    ).concat(" in [").concat(signed_text(chunk_x).as_str()).concat(", ").concat(
        signed_text(chunk_z).as_str(),
    ).concat("]")
}

fn gate_text(gate: Option<(u32, u32, u32)>) -> (line: String)
    ensures
        line@ == gate_line(gate),
{
    match gate {
        Some((visible, margin, hidden)) => "Mesh gate: vis ".to_owned().concat(
            decimal_text(visible as u64).as_str(),
        ).concat(" / margin ").concat(decimal_text(margin as u64).as_str()).concat(
            " / hidden ",
        ).concat(decimal_text(hidden as u64).as_str()),
        None => "Mesh gate: off (meshing all)".to_owned(),
    }
}

/// The lines of the debug text on the left.
pub fn debug_left(info: &DebugInfo) -> (lines: Vec<String>)
    ensures
        line_views(lines@) == left_lines(*info),
{
    let mut lines: Vec<String> = Vec::new();
    lines.push(text_line("Pomme (", decimal_text(info.fps as u64).as_str(), "fps)"));
    lines.push(String::new());
    lines.push(pair_line("XYZ: ", info.position.as_str()));
    lines.push(triple_line("Block: ", info.block_x, " ", info.block_y, info.block_z));
    lines.push(chunk_text(info.block_x, info.block_z));
    let facing_text = text_line("Facing: ", facing_name(info.heading), " (");
    lines.push(facing_text.concat(info.rotation.as_str()).concat(")"));
    lines.push(String::new());
    lines.push(text_line("Chunks: ", decimal_text(info.chunk_count as u64).as_str(), " loaded"));
    let drawn = text_line(
        "Sections drawn: ",
        decimal_text(info.sections_drawn as u64).as_str(),
        " (occlusion ",
    );
    lines.push(drawn.concat(if info.occlusion_on { "on" } else { "off" }).concat(")"));
    lines.push(gate_text(info.mesh_gate));
    if let Some(target) = &info.target_block {
        lines.push(String::new());
        lines.push(triple_line("Targeted Block: ", target.x, ", ", target.y, target.z));
        lines.push(pair_line("minecraft:", target.name.as_str()));
        lines.push(pair_line("Face: ", target.face.as_str()));
    }
    assert(line_views(lines@) =~= left_lines(*info));
    lines
}

/// The lines of the debug text on the right.
pub fn debug_right(info: &DebugInfo) -> (lines: Vec<String>)
    ensures
        line_views(lines@) == right_lines(*info),
{
    let mut lines: Vec<String> = Vec::new();
    lines.push(info.vulkan_version.clone());
    lines.push(pair_line("GPU: ", info.gpu_name.as_str()));
    let size = text_line("Display: ", decimal_text(info.screen_w as u64).as_str(), "x");
    lines.push(size.concat(decimal_text(info.screen_h as u64).as_str()));
    if let Some(t) = &info.timings {
        lines.push(String::new());
        lines.push(text_line("Frame: ", t.frame.as_str(), "ms"));
        lines.push(text_line("  Fence: ", t.fence.as_str(), "ms"));
        lines.push(text_line("  Acquire: ", t.acquire.as_str(), "ms"));
        lines.push(text_line("  Cull: ", t.cull.as_str(), "ms"));
        lines.push(text_line("  Draw: ", t.draw.as_str(), "ms"));
        lines.push(text_line("  Present: ", t.present.as_str(), "ms"));
    }
    assert(line_views(lines@) =~= right_lines(*info));
    lines
}

/// The places of those of the first `n` lines that are not empty.
pub open spec fn filled_lines(lines: Seq<String>, n: nat) -> Seq<usize>
    decreases n,
{
    if n == 0 {
        Seq::empty()
    } else if lines[n - 1]@.len() > 0 {
        filled_lines(lines, (n - 1) as nat).push((n - 1) as usize)
    } else {
        filled_lines(lines, (n - 1) as nat)
    }
}

/// The places of the lines that are drawn: an empty line only takes its place.
pub fn push_debug_lines(lines: &Vec<String>) -> (places: Vec<usize>)
    ensures
        places@ == filled_lines(lines@, lines@.len()),
{
    let mut places: Vec<usize> = Vec::new();
    let mut i: usize = 0;
    while i < lines.len()
        invariant
            i <= lines@.len(),
            places@ == filled_lines(lines@, i as nat),
        decreases lines@.len() - i,
    {
        if !lines[i].as_str().is_empty() {
            places.push(i);
        }
        i = i + 1;
    }
    places
}

} // verus!
