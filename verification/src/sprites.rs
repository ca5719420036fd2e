//! The sprites of the interface and the atlas that holds them.

use crate::decode::{decode_image, decoded_image};
use crate::pixels::{
    blit_image, byte_at, copy_bytes, crop, extract_face_8x8, is_face, smaller, Blit, Image,
};
use crate::shelf::{
    covered, cursor_after, disjoint, placement, placed_rectangles_are_disjoint, Cursor, Shelf,
};
use vstd::prelude::*;

verus! {

/// A sprite of the interface.
#[derive(Clone, Copy, Debug, PartialEq, Eq, Hash, Structural)]
pub enum SpriteId {
    Hotbar,
    HotbarSelection,
    HeartContainer,
    HeartFull,
    HeartHalf,
    FoodEmpty,
    FoodFull,
    FoodHalf,
    AirFull,
    AirBursting,
    AirEmpty,
    ArmorEmpty,
    ArmorHalf,
    ArmorFull,
    ExperienceBarBackground,
    ExperienceBarProgress,
    InventoryBackground,
    CraftingTableBackground,
    CreativeItemsBackground,
    CreativeSearchBackground,
    CreativeInventoryBackground,
    CreativeTabTopUnselected1,
    CreativeTabTopUnselected2,
    CreativeTabTopUnselected3,
    CreativeTabTopUnselected4,
    CreativeTabTopUnselected5,
    CreativeTabTopUnselected6,
    CreativeTabTopUnselected7,
    CreativeTabTopSelected1,
    CreativeTabTopSelected2,
    CreativeTabTopSelected3,
    CreativeTabTopSelected4,
    CreativeTabTopSelected5,
    CreativeTabTopSelected6,
    CreativeTabTopSelected7,
    CreativeTabBottomUnselected1,
    CreativeTabBottomUnselected2,
    CreativeTabBottomUnselected3,
    CreativeTabBottomUnselected4,
    CreativeTabBottomUnselected5,
    CreativeTabBottomUnselected6,
    CreativeTabBottomUnselected7,
    CreativeTabBottomSelected1,
    CreativeTabBottomSelected2,
    CreativeTabBottomSelected3,
    CreativeTabBottomSelected4,
    CreativeTabBottomSelected5,
    CreativeTabBottomSelected6,
    CreativeTabBottomSelected7,
    CreativeScroller,
    CreativeScrollerDisabled,
    EmptyHelmet,
    EmptyChestplate,
    EmptyLeggings,
    EmptyBoots,
    EmptyShield,
    SlotHighlightBack,
    SlotHighlightFront,
    RecipeBookButton,
    RecipeBookButtonHighlighted,
    ButtonNormal,
    ButtonHover,
    ButtonDisabled,
    SliderTrack,
    SliderTrackHover,
    SliderHandle,
    SliderHandleHover,
    HeaderSeparator,
    FooterSeparator,
    MenuBackground,
    TooltipBackground,
    TooltipFrame,
    Scroller,
    ScrollerBackground,
    Ping1,
    Ping2,
    Ping3,
    Ping4,
    Ping5,
    PingUnknown,
    ServerJoin,
    ServerJoinHighlighted,
    ServerMoveUp,
    ServerMoveUpHighlighted,
    ServerMoveDown,
    ServerMoveDownHighlighted,
    UnknownServer,
    Pinging1,
    Pinging2,
    Pinging3,
    Pinging4,
    Pinging5,
    Incompatible,
    Unreachable,
    SteveHead,
    FriendsBackground,
    FriendsTab,
    FriendsTabDisabled,
    FriendsTabHighlighted,
    FriendsIllustration,
    FriendsSend,
    FriendsRemove,
    FriendsAccept,
    FriendsReject,
    FriendsCancel,
}

/// The sprites of the creative inventory's tabs: the row (top, bottom), then
/// the state (unselected, selected), then the column.
pub const CREATIVE_TAB_SPRITES: [[[SpriteId; 7]; 2]; 2] = [
    [
        [
            SpriteId::CreativeTabTopUnselected1,
            SpriteId::CreativeTabTopUnselected2,
            SpriteId::CreativeTabTopUnselected3,
            SpriteId::CreativeTabTopUnselected4,
            SpriteId::CreativeTabTopUnselected5,
            SpriteId::CreativeTabTopUnselected6,
            SpriteId::CreativeTabTopUnselected7,
        ],
        [
            SpriteId::CreativeTabTopSelected1,
            SpriteId::CreativeTabTopSelected2,
            SpriteId::CreativeTabTopSelected3,
            SpriteId::CreativeTabTopSelected4,
            SpriteId::CreativeTabTopSelected5,
            SpriteId::CreativeTabTopSelected6,
            SpriteId::CreativeTabTopSelected7,
        ],
    ],
    [
        [
            SpriteId::CreativeTabBottomUnselected1,
            SpriteId::CreativeTabBottomUnselected2,
            SpriteId::CreativeTabBottomUnselected3,
            SpriteId::CreativeTabBottomUnselected4,
            SpriteId::CreativeTabBottomUnselected5,
            SpriteId::CreativeTabBottomUnselected6,
            SpriteId::CreativeTabBottomUnselected7,
        ],
        [
            SpriteId::CreativeTabBottomSelected1,
            SpriteId::CreativeTabBottomSelected2,
            SpriteId::CreativeTabBottomSelected3,
            SpriteId::CreativeTabBottomSelected4,
            SpriteId::CreativeTabBottomSelected5,
            SpriteId::CreativeTabBottomSelected6,
            SpriteId::CreativeTabBottomSelected7,
        ],
    ],
];

/// The sprites that are used as they are on disk: the asset that holds each,
/// and the width of the border that stays unscaled when it is stretched.
pub const SPRITES: [(SpriteId, &'static str, u32); 71] = [
    (SpriteId::Hotbar, "minecraft/textures/gui/sprites/hud/hotbar.png", 0),
    (SpriteId::HotbarSelection, "minecraft/textures/gui/sprites/hud/hotbar_selection.png", 0),
    (SpriteId::HeartContainer, "minecraft/textures/gui/sprites/hud/heart/container.png", 0),
    (SpriteId::HeartFull, "minecraft/textures/gui/sprites/hud/heart/full.png", 0),
    (SpriteId::HeartHalf, "minecraft/textures/gui/sprites/hud/heart/half.png", 0),
    (SpriteId::FoodEmpty, "minecraft/textures/gui/sprites/hud/food_empty.png", 0),
    (SpriteId::FoodFull, "minecraft/textures/gui/sprites/hud/food_full.png", 0),
    (SpriteId::FoodHalf, "minecraft/textures/gui/sprites/hud/food_half.png", 0),
    (SpriteId::AirFull, "minecraft/textures/gui/sprites/hud/air.png", 0),
    (SpriteId::AirBursting, "minecraft/textures/gui/sprites/hud/air_bursting.png", 0),
    (SpriteId::AirEmpty, "minecraft/textures/gui/sprites/hud/air_empty.png", 0),
    (SpriteId::ArmorEmpty, "minecraft/textures/gui/sprites/hud/armor_empty.png", 0),
    (SpriteId::ArmorHalf, "minecraft/textures/gui/sprites/hud/armor_half.png", 0),
    (SpriteId::ArmorFull, "minecraft/textures/gui/sprites/hud/armor_full.png", 0),
    (SpriteId::ExperienceBarBackground, "minecraft/textures/gui/sprites/hud/experience_bar_background.png", 0),
    (SpriteId::ExperienceBarProgress, "minecraft/textures/gui/sprites/hud/experience_bar_progress.png", 0),
    (SpriteId::EmptyHelmet, "minecraft/textures/gui/sprites/container/slot/helmet.png", 0),
    (SpriteId::EmptyChestplate, "minecraft/textures/gui/sprites/container/slot/chestplate.png", 0),
    (SpriteId::EmptyLeggings, "minecraft/textures/gui/sprites/container/slot/leggings.png", 0),
    (SpriteId::EmptyBoots, "minecraft/textures/gui/sprites/container/slot/boots.png", 0),
    (SpriteId::EmptyShield, "minecraft/textures/gui/sprites/container/slot/shield.png", 0),
    (SpriteId::SlotHighlightBack, "minecraft/textures/gui/sprites/container/slot_highlight_back.png", 0),
    (SpriteId::SlotHighlightFront, "minecraft/textures/gui/sprites/container/slot_highlight_front.png", 0),
    (SpriteId::RecipeBookButton, "minecraft/textures/gui/sprites/recipe_book/button.png", 0),
    (SpriteId::RecipeBookButtonHighlighted, "minecraft/textures/gui/sprites/recipe_book/button_highlighted.png", 0),
    (SpriteId::ButtonNormal, "minecraft/textures/gui/sprites/widget/button.png", 3),
    (SpriteId::ButtonHover, "minecraft/textures/gui/sprites/widget/button_highlighted.png", 3),
    (SpriteId::ButtonDisabled, "minecraft/textures/gui/sprites/widget/button_disabled.png", 1),
    (SpriteId::SliderTrack, "minecraft/textures/gui/sprites/widget/slider.png", 3),
    (SpriteId::SliderTrackHover, "minecraft/textures/gui/sprites/widget/slider_highlighted.png", 3),
    (SpriteId::SliderHandle, "minecraft/textures/gui/sprites/widget/slider_handle.png", 0),
    (SpriteId::SliderHandleHover, "minecraft/textures/gui/sprites/widget/slider_handle_highlighted.png", 0),
    (SpriteId::HeaderSeparator, "minecraft/textures/gui/inworld_header_separator.png", 0),
    (SpriteId::FooterSeparator, "minecraft/textures/gui/inworld_footer_separator.png", 0),
    (SpriteId::MenuBackground, "minecraft/textures/gui/inworld_menu_background.png", 0),
    (SpriteId::TooltipBackground, "minecraft/textures/gui/sprites/tooltip/background.png", 9),
    (SpriteId::TooltipFrame, "minecraft/textures/gui/sprites/tooltip/frame.png", 10),
    (SpriteId::Scroller, "minecraft/textures/gui/sprites/widget/scroller.png", 1),
    (SpriteId::ScrollerBackground, "minecraft/textures/gui/sprites/widget/scroller_background.png", 1),
    (SpriteId::FriendsBackground, "minecraft/textures/gui/sprites/friends/background.png", 8),
    (SpriteId::FriendsTab, "minecraft/textures/gui/sprites/friends/button.png", 3),
    (SpriteId::FriendsTabDisabled, "minecraft/textures/gui/sprites/friends/button_disabled.png", 1),
    (SpriteId::FriendsTabHighlighted, "minecraft/textures/gui/sprites/friends/button_highlighted.png", 3),
    (SpriteId::FriendsIllustration, "minecraft/textures/gui/sprites/friends/illustrations_00.png", 0),
    (SpriteId::FriendsSend, "minecraft/textures/gui/sprites/friends/send_request.png", 0),
    (SpriteId::FriendsRemove, "minecraft/textures/gui/sprites/friends/remove.png", 0),
    (SpriteId::FriendsAccept, "minecraft/textures/gui/sprites/friends/accept.png", 0),
    (SpriteId::FriendsReject, "minecraft/textures/gui/sprites/friends/reject.png", 0),
    (SpriteId::FriendsCancel, "minecraft/textures/gui/sprites/friends/cancel.png", 0),
    (SpriteId::Ping1, "minecraft/textures/gui/sprites/icon/ping_1.png", 0),
    (SpriteId::Ping2, "minecraft/textures/gui/sprites/icon/ping_2.png", 0),
    (SpriteId::Ping3, "minecraft/textures/gui/sprites/icon/ping_3.png", 0),
    (SpriteId::Ping4, "minecraft/textures/gui/sprites/icon/ping_4.png", 0),
    (SpriteId::Ping5, "minecraft/textures/gui/sprites/icon/ping_5.png", 0),
    (SpriteId::PingUnknown, "minecraft/textures/gui/sprites/icon/ping_unknown.png", 0),
    (SpriteId::ServerJoin, "minecraft/textures/gui/sprites/server_list/join.png", 0),
    (SpriteId::ServerJoinHighlighted, "minecraft/textures/gui/sprites/server_list/join_highlighted.png", 0),
    (SpriteId::ServerMoveUp, "minecraft/textures/gui/sprites/server_list/move_up.png", 0),
    (SpriteId::ServerMoveUpHighlighted, "minecraft/textures/gui/sprites/server_list/move_up_highlighted.png", 0),
    (SpriteId::ServerMoveDown, "minecraft/textures/gui/sprites/server_list/move_down.png", 0),
    (SpriteId::ServerMoveDownHighlighted, "minecraft/textures/gui/sprites/server_list/move_down_highlighted.png", 0),
    (SpriteId::UnknownServer, "minecraft/textures/misc/unknown_server.png", 0),
    (SpriteId::Pinging1, "minecraft/textures/gui/sprites/server_list/pinging_1.png", 0),
    (SpriteId::Pinging2, "minecraft/textures/gui/sprites/server_list/pinging_2.png", 0),
    (SpriteId::Pinging3, "minecraft/textures/gui/sprites/server_list/pinging_3.png", 0),
    (SpriteId::Pinging4, "minecraft/textures/gui/sprites/server_list/pinging_4.png", 0),
    (SpriteId::Pinging5, "minecraft/textures/gui/sprites/server_list/pinging_5.png", 0),
    (SpriteId::Incompatible, "minecraft/textures/gui/sprites/server_list/incompatible.png", 0),
    (SpriteId::Unreachable, "minecraft/textures/gui/sprites/server_list/unreachable.png", 0),
    (SpriteId::CreativeScroller, "minecraft/textures/gui/sprites/container/creative_inventory/scroller.png", 0),
    (SpriteId::CreativeScrollerDisabled, "minecraft/textures/gui/sprites/container/creative_inventory/scroller_disabled.png", 0),
];

/// The default player skin, whose face is the sprite of a player without one.
pub const STEVE_SKIN: &'static str = "minecraft/textures/entity/player/wide/steve.png";

/// The container backgrounds: the asset that holds each, and the width and the
/// height of the part of it that is used.
pub const CONTAINERS: [(SpriteId, &'static str, u32, u32); 5] = [
    (SpriteId::InventoryBackground, "minecraft/textures/gui/container/inventory.png", 176, 166),
    (SpriteId::CraftingTableBackground, "minecraft/textures/gui/container/crafting_table.png", 176, 166),
    (SpriteId::CreativeItemsBackground, "minecraft/textures/gui/container/creative_inventory/tab_items.png", 195, 136),
    (SpriteId::CreativeSearchBackground, "minecraft/textures/gui/container/creative_inventory/tab_item_search.png", 195, 136),
    (SpriteId::CreativeInventoryBackground, "minecraft/textures/gui/container/creative_inventory/tab_inventory.png", 195, 136),
];

/// The edge of the atlas, in pixels.
pub const SPRITE_ATLAS_SIZE: u32 = 1024;

/// A sprite's image, as values.
pub struct SpriteView {
    pub id: SpriteId,
    pub width: int,
    pub height: int,
    pub rgba: Seq<u8>,
    pub border: int,
}

/// A sprite with its image.
pub struct SpriteImage {
    pub id: SpriteId,
    pub image: Image,
    pub border: u32,
}

impl View for SpriteImage {
    type V = SpriteView;

    open spec fn view(&self) -> SpriteView {
        SpriteView {
            id: self.id,
            width: self.image.width as int,
            height: self.image.height as int,
            rgba: self.image.rgba@,
            border: self.border as int,
        }
    }
}

/// Whether the bytes of an image of a size can be counted in 32 bits, in rows of
/// its own and in those of the atlas.
pub open spec fn fits_count(width: int, height: int) -> bool {
    width * height <= 0x4000_0000 && width <= 0x3FF0_0000
}

/// Whether an image's bytes can be counted in 32 bits, in rows of its own and in
/// those of the atlas.
pub open spec fn countable(image: Image) -> bool {
    &&& image.wf()
    &&& fits_count(image.width as int, image.height as int)
}

/// The bright square that stands for an image that could not be loaded.
pub open spec fn missing(id: SpriteId) -> SpriteView {
    SpriteView { id, width: 1, height: 1, rgba: seq![255u8, 0, 255, 255], border: 0 }
}

/// The sprite of a loaded image, or the bright square without one.
pub open spec fn whole(id: SpriteId, border: int, loaded: Option<Image>) -> SpriteView {
    match loaded {
        Some(image) => SpriteView {
            id,
            width: image.width as int,
            height: image.height as int,
            rgba: image.rgba@,
            border,
        },
        None => missing(id),
    }
}

/// Whether `out` is the top left of a loaded image, at most `max_w` by
/// `max_h`, or the bright square without one.
pub open spec fn is_cropped(
    id: SpriteId,
    max_w: int,
    max_h: int,
    loaded: Option<Image>,
    out: SpriteView,
) -> bool {
    match loaded {
        Some(image) => {
            &&& out.id == id
            &&& out.border == 0
            &&& out.width == smaller(max_w, image.width as int)
            &&& out.height == smaller(max_h, image.height as int)
            &&& out.rgba.len() == out.width * out.height * 4
            &&& forall|x: int, y: int, c: int|
                #![trigger out.rgba[byte_at(out.width, x, y, c)]]
                0 <= x < out.width && 0 <= y < out.height && 0 <= c < 4 ==> out.rgba[byte_at(
                    out.width,
                    x,
                    y,
                    c,
                )] == image.rgba@[byte_at(image.width as int, x, y, c)]
        },
        None => out == missing(id),
    }
}

/// Whether `out` is the face of a loaded skin, or the bright square where the
/// skin is missing or too small.
pub open spec fn is_head<F: Fn(u8, u8, u8) -> u8>(
    blend: F,
    loaded: Option<Image>,
    out: SpriteView,
) -> bool {
    match loaded {
        Some(skin) => if skin.width >= 48 && skin.height >= 16 {
            &&& out.id == SpriteId::SteveHead
            &&& out.width == 8 && out.height == 8 && out.border == 0
            &&& is_face(blend, skin.rgba@, skin.width as int, out.rgba)
        } else {
            out == missing(SpriteId::SteveHead)
        },
        None => out == missing(SpriteId::SteveHead),
    }
}

/// The images that were loaded for the sprites, in the order of their tables.
pub struct SpriteAssets {
    /// One for each of `SPRITES`.
    pub sprites: Vec<Option<Image>>,
    /// The one for `STEVE_SKIN`.
    pub steve: Option<Image>,
    /// One for each of `CONTAINERS`.
    pub containers: Vec<Option<Image>>,
    /// One for each of `CREATIVE_TAB_SPRITES`, row by row, state by state.
    pub tabs: Vec<Option<Image>>,
}

/// Whether an image that was loaded can be counted.
pub open spec fn loadable(loaded: Option<Image>) -> bool {
    loaded matches Some(image) ==> countable(image)
}

impl SpriteAssets {
    pub open spec fn wf(&self) -> bool {
        &&& self.sprites@.len() == 71
        &&& self.containers@.len() == 5
        &&& self.tabs@.len() == 28
        &&& forall|i: int| 0 <= i < 71 ==> loadable(#[trigger] self.sprites@[i])
        &&& forall|i: int| 0 <= i < 5 ==> loadable(#[trigger] self.containers@[i])
        &&& forall|i: int| 0 <= i < 28 ==> loadable(#[trigger] self.tabs@[i])
        &&& loadable(self.steve)
    }
}

/// The sprite of tab `i`, counted row by row and state by state.
pub open spec fn tab_sprite(i: int) -> SpriteId {
    CREATIVE_TAB_SPRITES@[i / 14]@[i / 7 % 2]@[i % 7]
}

/// The names of the two tab rows.
pub const TAB_ROWS: [&'static str; 2] = ["top", "bottom"];

/// The names of a tab's two states.
pub const TAB_STATES: [&'static str; 2] = ["unselected", "selected"];

/// The names of the tab columns.
pub const TAB_COLUMNS: [&'static str; 7] = ["1", "2", "3", "4", "5", "6", "7"];

/// The directory of the tabs' assets and the start of their names.
pub const TAB_PREFIX: &'static str =
    "minecraft/textures/gui/sprites/container/creative_inventory/tab_";

/// The asset of a creative tab.
pub fn creative_tab_key(row: usize, state: usize, column: usize) -> (key: String)
    requires
        row < 2,
        state < 2,
        column < 7,
    ensures
        key@ == TAB_PREFIX@ + TAB_ROWS@[row as int]@ + "_"@ + TAB_STATES@[state as int]@ + "_"@
            + TAB_COLUMNS@[column as int]@ + ".png"@,
{
    let mut key = TAB_PREFIX.to_owned();
    key.append(TAB_ROWS[row]);
    key.append("_");
    key.append(TAB_STATES[state]);
    key.append("_");
    key.append(TAB_COLUMNS[column]);
    key.append(".png");
    key
}

fn missing_sprite(id: SpriteId) -> (sprite: SpriteImage)
    ensures
        sprite@ == missing(id),
        countable(sprite.image),
{
    let rgba: Vec<u8> = vec![255u8, 0, 255, 255];
    assert(rgba@ =~= seq![255u8, 0, 255, 255]);
    SpriteImage { id, image: Image { width: 1, height: 1, rgba }, border: 0 }
}

fn whole_sprite(id: SpriteId, border: u32, loaded: &Option<Image>) -> (sprite: SpriteImage)
    requires
        loadable(*loaded),
    ensures
        sprite@ == whole(id, border as int, *loaded),
        countable(sprite.image),
{
    match loaded {
        Some(image) => {
            let rgba = copy_bytes(&image.rgba);
            SpriteImage {
                id,
                image: Image { width: image.width, height: image.height, rgba },
                border,
            }
        },
        None => missing_sprite(id),
    }
}

fn cropped_sprite(
    id: SpriteId,
    max_w: u32,
    max_h: u32,
    loaded: &Option<Image>,
) -> (sprite: SpriteImage)
    requires
        loadable(*loaded),
    ensures
        is_cropped(id, max_w as int, max_h as int, *loaded, sprite@),
        countable(sprite.image),
{
    match loaded {
        Some(image) => {
            let cropped = crop(image, max_w, max_h);
            assert(cropped.width * cropped.height <= image.width * image.height)
                by (nonlinear_arith)
                requires
                    0 <= cropped.height <= image.height,
                    0 <= cropped.width <= image.width,
            ;
            SpriteImage { id, image: cropped, border: 0 }
        },
        None => missing_sprite(id),
    }
}

fn head_sprite<F: Fn(u8, u8, u8) -> u8>(loaded: &Option<Image>, blend: F) -> (sprite: SpriteImage)
    requires
        loadable(*loaded),
        forall|hat: u8, under: u8, alpha: u8| blend.requires((hat, under, alpha)),
    ensures
        is_head(blend, *loaded, sprite@),
        countable(sprite.image),
{
    if let Some(skin) = loaded {
        assert(16 <= skin.height ==> 64 * skin.width <= skin.width * skin.height * 4)
            by (nonlinear_arith)
            requires
                0 <= skin.width,
        ;
        if let Some(rgba) = extract_face_8x8(&skin.rgba, skin.width, skin.height, blend) {
            return SpriteImage {
                id: SpriteId::SteveHead,
                image: Image { width: 8, height: 8, rgba },
                border: 0,
            };
        }
    }
    missing_sprite(SpriteId::SteveHead)
}

/// Whether `images` are the sprites of `assets`: the plain ones, the head, the
/// container backgrounds, the tabs.
pub open spec fn are_sprites<F: Fn(u8, u8, u8) -> u8>(
    assets: SpriteAssets,
    blend: F,
    images: Seq<SpriteImage>,
) -> bool {
    &&& images.len() == 105
    &&& forall|i: int|
        0 <= i < 71 ==> (#[trigger] images[i])@ == whole(
            SPRITES@[i].0,
            SPRITES@[i].2 as int,
            assets.sprites@[i],
        )
    &&& is_head(blend, assets.steve, images[71]@)
    &&& forall|i: int|
        72 <= i < 77 ==> is_cropped(
            CONTAINERS@[i - 72].0,
            CONTAINERS@[i - 72].2 as int,
            CONTAINERS@[i - 72].3 as int,
            assets.containers@[i - 72],
            (#[trigger] images[i])@,
        )
    &&& forall|i: int|
        77 <= i < 105 ==> (#[trigger] images[i])@ == whole(
            tab_sprite(i - 77),
            0,
            assets.tabs@[i - 77],
        )
    &&& forall|i: int| 0 <= i < 105 ==> countable((#[trigger] images[i]).image)
}

/// The sprites in the order in which they are packed.
pub fn sprite_images<F: Fn(u8, u8, u8) -> u8>(assets: &SpriteAssets, blend: F) -> (images: Vec<
    SpriteImage,
>)
    requires
        assets.wf(),
        forall|hat: u8, under: u8, alpha: u8| blend.requires((hat, under, alpha)),
    ensures
        are_sprites(*assets, blend, images@),
{
    let mut images: Vec<SpriteImage> = Vec::new();
    let mut i: usize = 0;
    while i < 71
        invariant
            i <= 71,
            assets.wf(),
            images@.len() == i,
            forall|k: int|
                0 <= k < i ==> (#[trigger] images@[k])@ == whole(
                    SPRITES@[k].0,
                    SPRITES@[k].2 as int,
                    assets.sprites@[k],
                ) && countable(images@[k].image),
        decreases 71 - i,
    {
        assert(loadable(assets.sprites@[i as int]));
        let source = SPRITES[i];
        let sprite = whole_sprite(source.0, source.2, &assets.sprites[i]);
        images.push(sprite);
        i = i + 1;
    }
    images.push(head_sprite(&assets.steve, blend));
    let ghost plain = images@;
    let mut i: usize = 0;
    while i < 5
        invariant
            i <= 5,
            assets.wf(),
            images@.len() == 72 + i,
            forall|k: int| 0 <= k < 72 ==> #[trigger] images@[k] == plain[k],
            forall|k: int|
                72 <= k < 72 + i ==> is_cropped(
                    CONTAINERS@[k - 72].0,
                    CONTAINERS@[k - 72].2 as int,
                    CONTAINERS@[k - 72].3 as int,
                    assets.containers@[k - 72],
                    (#[trigger] images@[k])@,
                ) && countable(images@[k].image),
        decreases 5 - i,
    {
        assert(loadable(assets.containers@[i as int]));
        let source = CONTAINERS[i];
        let sprite = cropped_sprite(source.0, source.2, source.3, &assets.containers[i]);
        images.push(sprite);
        i = i + 1;
    }
    let ghost cropped = images@;
    let mut i: usize = 0;
    while i < 28
        invariant
            i <= 28,
            assets.wf(),
            images@.len() == 77 + i,
            forall|k: int| 0 <= k < 77 ==> #[trigger] images@[k] == cropped[k],
            forall|k: int|
                77 <= k < 77 + i ==> (#[trigger] images@[k])@ == whole(
                    tab_sprite(k - 77),
                    0,
                    assets.tabs@[k - 77],
                ) && countable(images@[k].image),
        decreases 28 - i,
    {
        assert(loadable(assets.tabs@[i as int]));
        let row = CREATIVE_TAB_SPRITES[i / 14];
        let state = row[i / 7 % 2];
        let id = state[i % 7];
        let sprite = whole_sprite(id, 0, &assets.tabs[i]);
        images.push(sprite);
        i = i + 1;
    }
    images
}

/// A sprite's place in the atlas.
#[derive(Clone, Copy, Debug, PartialEq, Eq, Structural)]
pub struct PlacedSprite {
    pub id: SpriteId,
    pub x: u32,
    pub y: u32,
    pub w: u32,
    pub h: u32,
    pub border: u32,
}

/// The widths and heights of some sprites.
pub open spec fn sizes(images: Seq<SpriteImage>) -> Seq<(int, int)> {
    Seq::new(images.len(), |i: int| (images[i]@.width, images[i]@.height))
}

/// The atlas before the first sprite.
pub open spec fn atlas_start() -> Cursor {
    Cursor::start(1024, 0)
}

/// Where the `i`th of some sprites goes.
pub open spec fn sprite_corner(images: Seq<SpriteImage>, i: nat) -> Option<(int, int)> {
    placement(atlas_start(), sizes(images), i)
}

/// The places of those of the first `n` sprites that fit, in their order.
pub open spec fn placed_sprites(images: Seq<SpriteImage>, n: nat) -> Seq<PlacedSprite>
    decreases n,
{
    if n == 0 {
        Seq::empty()
    } else {
        let i = (n - 1) as nat;
        let sprite = images[i as int];
        match sprite_corner(images, i) {
            Some((x, y)) => placed_sprites(images, i).push(
                PlacedSprite {
                    id: sprite.id,
                    x: x as u32,
                    y: y as u32,
                    w: sprite.image.width,
                    h: sprite.image.height,
                    border: sprite.border,
                },
            ),
            None => placed_sprites(images, i),
        }
    }
}

/// How the `i`th of some sprites is copied to `corner`.
pub open spec fn sprite_blit(images: Seq<SpriteImage>, i: int, corner: (int, int)) -> Blit {
    Blit {
        dst_stride: 1024,
        src_stride: images[i]@.width,
        dx: corner.0,
        dy: corner.1,
        w: images[i]@.width,
    }
}

/// The atlas's bytes after those of the first `n` sprites that fit were copied
/// into a clear atlas.
pub open spec fn painted(images: Seq<SpriteImage>, n: nat) -> Seq<u8>
    decreases n,
{
    if n == 0 {
        Seq::new(0x40_0000, |k: int| 0u8)
    } else {
        let i = (n - 1) as nat;
        match sprite_corner(images, i) {
            Some(corner) => sprite_blit(images, i as int, corner).copied(
                painted(images, i),
                images[i as int]@.rgba,
                (images[i as int]@.width * images[i as int]@.height) as nat,
            ),
            None => painted(images, i),
        }
    }
}

/// The atlas: where its sprites are, and its bytes.
pub struct SpriteAtlas {
    pub placed: Vec<PlacedSprite>,
    pub pixels: Vec<u8>,
}

impl SpriteAtlas {
    /// The place of a sprite: the last one recorded for it.
    pub fn region(&self, id: SpriteId) -> (found: Option<PlacedSprite>)
        ensures
            match found {
                Some(p) => exists|i: int|
                    #![trigger self.placed@[i]]
                    0 <= i < self.placed@.len() && self.placed@[i] == p && p.id == id && forall|
                        j: int,
                    |
                        i < j < self.placed@.len() ==> (#[trigger] self.placed@[j]).id != id,
                None => forall|j: int|
                    0 <= j < self.placed@.len() ==> (#[trigger] self.placed@[j]).id != id,
            },
    {
        let mut i: usize = self.placed.len();
        while i > 0
            invariant
                i <= self.placed@.len(),
                forall|j: int|
                    i <= j < self.placed@.len() ==> (#[trigger] self.placed@[j]).id != id,
            decreases i,
        {
            i = i - 1;
            let placed = self.placed[i];
            if placed.id == id {
                assert(self.placed@[i as int] == placed);
                return Some(placed);
            }
        }
        None
    }
}

/// Packs sprites into a clear atlas in their order. One that does not fit is
/// left out.
pub fn pack_sprites(images: &Vec<SpriteImage>) -> (atlas: SpriteAtlas)
    requires
        forall|i: int| 0 <= i < images@.len() ==> countable((#[trigger] images@[i]).image),
    ensures
        atlas.placed@ == placed_sprites(images@, images@.len()),
        atlas.pixels@ == painted(images@, images@.len()),
        atlas.pixels@.len() == 0x40_0000,
{
    let mut placed: Vec<PlacedSprite> = Vec::new();
    let mut pixels: Vec<u8> = vec![0u8; 0x40_0000];
    assert(pixels@ =~= painted(images@, 0));
    let mut shelf = Shelf::new(SPRITE_ATLAS_SIZE, 0);
    let mut i: usize = 0;
    while i < images.len()
        invariant
            i <= images@.len(),
            forall|k: int| 0 <= k < images@.len() ==> countable((#[trigger] images@[k]).image),
            shelf.wf(),
            shelf.size == 1024,
            shelf.gap == 0,
            shelf@ == cursor_after(atlas_start(), sizes(images@), i as nat),
            placed@ == placed_sprites(images@, i as nat),
            pixels@ == painted(images@, i as nat),
            pixels@.len() == 0x40_0000,
        decreases images@.len() - i,
    {
        let sprite = &images[i];
        assert(countable(images@[i as int].image));
        let w: u32 = sprite.image.width;
        let h: u32 = sprite.image.height;
        assert(sizes(images@)[i as int] == (w as int, h as int));
        if let Some((x, y)) = shelf.place(w, h) {
            proof {
                assert(x == 0 || x + w <= 1024);
                assert(y + h <= 1024);
                assert((h - 1) * w + w == w * h) by (nonlinear_arith);
            }
            blit_image(&mut pixels, SPRITE_ATLAS_SIZE, &sprite.image.rgba, w, x, y, w, h);
            placed.push(PlacedSprite { id: sprite.id, x, y, w, h, border: sprite.border });
        }
        i = i + 1;
    }
    SpriteAtlas { placed, pixels }
}

/// The files that sprites are made of, in the order of `SpriteAssets`; nothing
/// for a file that could not be read.
pub struct SpriteFiles {
    pub sprites: Vec<Option<Vec<u8>>>,
    pub steve: Option<Vec<u8>>,
    pub containers: Vec<Option<Vec<u8>>>,
    pub tabs: Vec<Option<Vec<u8>>>,
}

impl SpriteFiles {
    pub open spec fn wf(&self) -> bool {
        &&& self.sprites@.len() == 71
        &&& self.containers@.len() == 5
        &&& self.tabs@.len() == 28
    }
}

/// Whether `loaded` is the image of a file: there is one where the file can be
/// decoded and the bytes of what it holds can be counted.
pub open spec fn is_loaded(file: Option<Vec<u8>>, loaded: Option<Image>) -> bool {
    match file {
        Some(bytes) => match decoded_image(bytes@) {
            Some((w, h, rgba)) if fits_count(w, h) => loaded matches Some(image) && image.width == w
                && image.height == h && image.rgba@ == rgba,
            _ => loaded is None,
        },
        None => loaded is None,
    }
}

/// Whether `loaded` are the images of some files.
pub open spec fn are_loaded(files: Seq<Option<Vec<u8>>>, loaded: Seq<Option<Image>>) -> bool {
    &&& loaded.len() == files.len()
    &&& forall|i: int| 0 <= i < files.len() ==> is_loaded(files[i], #[trigger] loaded[i])
}

/// Whether `assets` are the images of `files`.
pub open spec fn are_assets(files: SpriteFiles, assets: SpriteAssets) -> bool {
    &&& are_loaded(files.sprites@, assets.sprites@)
    &&& is_loaded(files.steve, assets.steve)
    &&& are_loaded(files.containers@, assets.containers@)
    &&& are_loaded(files.tabs@, assets.tabs@)
}

/// The image of a file.
fn load_image(file: &Option<Vec<u8>>) -> (loaded: Option<Image>)
    ensures
        is_loaded(*file, loaded),
        loadable(loaded),
{
    let image = match file {
        Some(bytes) => decode_image(bytes)?,
        None => {
            return None;
        },
    };
    assert(image.width * image.height <= u32::MAX * u32::MAX) by (nonlinear_arith)
        requires
            0 <= image.width <= u32::MAX,
            0 <= image.height <= u32::MAX,
    ;
    let area: u64 = image.width as u64 * image.height as u64;
    if area <= 0x4000_0000 && image.width <= 0x3FF0_0000 {
        Some(image)
    } else {
        None
    }
}

/// The images of some files.
fn load_images(files: &Vec<Option<Vec<u8>>>) -> (loaded: Vec<Option<Image>>)
    ensures
        are_loaded(files@, loaded@),
        forall|i: int| 0 <= i < loaded@.len() ==> loadable(#[trigger] loaded@[i]),
{
    let mut loaded: Vec<Option<Image>> = Vec::new();
    let mut i: usize = 0;
    while i < files.len()
        invariant
            i <= files@.len(),
            loaded@.len() == i,
            forall|k: int| 0 <= k < i ==> is_loaded(files@[k], #[trigger] loaded@[k]),
            forall|k: int| 0 <= k < i ==> loadable(#[trigger] loaded@[k]),
        decreases files@.len() - i,
    {
        loaded.push(load_image(&files[i]));
        i = i + 1;
    }
    loaded
}

/// The images of the files that sprites are made of.
pub fn load_sprite_assets(files: &SpriteFiles) -> (assets: SpriteAssets)
    requires
        files.wf(),
    ensures
        assets.wf(),
        are_assets(*files, assets),
{
    SpriteAssets {
        sprites: load_images(&files.sprites),
        steve: load_image(&files.steve),
        containers: load_images(&files.containers),
        tabs: load_images(&files.tabs),
    }
}

/// Builds the atlas from the files that sprites are made of.
pub fn load_sprite_atlas<F: Fn(u8, u8, u8) -> u8>(
    files: &SpriteFiles,
    blend: F,
) -> (atlas: SpriteAtlas)
    requires
        files.wf(),
        forall|hat: u8, under: u8, alpha: u8| blend.requires((hat, under, alpha)),
    ensures
        exists|assets: SpriteAssets, images: Seq<SpriteImage>|
            #![trigger are_sprites(assets, blend, images)]
            are_assets(*files, assets) && are_sprites(assets, blend, images) && atlas.placed@
                == placed_sprites(images, 105) && atlas.pixels@ == painted(images, 105),
        atlas.pixels@.len() == 0x40_0000,
{
    let assets = load_sprite_assets(files);
    build_sprite_atlas(&assets, blend)
}

/// Builds the atlas from the images that were loaded.
pub fn build_sprite_atlas<F: Fn(u8, u8, u8) -> u8>(
    assets: &SpriteAssets,
    blend: F,
) -> (atlas: SpriteAtlas)
    requires
        assets.wf(),
        forall|hat: u8, under: u8, alpha: u8| blend.requires((hat, under, alpha)),
    ensures
        exists|images: Seq<SpriteImage>| #[trigger]
            are_sprites(*assets, blend, images) && atlas.placed@ == placed_sprites(images, 105)
                && atlas.pixels@ == painted(images, 105),
        atlas.pixels@.len() == 0x40_0000,
{
    let images = sprite_images(assets, blend);
    pack_sprites(&images)
}

proof fn lemma_painted_len(images: Seq<SpriteImage>, n: nat)
    ensures
        painted(images, n).len() == 0x40_0000,
    decreases n,
{
    if n > 0 {
        let i = (n - 1) as nat;
        lemma_painted_len(images, i);
        if let Some(corner) = sprite_corner(images, i) {
            crate::pixels::copied_keeps_length(
                sprite_blit(images, i as int, corner),
                painted(images, i),
                images[i as int]@.rgba,
                (images[i as int]@.width * images[i as int]@.height) as nat,
            );
        }
    }
}

proof fn lemma_corner(images: Seq<SpriteImage>, i: nat)
    requires
        i < images.len(),
        sprite_corner(images, i) is Some,
        images[i as int]@.width <= 1024,
    ensures
        ({
            let (x, y) = sprite_corner(images, i).unwrap();
            &&& 0 <= x && x + images[i as int]@.width <= 1024
            &&& 0 <= y && y + images[i as int]@.height <= 1024
        }),
{
    crate::shelf::placed_rectangles_lie_inside(atlas_start(), sizes(images), i);
}

/// A byte belongs to one pixel only.
proof fn lemma_one_pixel_per_byte(a: int, b: int, c: int, u: int, v: int, d: int)
    requires
        0 <= a < 1024,
        0 <= u < 1024,
        0 <= c < 4,
        0 <= d < 4,
        byte_at(1024, a, b, c) == byte_at(1024, u, v, d),
    ensures
        a == u,
        b == v,
{
}

/// A sprite packed later does not touch the bytes of an earlier one.
proof fn lemma_later_sprite_keeps(
    images: Seq<SpriteImage>,
    i: nat,
    m: nat,
    x: int,
    y: int,
    c: int,
)
    requires
        i < m < images.len(),
        sprite_corner(images, i) is Some,
        sprite_corner(images, m) is Some,
        images[i as int]@.width <= 1024,
        images[m as int]@.width <= 1024,
        0 <= x < images[i as int]@.width,
        0 <= y < images[i as int]@.height,
        0 <= c < 4,
    ensures
        ({
            let corner = sprite_corner(images, i).unwrap();
            let k = byte_at(1024, corner.0 + x, corner.1 + y, c);
            painted(images, m + 1)[k] == painted(images, m)[k]
        }),
{
    let corner = sprite_corner(images, i).unwrap();
    let other = sprite_corner(images, m).unwrap();
    let k = byte_at(1024, corner.0 + x, corner.1 + y, c);
    lemma_corner(images, i);
    lemma_corner(images, m);
    lemma_painted_len(images, m);
    sprites_do_not_overlap(images, i, m);
    let image = images[m as int]@;
    if crate::pixels::in_block(1024, other.0, other.1, image.width, image.height, k) {
        let (u, v, d) = choose|u: int, v: int, d: int|
            0 <= u < image.width && 0 <= v < image.height && 0 <= d < 4 && k == #[trigger] byte_at(
                1024,
                other.0 + u,
                other.1 + v,
                d,
            );
        lemma_one_pixel_per_byte(corner.0 + x, corner.1 + y, c, other.0 + u, other.1 + v, d);
        assert(false);
    }
    crate::pixels::blit_keeps_the_rest(
        sprite_blit(images, m as int, other),
        painted(images, m),
        image.rgba,
        image.height as nat,
        k,
    );
}

/// No two sprites of the atlas overlap.
pub proof fn sprites_do_not_overlap(images: Seq<SpriteImage>, i: nat, j: nat)
    requires
        i < j < images.len(),
        sprite_corner(images, i) is Some,
        sprite_corner(images, j) is Some,
    ensures
        disjoint(
            covered(atlas_start(), sizes(images), i),
            covered(atlas_start(), sizes(images), j),
        ),
{
    placed_rectangles_are_disjoint(atlas_start(), sizes(images), i, j);
}

/// Where every sprite is at most as wide as the atlas, each one that fits is
/// shown by the finished atlas pixel by pixel, whatever was packed after it.
pub proof fn atlas_shows_every_sprite(
    images: Seq<SpriteImage>,
    n: nat,
    i: nat,
    x: int,
    y: int,
    c: int,
)
    requires
        forall|k: int| 0 <= k < images.len() ==> countable((#[trigger] images[k]).image),
        forall|k: int| 0 <= k < images.len() ==> (#[trigger] images[k])@.width <= 1024,
        i < n <= images.len(),
        sprite_corner(images, i) is Some,
        0 <= x < images[i as int]@.width,
        0 <= y < images[i as int]@.height,
        0 <= c < 4,
    ensures
        ({
            let corner = sprite_corner(images, i).unwrap();
            painted(images, n)[byte_at(1024, corner.0 + x, corner.1 + y, c)]
                == images[i as int]@.rgba[byte_at(images[i as int]@.width, x, y, c)]
        }),
    decreases n,
{
    let corner = sprite_corner(images, i).unwrap();
    let m = (n - 1) as nat;
    let k = byte_at(1024, corner.0 + x, corner.1 + y, c);
    lemma_corner(images, i);
    lemma_painted_len(images, m);
    assert(0 <= k && byte_at(1024, corner.0 + x, corner.1 + y, 3) < 0x40_0000);
    if i == m {
        let image = images[i as int]@;
        assert(byte_at(image.width, x, y, 3) < image.rgba.len()) by (nonlinear_arith)
            requires
                byte_at(image.width, x, y, 3) == (y * image.width + x) * 4 + 3,
                0 <= x < image.width,
                y + 1 <= image.height,
                0 <= y,
                image.rgba.len() == image.width * image.height * 4,
        ;
        crate::pixels::blit_copies_the_block(
            sprite_blit(images, i as int, corner),
            painted(images, m),
            image.rgba,
            image.height as nat,
            x,
            y,
            c,
        );
    } else {
        atlas_shows_every_sprite(images, m, i, x, y, c);
        if sprite_corner(images, m) is Some {
            lemma_later_sprite_keeps(images, i, m, x, y, c);
        }
    }
}

/// Every sprite that the atlas has a place for is found where it is painted: its
/// entry has the place, the size and the border of its own image. Sprites without a
/// place have no entry.
pub proof fn sprites_are_found_where_they_are_painted(images: Seq<SpriteImage>, n: nat, i: nat)
    requires
        i < n <= images.len(),
        forall|k: int| 0 <= k < images.len() ==> (#[trigger] images[k])@.width <= 1024,
    ensures
        ({
            let all = placed_sprites(images, n);
            let at = placed_sprites(images, i).len();
            match sprite_corner(images, i) {
                Some((x, y)) => {
                    &&& at < all.len()
                    &&& all[at as int].id == images[i as int].id
                    &&& all[at as int].x == x
                    &&& all[at as int].y == y
                    &&& all[at as int].w == images[i as int]@.width
                    &&& all[at as int].h == images[i as int]@.height
                    &&& all[at as int].border == images[i as int].border
                },
                None => placed_sprites(images, i + 1).len() == at,
            }
        }),
    decreases n,
{
    if i < n - 1 {
        sprites_are_found_where_they_are_painted(images, (n - 1) as nat, i);
        let at = placed_sprites(images, i).len();
        let fewer = placed_sprites(images, (n - 1) as nat);
        if at < fewer.len() {
            assert(placed_sprites(images, n)[at as int] == fewer[at as int]);
        }
    } else if sprite_corner(images, i) is Some {
        lemma_corner(images, i);
    }
}

/// Every sprite shows the picture in its own file, whole and in its own size, and a
/// single purple pixel where there is none to read.
pub proof fn sprites_show_their_files<F: Fn(u8, u8, u8) -> u8>(
    files: SpriteFiles,
    assets: SpriteAssets,
    blend: F,
    images: Seq<SpriteImage>,
    i: int,
)
    requires
        are_assets(files, assets),
        are_sprites(assets, blend, images),
        files.wf(),
        0 <= i < 71,
    ensures
        images[i].id == SPRITES@[i].0,
        match files.sprites@[i] {
            Some(bytes) => match decoded_image(bytes@) {
                Some((w, h, rgba)) if fits_count(w, h) => {
                    &&& images[i]@.width == w
                    &&& images[i]@.height == h
                    &&& images[i]@.rgba == rgba
                    &&& images[i]@.border == SPRITES@[i].2
                },
                _ => images[i]@.width == 1 && images[i]@.height == 1 && images[i]@.rgba == seq![
                    255u8,
                    0,
                    255,
                    255,
                ],
            },
            None => images[i]@.width == 1 && images[i]@.height == 1 && images[i]@.rgba == seq![
                255u8,
                0,
                255,
                255,
            ],
        },
{
    assert(images[i]@ == whole(SPRITES@[i].0, SPRITES@[i].2 as int, assets.sprites@[i]));
    assert(is_loaded(files.sprites@[i], assets.sprites@[i]));
}

} // verus!
