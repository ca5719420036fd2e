//! The slots of the player's inventory screen.

use crate::sprites::SpriteId;
use vstd::prelude::*;

verus! {

/// The number of the slot that holds what was crafted.
pub const CRAFT_OUTPUT: u16 = 0;

/// The number of the first slot of the crafting field.
pub const CRAFT_INPUT_START: u16 = 1;

/// The number of the first slot for armour, the helmet's.
pub const ARMOR_START: u16 = 5;

/// The number of the first slot of the main inventory.
pub const MAIN_START: u16 = 9;

/// The number of the first slot of the hotbar.
pub const HOTBAR_START: u16 = 36;

/// The number of the slot for the other hand.
pub const OFFHAND: u16 = 45;

/// The width and height of a slot.
pub const SLOT_SIZE: u32 = 16;

/// The distance from one slot to the next.
pub const SLOT_STRIDE: u32 = 18;

/// The label of the crafting field.
pub const CRAFTING_LABEL: &'static str = "Crafting";

/// What the slots for armour show while they are empty.
pub const ARMOR_EMPTY_SPRITES: [SpriteId; 4] = [
    SpriteId::EmptyHelmet,
    SpriteId::EmptyChestplate,
    SpriteId::EmptyLeggings,
    SpriteId::EmptyBoots,
];

/// A slot on the panel: its place, its number, and what it shows while it is
/// empty.
#[derive(Clone, Copy, Debug, PartialEq, Eq, Structural)]
pub struct PlacedSlot {
    pub x: u32,
    pub y: u32,
    pub number: u16,
    pub placeholder: Option<SpriteId>,
}

/// The slot for the `i`th piece of armour.
pub open spec fn armor_slot(i: int) -> PlacedSlot {
    PlacedSlot {
        x: 8,
        y: (8 + i * 18) as u32,
        number: (5 + i) as u16,
        placeholder: Some(ARMOR_EMPTY_SPRITES@[i]),
    }
}

/// The `i`th slot of the crafting field, which has two rows of two.
pub open spec fn craft_slot(i: int) -> PlacedSlot {
    PlacedSlot {
        x: (98 + i % 2 * 18) as u32,
        y: (18 + i / 2 * 18) as u32,
        number: (1 + i) as u16,
        placeholder: None,
    }
}

/// The slots above the player's rows, in the order in which they are shown.
pub open spec fn equipment_slots() -> Seq<PlacedSlot> {
    Seq::new(4, |i: int| armor_slot(i)) + Seq::new(4, |i: int| craft_slot(i)) + seq![
        PlacedSlot { x: 154, y: 28, number: 0, placeholder: None },
        PlacedSlot { x: 77, y: 62, number: 45, placeholder: Some(SpriteId::EmptyShield) },
    ]
}

/// The slots above the player's rows, in the order in which they are shown.
pub fn build_inventory() -> (slots: Vec<PlacedSlot>)
    ensures
        slots@ == equipment_slots(),
{
    let mut slots: Vec<PlacedSlot> = Vec::new();
    let mut i: usize = 0;
    while i < 4
        invariant
            i <= 4,
            slots@ == Seq::new(i as nat, |k: int| armor_slot(k)),
        decreases 4 - i,
    {
        slots.push(
            PlacedSlot {
                x: 8,
                y: 8 + i as u32 * SLOT_STRIDE,
                number: ARMOR_START + i as u16,
                placeholder: Some(ARMOR_EMPTY_SPRITES[i]),
            },
        );
        i = i + 1;
        assert(slots@ =~= Seq::new(i as nat, |k: int| armor_slot(k)));
    }
    let ghost armor = slots@;
    let mut c: usize = 0;
    assert(slots@ =~= armor + Seq::new(0, |k: int| craft_slot(k)));
    while c < 4
        invariant
            c <= 4,
            slots@ == armor + Seq::new(c as nat, |k: int| craft_slot(k)),
        decreases 4 - c,
    {
        let row: u32 = c as u32 / 2;
        let column: u32 = c as u32 % 2;
        slots.push(
            PlacedSlot {
                x: 98 + column * SLOT_STRIDE,
                y: 18 + row * SLOT_STRIDE,
                number: CRAFT_INPUT_START + c as u16,
                placeholder: None,
            },
        );
        c = c + 1;
        assert(slots@ =~= armor + Seq::new(c as nat, |k: int| craft_slot(k)));
    }
    slots.push(PlacedSlot { x: 154, y: 28, number: CRAFT_OUTPUT, placeholder: None });
    slots.push(
        PlacedSlot { x: 77, y: 62, number: OFFHAND, placeholder: Some(SpriteId::EmptyShield) },
    );
    assert(slots@ =~= equipment_slots());
    slots
}

/// No two slots have one number or share a pixel.
pub proof fn slots_are_apart(i: int, j: int)
    requires
        0 <= i < j < equipment_slots().len(),
    ensures
        equipment_slots()[i].number != equipment_slots()[j].number,
        ({
            let (a, b) = (equipment_slots()[i], equipment_slots()[j]);
            a.x + 16 <= b.x || b.x + 16 <= a.x || a.y + 16 <= b.y || b.y + 16 <= a.y
        }),
{
}

/// The armour stands in a column from the head down, the places to craft in two rows
/// of two, from the left and from the top, and what is crafted to the right of them.
pub proof fn slots_stand_in_their_order(i: int)
    requires
        0 <= i < 4,
    ensures
        ({
            let slots = equipment_slots();
            let (armor, craft) = (slots[i], slots[4 + i]);
            &&& slots.len() == 10
            &&& armor.number == 5 + i
            &&& armor.x == slots[0].x
            &&& i > 0 ==> armor.y == slots[i - 1].y + 18
            &&& armor.placeholder == Some(ARMOR_EMPTY_SPRITES@[i])
            &&& craft.number == 1 + i
            &&& i % 2 == 1 ==> craft.x == slots[3 + i].x + 18 && craft.y == slots[3 + i].y
            &&& i >= 2 ==> craft.x == slots[2 + i].x && craft.y == slots[2 + i].y + 18
            &&& craft.placeholder is None
            &&& slots[8].number == 0 && slots[8].x > craft.x + 18
            &&& slots[9].number == 45 && slots[9].placeholder == Some(SpriteId::EmptyShield)
        }),
{
}

} // verus!
