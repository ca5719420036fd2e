//! The pieces that the screens are made of: buttons, sliders, slots, and the
//! panel of results.

use crate::sprites::SpriteId;
use crate::strings::{decimals_are_short, signed_decimal, signed_text};
use vstd::prelude::*;

verus! {

/// The width of the border of a button that can be pressed.
pub const BUTTON_BORDER: u32 = 3;

/// The width that a digit of an item's count takes.
pub const DIGIT_WIDTH: usize = 6;

/// The red, green and blue parts of a colour.
pub fn rgb(hex: u32) -> (parts: (u8, u8, u8))
    ensures
        parts.0 == hex / 0x1_0000 % 0x100,
        parts.1 == hex / 0x100 % 0x100,
        parts.2 == hex % 0x100,
{
    let red: u32 = hex / 0x1_0000 % 0x100;
    let green: u32 = hex / 0x100 % 0x100;
    let blue: u32 = hex % 0x100;
    (red as u8, green as u8, blue as u8)
}

/// How a button looks.
#[derive(Clone, Copy, Debug, PartialEq, Eq, Structural)]
pub struct ButtonLook {
    pub sprite: SpriteId,
    pub border: u32,
    /// Whether the label is dimmed.
    pub dimmed: bool,
    /// Whether a click would press it.
    pub hovered: bool,
}

/// How a button looks that can be pressed or not, with the pointer over it or
/// not.
pub open spec fn button_look(enabled: bool, over: bool) -> ButtonLook {
    ButtonLook {
        sprite: if !enabled {
            SpriteId::ButtonDisabled
        } else if over {
            SpriteId::ButtonHover
        } else {
            SpriteId::ButtonNormal
        },
        border: if enabled {
            3
        } else {
            1
        },
        dimmed: !enabled,
        hovered: enabled && over,
    }
}

/// How a button looks.
pub fn push_button(enabled: bool, over: bool) -> (look: ButtonLook)
    ensures
        look == button_look(enabled, over),
{
    let hovered: bool = enabled && over;
    let sprite = if !enabled {
        SpriteId::ButtonDisabled
    } else if hovered {
        SpriteId::ButtonHover
    } else {
        SpriteId::ButtonNormal
    };
    let border: u32 = if enabled { BUTTON_BORDER } else { 1 };
    ButtonLook { sprite, border, dimmed: !enabled, hovered }
}

/// How a slider looks, and whether it is being moved.
#[derive(Clone, Copy, Debug, PartialEq, Eq, Structural)]
pub struct SliderResult {
    pub handle: SpriteId,
    pub hovered: bool,
    /// Whether the slider takes its value from the pointer.
    pub dragging: bool,
}

/// A slider follows the pointer while the button is held, once it was pressed
/// over the slider.
pub open spec fn slider_result(hovered: bool, held: bool, dragging: bool) -> SliderResult {
    let moves = held && (dragging || hovered);
    SliderResult {
        handle: if moves || hovered {
            SpriteId::SliderHandleHover
        } else {
            SpriteId::SliderHandle
        },
        hovered,
        dragging: moves,
    }
}

/// How a slider looks, and whether it is being moved.
pub fn push_slider(hovered: bool, held: bool, dragging: bool) -> (result: SliderResult)
    ensures
        result == slider_result(hovered, held, dragging),
{
    let actively_dragging: bool = dragging && held;
    let start_drag: bool = hovered && held && !dragging;
    let handle = if actively_dragging || start_drag || hovered {
        SpriteId::SliderHandleHover
    } else {
        SpriteId::SliderHandle
    };
    SliderResult { handle, hovered, dragging: actively_dragging || start_drag }
}

/// A slider that is let go stops following the pointer, and one that is held
/// goes on wherever the pointer is.
pub proof fn drag_lasts_while_held(over: bool, held: bool)
    ensures
        !slider_result(over, false, true).dragging,
        slider_result(true, true, false).dragging,
        held ==> slider_result(over, held, true).dragging,
{
}

/// A layer of a slot, from the back.
#[derive(Clone, Copy, Debug, PartialEq, Eq, Structural)]
pub enum SlotLayer {
    HighlightBack,
    /// What an empty slot shows.
    Placeholder(SpriteId),
    Item,
    Count(i32),
    HighlightFront,
}

/// The layers of an item: its icon, and how many there are if more than one.
pub open spec fn item_layers(count: i32) -> Seq<SlotLayer> {
    if count > 1 {
        seq![SlotLayer::Item, SlotLayer::Count(count)]
    } else {
        seq![SlotLayer::Item]
    }
}

/// The layers of a slot.
pub open spec fn slot_layers(
    hovered: bool,
    item: Option<i32>,
    placeholder: Option<SpriteId>,
) -> Seq<SlotLayer> {
    let within = match (item, placeholder) {
        (Some(count), _) => item_layers(count),
        (None, Some(sprite)) => seq![SlotLayer::Placeholder(sprite)],
        (None, None) => Seq::empty(),
    };
    if hovered {
        seq![SlotLayer::HighlightBack] + within + seq![SlotLayer::HighlightFront]
    } else {
        within
    }
}

/// Adds the layers of an item.
pub fn push_item_icon(layers: &mut Vec<SlotLayer>, count: i32)
    ensures
        final(layers)@ == old(layers)@ + item_layers(count),
{
    let ghost before = layers@;
    layers.push(SlotLayer::Item);
    if count > 1 {
        layers.push(SlotLayer::Count(count));
    }
    assert(layers@ =~= before + item_layers(count));
}

/// The layers of a slot that holds `item` many items, or none.
pub fn push_slot(hovered: bool, item: Option<i32>, placeholder: Option<SpriteId>) -> (layers: Vec<
    SlotLayer,
>)
    ensures
        layers@ == slot_layers(hovered, item, placeholder),
{
    let mut layers: Vec<SlotLayer> = Vec::new();
    if hovered {
        layers.push(SlotLayer::HighlightBack);
    }
    match item {
        Some(count) => push_item_icon(&mut layers, count),
        None => {
            if let Some(sprite) = placeholder {
                layers.push(SlotLayer::Placeholder(sprite));
            }
        },
    }
    if hovered {
        layers.push(SlotLayer::HighlightFront);
    }
    assert(layers@ =~= slot_layers(hovered, item, placeholder));
    layers
}

/// The text of an item's count, and the width that it is set back by.
pub fn push_item_count(count: i32) -> (shown: (String, usize))
    ensures
        shown.0@ == signed_decimal(count as int),
        shown.1 == signed_decimal(count as int).len() * 6,
{
    let text = signed_text(count);
    proof {
        let digits = if count < 0 {
            (-(count as int)) as nat
        } else {
            count as nat
        };
        decimals_are_short(digits);
    }
    let width: usize = text.as_str().unicode_len() * DIGIT_WIDTH;
    (text, width)
}

/// Whether the text cursor shows: every other half second.
pub fn push_cursor_blink(elapsed_millis: u64) -> (shown: bool)
    ensures
        shown == (elapsed_millis / 500 % 2 == 0),
{
    elapsed_millis % 1000 < 500
}

/// What the caller does after the panel of results handled a frame.
#[derive(Clone, Copy, Debug, PartialEq, Eq, Structural)]
pub enum ResultAction {
    Nothing,
    Dismiss,
    StartUpload,
    /// Copies the link of what was uploaded once more.
    Recopy,
}

/// How far an upload is.
pub enum UploadStatus {
    Uploading,
    Done { url: String, copied: bool },
    Failed(String),
}

/// The colour of a status.
#[derive(Clone, Copy, Debug, PartialEq, Eq, Structural)]
pub enum Tone {
    Plain,
    Good,
    Doubtful,
    Bad,
}

/// The status line of an upload.
pub open spec fn status_line(upload: Option<UploadStatus>) -> Option<(Seq<char>, Tone)> {
    match upload {
        None => None,
        Some(UploadStatus::Uploading) => Some(("Uploading..."@, Tone::Plain)),
        Some(UploadStatus::Done { url, copied }) => Some(
            if copied {
                ("Link copied: "@ + url@, Tone::Good)
            } else {
                ("Uploaded (copy failed): "@ + url@, Tone::Doubtful)
            },
        ),
        Some(UploadStatus::Failed(message)) => Some((message@, Tone::Bad)),
    }
}

/// The label of the upload button, and whether it can be pressed.
pub open spec fn upload_button(upload: Option<UploadStatus>, debug_build: bool) -> (
    Seq<char>,
    bool,
) {
    if debug_build {
        ("Upload disabled (debug build)"@, false)
    } else {
        match upload {
            Some(UploadStatus::Uploading) => ("Uploading..."@, false),
            Some(UploadStatus::Done { .. }) => ("Copy link again"@, true),
            _ => ("Upload & copy link"@, true),
        }
    }
}

/// What the caller does: the button uploads or copies where it can be pressed,
/// and a click elsewhere or the escape key dismisses the panel.
pub open spec fn result_action(
    upload: Option<UploadStatus>,
    debug_build: bool,
    over_button: bool,
    clicked: bool,
    escape: bool,
) -> ResultAction {
    if clicked && over_button {
        if !upload_button(upload, debug_build).1 {
            ResultAction::Nothing
        } else if upload matches Some(UploadStatus::Done { .. }) {
            ResultAction::Recopy
        } else {
            ResultAction::StartUpload
        }
    } else if escape || clicked {
        ResultAction::Dismiss
    } else {
        ResultAction::Nothing
    }
}

/// The panel of results: what it shows below its lines, and what it asks for.
pub struct ResultsPanel {
    pub status: Option<(String, Tone)>,
    pub label: &'static str,
    pub enabled: bool,
    pub action: ResultAction,
}

fn upload_status(upload: &Option<UploadStatus>) -> (status: Option<(String, Tone)>)
    ensures
        match status {
            Some((text, tone)) => status_line(*upload) == Some((text@, tone)),
            None => status_line(*upload) is None,
        },
{
    match upload {
        None => None,
        Some(UploadStatus::Uploading) => Some(("Uploading...".to_owned(), Tone::Plain)),
        Some(UploadStatus::Done { url, copied }) => if *copied {
            Some(("Link copied: ".to_owned().concat(url.as_str()), Tone::Good))
        } else {
            Some(("Uploaded (copy failed): ".to_owned().concat(url.as_str()), Tone::Doubtful))
        },
        Some(UploadStatus::Failed(message)) => Some((message.clone(), Tone::Bad)),
    }
}

/// The panel of results in a frame.
pub fn push_results_overlay(
    upload: &Option<UploadStatus>,
    debug_build: bool,
    over_button: bool,
    clicked: bool,
    escape: bool,
) -> (panel: ResultsPanel)
    ensures
        match panel.status {
            Some((text, tone)) => status_line(*upload) == Some((text@, tone)),
            None => status_line(*upload) is None,
        },
        (panel.label@, panel.enabled) == upload_button(*upload, debug_build),
        panel.action == result_action(*upload, debug_build, over_button, clicked, escape),
{
    let status = upload_status(upload);
    let (label, enabled, pressed): (&'static str, bool, ResultAction) = if debug_build {
        ("Upload disabled (debug build)", false, ResultAction::Nothing)
    } else {
        match upload {
            Some(UploadStatus::Uploading) => ("Uploading...", false, ResultAction::Nothing),
            Some(UploadStatus::Done { .. }) => ("Copy link again", true, ResultAction::Recopy),
            _ => ("Upload & copy link", true, ResultAction::StartUpload),
        }
    };
    let action = if clicked && over_button {
        pressed
    } else if escape || clicked {
        ResultAction::Dismiss
    } else {
        ResultAction::Nothing
    };
    ResultsPanel { status, label, enabled, action }
}

/// Nothing is uploaded from a debug build, nor while an upload is running.
pub proof fn uploads_are_held_back(
    upload: Option<UploadStatus>,
    debug_build: bool,
    over_button: bool,
    clicked: bool,
    escape: bool,
)
    requires
        debug_build || (upload matches Some(UploadStatus::Uploading)),
    ensures
        result_action(upload, debug_build, over_button, clicked, escape)
            != ResultAction::StartUpload,
        result_action(upload, debug_build, over_button, clicked, escape) != ResultAction::Recopy,
{
}

/// A place shows its item and nothing else, with the number where there is more than
/// one; an empty place shows its picture, if it has one. Under the cursor the place
/// is marked behind and in front of what it shows.
pub proof fn places_show_their_item(
    hovered: bool,
    item: Option<i32>,
    placeholder: Option<SpriteId>,
    sprite: SpriteId,
    count: i32,
)
    ensures
        ({
            let layers = slot_layers(hovered, item, placeholder);
            &&& layers.contains(SlotLayer::Item) <==> item is Some
            &&& layers.contains(SlotLayer::Count(count)) <==> item == Some(count) && count > 1
            &&& layers.contains(SlotLayer::Placeholder(sprite)) <==> item is None && placeholder
                == Some(sprite)
            &&& hovered ==> layers.first() == SlotLayer::HighlightBack && layers.last()
                == SlotLayer::HighlightFront
            &&& !hovered ==> !layers.contains(SlotLayer::HighlightBack) && !layers.contains(
                SlotLayer::HighlightFront,
            )
        }),
{
    let layers = slot_layers(hovered, item, placeholder);
    let first: int = if hovered {
        1
    } else {
        0
    };
    if let Some(n) = item {
        assert(layers[first] == SlotLayer::Item);
        if n > 1 {
            assert(layers[first + 1] == SlotLayer::Count(n));
        }
    } else if let Some(s) = placeholder {
        assert(layers[first] == SlotLayer::Placeholder(s));
    }
}

/// The results are left by the escape key and by a click beside the button. A click
/// on the button uploads them, or copies the link again where they are uploaded
/// already; while the button cannot be pressed it does nothing.
pub proof fn results_are_uploaded_on_request(
    upload: Option<UploadStatus>,
    debug_build: bool,
    over_button: bool,
    clicked: bool,
    escape: bool,
)
    ensures
        ({
            let action = result_action(upload, debug_build, over_button, clicked, escape);
            let done = upload matches Some(UploadStatus::Done { .. });
            let going_on = upload matches Some(UploadStatus::Uploading);
            let pressed = clicked && over_button && !debug_build && !going_on;
            &&& action == ResultAction::StartUpload <==> pressed && !done
            &&& action == ResultAction::Recopy <==> pressed && done
            &&& action == ResultAction::Dismiss <==> !(clicked && over_button) && (escape || clicked)
        }),
{
}

/// A button that cannot be pressed looks disabled and does not light up; one that
/// can does, under the cursor.
pub proof fn buttons_look_as_they_are(over: bool)
    ensures
        button_look(false, over).sprite == SpriteId::ButtonDisabled,
        !button_look(false, over).hovered && button_look(false, over).dimmed,
        button_look(true, true).sprite == SpriteId::ButtonHover && button_look(true, true).hovered,
        button_look(true, false).sprite == SpriteId::ButtonNormal && !button_look(
            true,
            false,
        ).hovered,
        !button_look(true, over).dimmed,
{
}

} // verus!
