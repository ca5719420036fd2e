//! The screens after a player's death.

use crate::strings::{signed_decimal, signed_text};
use vstd::prelude::*;

verus! {

/// What a death screen asks for.
#[derive(Clone, Copy, Debug, PartialEq, Eq, Structural)]
pub enum DeathAction {
    Nothing,
    Respawn,
    TitleScreen,
    ShowConfirm,
}

/// The title of the death screen.
pub const DEATH_TITLE: &'static str = "You died!";

/// The label before the score.
pub const SCORE_LABEL: &'static str = "Score: ";

/// The question before leaving.
pub const CONFIRM_TITLE: &'static str = "Are you sure you want to quit?";

/// The buttons of the death screen, from the top.
pub const DEATH_BUTTONS: [(&'static str, DeathAction); 2] = [
    ("Respawn", DeathAction::Respawn),
    ("Title Screen", DeathAction::ShowConfirm),
];

/// The buttons of the question, from the left.
pub const CONFIRM_BUTTONS: [(&'static str, DeathAction); 2] = [
    ("Title Screen", DeathAction::TitleScreen),
    ("Respawn", DeathAction::Respawn),
];

/// What a click asks for with the pointer over some of two buttons: the second
/// goes before the first, and neither can be pressed until they are enabled.
pub open spec fn chosen(
    buttons: Seq<(&'static str, DeathAction)>,
    enabled: bool,
    over: Seq<bool>,
    clicked: bool,
) -> DeathAction {
    if !clicked || !enabled {
        DeathAction::Nothing
    } else if over[1] {
        buttons[1].1
    } else if over[0] {
        buttons[0].1
    } else {
        DeathAction::Nothing
    }
}

/// The death screen in a frame.
pub struct DeathScreen {
    /// Why the player died, where it is known.
    pub message: Option<String>,
    pub score: String,
    pub action: DeathAction,
}

/// The death screen in a frame.
pub fn build_death_screen(
    message: &String,
    score: i32,
    buttons_enabled: bool,
    over: &[bool; 2],
    clicked: bool,
) -> (screen: DeathScreen)
    ensures
        match screen.message {
            Some(text) => text@ == message@ && message@.len() > 0,
            None => message@.len() == 0,
        },
        screen.score@ == signed_decimal(score as int),
        screen.action == chosen(DEATH_BUTTONS@, buttons_enabled, over@, clicked),
{
    let mut action = DeathAction::Nothing;
    if clicked && buttons_enabled && over[0] {
        action = DEATH_BUTTONS[0].1;
    }
    if clicked && buttons_enabled && over[1] {
        action = DEATH_BUTTONS[1].1;
    }
    DeathScreen {
        message: if message.as_str().is_empty() {
            None
        } else {
            Some(message.clone())
        },
        score: signed_text(score),
        action,
    }
}

/// What the question before leaving asks for in a frame.
pub fn build_death_confirm(buttons_enabled: bool, over: &[bool; 2], clicked: bool) -> (action:
    DeathAction)
    ensures
        action == chosen(CONFIRM_BUTTONS@, buttons_enabled, over@, clicked),
{
    let mut action = DeathAction::Nothing;
    if clicked && buttons_enabled && over[0] {
        action = CONFIRM_BUTTONS[0].1;
    }
    if clicked && buttons_enabled && over[1] {
        action = CONFIRM_BUTTONS[1].1;
    }
    action
}

/// The death screen itself never leads to the title screen: the question comes
/// first.
pub proof fn leaving_is_confirmed(enabled: bool, over: Seq<bool>, clicked: bool)
    ensures
        chosen(DEATH_BUTTONS@, enabled, over, clicked) != DeathAction::TitleScreen,
        chosen(CONFIRM_BUTTONS@, enabled, over, clicked) != DeathAction::ShowConfirm,
{
}

/// Each button does what it says: on the first screen one respawns and the other
/// asks first; on the second one leaves and the other respawns. Without a click, or
/// before the buttons can be pressed, nothing happens.
pub proof fn buttons_do_what_they_say(over: Seq<bool>)
    requires
        over.len() == 2,
    ensures
        over[0] && !over[1] ==> chosen(DEATH_BUTTONS@, true, over, true) == DeathAction::Respawn,
        over[1] && !over[0] ==> chosen(DEATH_BUTTONS@, true, over, true) == DeathAction::ShowConfirm,
        over[0] && !over[1] ==> chosen(CONFIRM_BUTTONS@, true, over, true)
            == DeathAction::TitleScreen,
        over[1] && !over[0] ==> chosen(CONFIRM_BUTTONS@, true, over, true) == DeathAction::Respawn,
        chosen(DEATH_BUTTONS@, false, over, true) == DeathAction::Nothing,
        chosen(DEATH_BUTTONS@, true, over, false) == DeathAction::Nothing,
        chosen(CONFIRM_BUTTONS@, false, over, true) == DeathAction::Nothing,
        chosen(CONFIRM_BUTTONS@, true, over, false) == DeathAction::Nothing,
{
}

} // verus!
