//! The pause menu.

use vstd::prelude::*;

verus! {

/// What a pause menu asks for.
#[derive(Clone, Copy, Debug, PartialEq, Eq, Structural)]
pub enum PauseAction {
    Nothing,
    Resume,
    Disconnect,
    Options,
    Benchmark,
}

/// Where in its row a button stands.
#[derive(Clone, Copy, Debug, PartialEq, Eq, Structural)]
pub enum PauseColumn {
    Full,
    Left,
    Right,
}

/// The title of the pause menu.
pub const PAUSE_TITLE: &'static str = "Game";

/// The buttons: label, row, column, and what each does. One that does nothing
/// cannot be pressed.
pub const PAUSE_BUTTONS: [(&'static str, u32, PauseColumn, PauseAction); 8] = [
    ("Return to Game", 0, PauseColumn::Full, PauseAction::Resume),
    ("Advancements", 1, PauseColumn::Left, PauseAction::Nothing),
    ("Statistics", 1, PauseColumn::Right, PauseAction::Nothing),
    ("Give Feedback", 2, PauseColumn::Left, PauseAction::Nothing),
    ("Report Bugs", 2, PauseColumn::Right, PauseAction::Nothing),
    ("Options...", 3, PauseColumn::Left, PauseAction::Options),
    ("Benchmark", 3, PauseColumn::Right, PauseAction::Benchmark),
    ("Disconnect", 4, PauseColumn::Full, PauseAction::Disconnect),
];

/// What the last of the first `n` buttons asks for that can be pressed and is
/// under the pointer.
pub open spec fn pressed(over: Seq<bool>, n: nat) -> PauseAction
    decreases n,
{
    if n == 0 {
        PauseAction::Nothing
    } else if over[n - 1] && PAUSE_BUTTONS@[n - 1].3 != PauseAction::Nothing {
        PAUSE_BUTTONS@[n - 1].3
    } else {
        pressed(over, (n - 1) as nat)
    }
}

/// What the pause menu asks for, given which buttons the pointer is over.
pub fn build_pause_menu(over: &[bool; 8], clicked: bool) -> (action: PauseAction)
    ensures
        action == if clicked {
            pressed(over@, 8)
        } else {
            PauseAction::Nothing
        },
{
    let mut action = PauseAction::Nothing;
    if !clicked {
        return action;
    }
    let mut i: usize = 0;
    while i < 8
        invariant
            i <= 8,
            action == pressed(over@, i as nat),
        decreases 8 - i,
    {
        if over[i] && PAUSE_BUTTONS[i].3 != PauseAction::Nothing {
            action = PAUSE_BUTTONS[i].3;
        }
        i = i + 1;
    }
    action
}

/// With the pointer over one button alone, a click asks for what that button
/// does.
pub proof fn click_does_what_the_button_says(over: Seq<bool>, i: int)
    requires
        over.len() == 8,
        0 <= i < 8,
        forall|j: int| 0 <= j < 8 ==> over[j] == (j == i),
    ensures
        pressed(over, 8) == PAUSE_BUTTONS@[i].3,
{
    reveal_with_fuel(pressed, 9);
}

} // verus!
