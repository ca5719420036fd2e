//! Signing in.

use crate::menu::state::{
    nothing, step_of, AuthPending, Effect, EffectView, MainMenu, MainMenuResult, MenuInput,
    MenuModel, Screen, Step,
};
use vstd::prelude::*;

verus! {

/// How far signing in has come.
pub enum AuthStatus {
    Idle,
    OpeningBrowser,
    WaitingForBrowser,
    Exchanging,
    /// Signed in, under a player name.
    Success(String),
    Failed(String),
}

/// What is told before signing in; an empty line is a gap.
pub const PROMPT_LINES: [&'static str; 7] = [
    "You need to sign in with your Microsoft account.",
    "",
    "A browser tab will open where you can sign in.",
    "Once complete, the client will detect it automatically.",
    "",
    "In the future, a launcher will handle authentication.",
    "For now, we use a temporary sign-in method.",
];

/// A frame of the screen that asks to sign in.
pub open spec fn prompt_frame(
    menu: MenuModel,
    input: MenuInput,
    over_sign_in: bool,
    over_back: bool,
    now: u64,
) -> Step {
    match menu.screen {
        Screen::AuthPrompt { pending } => {
            if input.escape {
                Step { menu: menu.entered(Screen::Main, now), out: nothing(2) }
            } else {
                let s0 = Step { menu, out: nothing(2).pointing(over_sign_in || over_back) };
                let s1 = if over_sign_in && input.clicked {
                    s0.entering(Screen::Auth { pending }, now).doing(EffectView::StartAuth)
                } else {
                    s0
                };
                if over_back && input.clicked {
                    s1.entering(Screen::Main, now)
                } else {
                    s1
                }
            }
        },
        _ => Step { menu, out: nothing(2) },
    }
}

impl Step {
    /// With signing in given up.
    pub open spec fn giving_up(self, now: u64) -> Step {
        self.entering(Screen::Main, now).doing(EffectView::ResetAuth)
    }
}

/// A frame of signing in. A success takes the player to what signing in was
/// asked for.
pub open spec fn auth_frame(
    menu: MenuModel,
    input: MenuInput,
    status: AuthStatus,
    over_button: bool,
    now: u64,
) -> Step {
    match menu.screen {
        Screen::Auth { pending } => {
            let s0 = Step { menu, out: nothing(2) };
            match status {
                AuthStatus::Success(name) => {
                    let s1 = Step {
                        menu: MenuModel { username: name@, signed_in: true, ..menu },
                        ..s0
                    }.doing(EffectView::ResetAuth);
                    if pending == AuthPending::Multiplayer {
                        s1.entering_servers(now)
                    } else {
                        s1.entering(Screen::Main, now)
                    }
                },
                AuthStatus::WaitingForBrowser | AuthStatus::Failed(_) => {
                    if over_button && input.clicked {
                        s0.giving_up(now)
                    } else {
                        Step { out: s0.out.pointing(over_button), ..s0 }
                    }
                },
                _ => {
                    let s1 = Step { out: s0.out.pointing(over_button), ..s0 };
                    if over_button && input.clicked {
                        s1.giving_up(now)
                    } else {
                        s1
                    }
                },
            }
        },
        _ => Step { menu, out: nothing(2) },
    }
}

/// What is shown while signing in: a message, and the label of the button.
pub open spec fn auth_text(status: AuthStatus) -> (Seq<char>, Seq<char>) {
    match status {
        AuthStatus::Idle | AuthStatus::OpeningBrowser => ("Opening browser..."@, "Cancel"@),
        AuthStatus::WaitingForBrowser => ("Complete sign-in in your browser..."@, "Cancel"@),
        AuthStatus::Exchanging => ("Logging in..."@, "Cancel"@),
        AuthStatus::Success(_) => (Seq::empty(), Seq::empty()),
        AuthStatus::Failed(error) => (error@, "Back"@),
    }
}

/// What is shown while signing in.
pub fn auth_message(status: &AuthStatus) -> (shown: (String, String))
    ensures
        (shown.0@, shown.1@) == auth_text(*status),
{
    match status {
        AuthStatus::Idle | AuthStatus::OpeningBrowser => (
            "Opening browser...".to_owned(),
            "Cancel".to_owned(),
        ),
        AuthStatus::WaitingForBrowser => (
            "Complete sign-in in your browser...".to_owned(),
            "Cancel".to_owned(),
        ),
        AuthStatus::Exchanging => ("Logging in...".to_owned(), "Cancel".to_owned()),
        AuthStatus::Success(_) => (String::new(), String::new()),
        AuthStatus::Failed(error) => (error.clone(), "Back".to_owned()),
    }
}

impl MainMenu {
    /// A frame of the screen that asks to sign in.
    pub fn build_auth_prompt(
        &mut self,
        input: &MenuInput,
        over_sign_in: bool,
        over_back: bool,
        now: u64,
    ) -> (result: MainMenuResult)
        requires
            old(self).wf(),
        ensures
            final(self).wf(),
            step_of(*final(self), result) == prompt_frame(
                old(self)@,
                *input,
                over_sign_in,
                over_back,
                now,
            ),
    {
        let mut result = MainMenuResult::new(2);
        let pending: AuthPending = match self.screen {
            Screen::AuthPrompt { pending } => pending,
            _ => {
                return result;
            },
        };
        if input.escape {
            self.set_screen(Screen::Main, now);
            return result;
        }
        result.cursor_pointer = over_sign_in || over_back;
        if over_sign_in && input.clicked {
            self.set_screen(Screen::Auth { pending }, now);
            result.add_effect(Effect::StartAuth);
        }
        if over_back && input.clicked {
            self.set_screen(Screen::Main, now);
        }
        result
    }

    /// Gives up signing in.
    pub fn cancel_auth(&mut self, result: &mut MainMenuResult, now: u64)
        requires
            old(self).wf(),
        ensures
            final(self).wf(),
            step_of(*final(self), *final(result)) == step_of(
                *old(self),
                *old(result),
            ).giving_up(now),
    {
        self.set_screen(Screen::Main, now);
        result.add_effect(Effect::ResetAuth);
    }

    /// A frame of signing in, given how far it has come.
    pub fn build_auth(
        &mut self,
        input: &MenuInput,
        status: &AuthStatus,
        over_button: bool,
        now: u64,
    ) -> (result: MainMenuResult)
        requires
            old(self).wf(),
        ensures
            final(self).wf(),
            step_of(*final(self), result) == auth_frame(
                old(self)@,
                *input,
                *status,
                over_button,
                now,
            ),
    {
        let mut result = MainMenuResult::new(2);
        let pending: AuthPending = match self.screen {
            Screen::Auth { pending } => pending,
            _ => {
                return result;
            },
        };
        match status {
            AuthStatus::Success(name) => {
                self.username = name.clone();
                self.signed_in = true;
                result.add_effect(Effect::ResetAuth);
                if pending == AuthPending::Multiplayer {
                    self.enter_servers(&mut result, now);
                } else {
                    self.set_screen(Screen::Main, now);
                }
            },
            AuthStatus::WaitingForBrowser | AuthStatus::Failed(_) => {
                if over_button && input.clicked {
                    self.cancel_auth(&mut result, now);
                } else {
                    result.cursor_pointer = over_button;
                }
            },
            _ => {
                result.cursor_pointer = over_button;
                if over_button && input.clicked {
                    self.cancel_auth(&mut result, now);
                }
            },
        }
        result
    }
}

} // verus!
