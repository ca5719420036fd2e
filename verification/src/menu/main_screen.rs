//! The title screen.

use crate::menu::state::{
    elapsed, elapsed_ms, nothing, step_of, ActionView, AuthPending, Effect, EffectView, Link,
    MainMenu, MainMenuResult, MenuAction, MenuInput, MenuModel, PanoramaTheme, ResultView, Screen,
    Step, ThemeTransition,
};
use vstd::prelude::*;

verus! {

/// The buttons and icons of the title screen that the cursor is over, and the
/// items of its dropdowns.
#[derive(Clone, Copy, Debug, PartialEq, Eq, Structural)]
pub struct MainHits {
    pub singleplayer: bool,
    pub multiplayer: bool,
    pub quit: bool,
    pub user_icon: bool,
    pub link_icon: bool,
    pub gear_icon: bool,
    pub brush_icon: bool,
    pub website: bool,
    pub discord: bool,
    pub github: bool,
    /// Whether it is beside the links and the icon that opens them.
    pub beside_links: bool,
    pub pomme_theme: bool,
    pub default_theme: bool,
    /// Whether it is beside the themes and the icon that opens them.
    pub beside_themes: bool,
}

/// The pages that the title screen links to.
pub const LINKS: [(&'static str, Link, &'static str); 3] = [
    ("Website", Link::Website, "https://website.com"),
    ("Discord", Link::Discord, "https://discord.gg/ucBA55bHPR"),
    ("GitHub", Link::GitHub, "https://github.com"),
];

/// The labels of the buttons, from the top.
pub const MAIN_BUTTONS: [&'static str; 3] = ["Singleplayer", "Multiplayer", "Quit Game"];

/// The labels of the themes.
pub const THEMES: [(&'static str, PanoramaTheme); 2] = [
    ("Pomme", PanoramaTheme::Pomme),
    ("Default", PanoramaTheme::Default),
];

/// How long a picture takes to close, and the next one to open.
pub const CLOSE_MS: u64 = 500;

/// How long the new picture takes to open.
pub const OPEN_MS: u64 = 500;

impl Step {
    /// With a click that makes a sound.
    pub open spec fn sounding(self) -> Step {
        Step { out: ResultView { clicked_button: true, ..self.out }, ..self }
    }

    /// With the server list entered from its start.
    pub open spec fn entering_servers(self, now: u64) -> Step {
        Step {
            menu: MenuModel {
                selected_server: None,
                ..self.menu.entered(Screen::ServerList, now)
            },
            out: self.out.doing(EffectView::ResetScroll),
        }
    }
}

/// The frame after the three buttons. Playing needs an account: without one the
/// player is asked to sign in.
pub open spec fn main_buttons_done(s: Step, hits: MainHits, clicked: bool, now: u64) -> Step {
    let s1 = if clicked && hits.singleplayer {
        if s.menu.signed_in {
            s.sounding()
        } else {
            s.sounding().entering(
                Screen::AuthPrompt { pending: AuthPending::Singleplayer },
                now,
            )
        }
    } else {
        s
    };
    let s2 = if clicked && hits.multiplayer {
        if s1.menu.signed_in {
            s1.sounding().entering_servers(now)
        } else {
            s1.sounding().entering(Screen::AuthPrompt { pending: AuthPending::Multiplayer }, now)
        }
    } else {
        s1
    };
    if clicked && hits.quit {
        Step { out: s2.sounding().out.asking(ActionView::Quit), ..s2 }
    } else {
        s2
    }
}

/// The frame after the icons. Opening one dropdown closes the other.
pub open spec fn icons_done(s: Step, hits: MainHits, clicked: bool, now: u64) -> Step {
    let s1 = if clicked && hits.user_icon {
        if s.menu.signed_in {
            s.sounding()
        } else {
            s.sounding().entering(Screen::AuthPrompt { pending: AuthPending::Nothing }, now)
        }
    } else {
        s
    };
    let s2 = if clicked && hits.link_icon {
        let open = !s1.menu.links_open;
        Step {
            menu: MenuModel {
                links_open: open,
                theme_open: s1.menu.theme_open && !open,
                ..s1.menu
            },
            ..s1.sounding()
        }
    } else {
        s1
    };
    let s3 = if clicked && hits.gear_icon {
        s2.sounding().entering(Screen::Options, now)
    } else {
        s2
    };
    if clicked && hits.brush_icon {
        let open = !s3.menu.theme_open;
        Step {
            menu: MenuModel {
                theme_open: open,
                links_open: s3.menu.links_open && !open,
                ..s3.menu
            },
            ..s3.sounding()
        }
    } else {
        s3
    }
}

/// The frame after the links, if they are open: a click opens a page and closes
/// them, and so does a click beside them.
pub open spec fn links_done(s: Step, hits: MainHits, clicked: bool) -> Step {
    if s.menu.links_open {
        let e0 = s.out.effects;
        let e1 = if clicked && hits.website {
            e0.push(EffectView::OpenLink(Link::Website))
        } else {
            e0
        };
        let e2 = if clicked && hits.discord {
            e1.push(EffectView::OpenLink(Link::Discord))
        } else {
            e1
        };
        let e3 = if clicked && hits.github {
            e2.push(EffectView::OpenLink(Link::GitHub))
        } else {
            e2
        };
        let over = hits.website || hits.discord || hits.github;
        Step {
            menu: MenuModel { links_open: !(clicked && (over || hits.beside_links)), ..s.menu },
            out: ResultView { effects: e3, ..s.out }.pointing(over),
        }
    } else {
        s
    }
}

/// The change to another theme that begins at `now`.
pub open spec fn changing_to(target: PanoramaTheme, now: u64) -> Option<ThemeTransition> {
    Some(ThemeTransition { start: now, target, reloaded: false, open_start: None })
}

/// The frame after the themes, if they are open: a click on another theme begins
/// a change to it, and a click on one or beside them closes them.
pub open spec fn themes_done(s: Step, hits: MainHits, clicked: bool, now: u64) -> Step {
    if s.menu.theme_open {
        let t1 = if clicked && hits.pomme_theme && s.menu.theme != PanoramaTheme::Pomme {
            changing_to(PanoramaTheme::Pomme, now)
        } else {
            s.menu.transition
        };
        let t2 = if clicked && hits.default_theme && s.menu.theme != PanoramaTheme::Default {
            changing_to(PanoramaTheme::Default, now)
        } else {
            t1
        };
        let over = hits.pomme_theme || hits.default_theme;
        Step {
            menu: MenuModel {
                transition: t2,
                theme_open: !(clicked && (over || hits.beside_themes)),
                ..s.menu
            },
            out: s.out.pointing(over),
        }
    } else {
        s
    }
}

/// The frame after a step of a change of theme: once the old picture is closed
/// the new one is asked for, once; and once that is open the change ends.
pub open spec fn transition_done(s: Step, now: u64) -> Step {
    match s.menu.transition {
        None => s,
        Some(t) => {
            let reload = elapsed(t.start, now) >= 500 && !t.reloaded;
            let open = t.open_start matches Some(o) && elapsed(o, now) >= 500;
            Step {
                menu: MenuModel {
                    theme: if reload {
                        t.target
                    } else {
                        s.menu.theme
                    },
                    transition: if open {
                        None
                    } else {
                        Some(ThemeTransition { reloaded: t.reloaded || reload, ..t })
                    },
                    ..s.menu
                },
                out: if reload {
                    s.out.asking(ActionView::ChangeTheme(t.target))
                } else {
                    s.out
                },
            }
        },
    }
}

/// A frame of the title screen.
pub open spec fn main_frame(menu: MenuModel, input: MenuInput, hits: MainHits, now: u64) -> Step {
    let over = hits.singleplayer || hits.multiplayer || hits.quit || hits.user_icon
        || hits.link_icon || hits.gear_icon || hits.brush_icon;
    let s0 = Step { menu, out: nothing(1).pointing(over) };
    let s1 = main_buttons_done(s0, hits, input.clicked, now);
    let s2 = icons_done(s1, hits, input.clicked, now);
    let s3 = links_done(s2, hits, input.clicked);
    let s4 = themes_done(s3, hits, input.clicked, now);
    transition_done(s4, now)
}

impl MainMenu {
    /// Enters the server list from its start.
    pub fn enter_servers(&mut self, result: &mut MainMenuResult, now: u64)
        requires
            old(self).wf(),
        ensures
            final(self).wf(),
            step_of(*final(self), *final(result)) == step_of(
                *old(self),
                *old(result),
            ).entering_servers(now),
    {
        self.set_screen(Screen::ServerList, now);
        result.add_effect(Effect::ResetScroll);
        self.selected_server = None;
    }

    fn press_main(&mut self, result: &mut MainMenuResult, hits: &MainHits, clicked: bool, now: u64)
        requires
            old(self).wf(),
        ensures
            final(self).wf(),
            step_of(*final(self), *final(result)) == main_buttons_done(
                step_of(*old(self), *old(result)),
                *hits,
                clicked,
                now,
            ),
    {
        if clicked && hits.singleplayer {
            result.clicked_button = true;
            if !self.signed_in {
                self.set_screen(Screen::AuthPrompt { pending: AuthPending::Singleplayer }, now);
            }
        }
        if clicked && hits.multiplayer {
            result.clicked_button = true;
            if self.signed_in {
                self.enter_servers(result, now);
            } else {
                self.set_screen(Screen::AuthPrompt { pending: AuthPending::Multiplayer }, now);
            }
        }
        if clicked && hits.quit {
            result.clicked_button = true;
            result.action = MenuAction::Quit;
        }
    }

    fn press_icons(&mut self, result: &mut MainMenuResult, hits: &MainHits, clicked: bool, now: u64)
        requires
            old(self).wf(),
        ensures
            final(self).wf(),
            step_of(*final(self), *final(result)) == icons_done(
                step_of(*old(self), *old(result)),
                *hits,
                clicked,
                now,
            ),
    {
        if clicked && hits.user_icon {
            result.clicked_button = true;
            if !self.signed_in {
                self.set_screen(Screen::AuthPrompt { pending: AuthPending::Nothing }, now);
            }
        }
        if clicked && hits.link_icon {
            result.clicked_button = true;
            self.links_open = !self.links_open;
            if self.links_open {
                self.theme_open = false;
            }
        }
        if clicked && hits.gear_icon {
            result.clicked_button = true;
            self.open_options(now);
        }
        if clicked && hits.brush_icon {
            result.clicked_button = true;
            self.theme_open = !self.theme_open;
            if self.theme_open {
                self.links_open = false;
            }
        }
    }

    fn press_links(&mut self, result: &mut MainMenuResult, hits: &MainHits, clicked: bool)
        requires
            old(self).wf(),
        ensures
            final(self).wf(),
            step_of(*final(self), *final(result)) == links_done(
                step_of(*old(self), *old(result)),
                *hits,
                clicked,
            ),
    {
        if self.links_open {
            if clicked && hits.website {
                result.add_effect(Effect::OpenLink(Link::Website));
            }
            if clicked && hits.discord {
                result.add_effect(Effect::OpenLink(Link::Discord));
            }
            if clicked && hits.github {
                result.add_effect(Effect::OpenLink(Link::GitHub));
            }
            let over: bool = hits.website || hits.discord || hits.github;
            if over {
                result.cursor_pointer = true;
            }
            if clicked && (over || hits.beside_links) {
                self.links_open = false;
            }
        }
    }

    fn press_themes(
        &mut self,
        result: &mut MainMenuResult,
        hits: &MainHits,
        clicked: bool,
        now: u64,
    )
        requires
            old(self).wf(),
        ensures
            final(self).wf(),
            step_of(*final(self), *final(result)) == themes_done(
                step_of(*old(self), *old(result)),
                *hits,
                clicked,
                now,
            ),
    {
        if self.theme_open {
            if clicked && hits.pomme_theme && self.theme != PanoramaTheme::Pomme {
                self.transition =
                Some(
                    ThemeTransition {
                        start: now,
                        target: PanoramaTheme::Pomme,
                        reloaded: false,
                        open_start: None,
                    },
                );
            }
            if clicked && hits.default_theme && self.theme != PanoramaTheme::Default {
                self.transition =
                Some(
                    ThemeTransition {
                        start: now,
                        target: PanoramaTheme::Default,
                        reloaded: false,
                        open_start: None,
                    },
                );
            }
            let over: bool = hits.pomme_theme || hits.default_theme;
            if over {
                result.cursor_pointer = true;
            }
            if clicked && (over || hits.beside_themes) {
                self.theme_open = false;
            }
        }
    }

    /// A step of a change of theme.
    pub fn advance_transition(&mut self, result: &mut MainMenuResult, now: u64)
        requires
            old(self).wf(),
        ensures
            final(self).wf(),
            step_of(*final(self), *final(result)) == transition_done(
                step_of(*old(self), *old(result)),
                now,
            ),
    {
        if let Some(t) = self.transition {
            let mut next = t;
            if elapsed_ms(t.start, now) >= CLOSE_MS && !t.reloaded {
                next.reloaded = true;
                self.theme = t.target;
                result.action = MenuAction::ChangeTheme(t.target);
            }
            self.transition = Some(next);
            if let Some(o) = t.open_start {
                if elapsed_ms(o, now) >= OPEN_MS {
                    self.transition = None;
                }
            }
        }
    }

    /// A frame of the title screen, given what the cursor is over.
    pub fn build_main(&mut self, input: &MenuInput, hits: &MainHits, now: u64) -> (result:
        MainMenuResult)
        requires
            old(self).wf(),
        ensures
            final(self).wf(),
            step_of(*final(self), result) == main_frame(old(self)@, *input, *hits, now),
    {
        let mut result = MainMenuResult::new(1);
        result.cursor_pointer =
        hits.singleplayer || hits.multiplayer || hits.quit || hits.user_icon || hits.link_icon
            || hits.gear_icon || hits.brush_icon;
        self.press_main(&mut result, hits, input.clicked, now);
        self.press_icons(&mut result, hits, input.clicked, now);
        self.press_links(&mut result, hits, input.clicked);
        self.press_themes(&mut result, hits, input.clicked, now);
        self.advance_transition(&mut result, now);
        result
    }
}

/// The two dropdowns of the title screen are never open together.
pub proof fn dropdowns_exclude_each_other(
    menu: MenuModel,
    input: MenuInput,
    hits: MainHits,
    now: u64,
)
    requires
        !(menu.links_open && menu.theme_open),
    ensures
        ({
            let after = main_frame(menu, input, hits, now).menu;
            !(after.links_open && after.theme_open)
        }),
{
}

/// A change of theme asks for the new picture once: after it was asked for it is
/// not asked for again.
pub proof fn theme_is_reloaded_once(s: Step, now: u64, later: u64, out: ResultView)
    requires
        s.menu.transition is Some,
        out.action is Nothing,
        elapsed(s.menu.transition.unwrap().start, now) >= 500,
    ensures
        ({
            let first = transition_done(s, now).menu;
            let second = transition_done(Step { menu: first, out }, later);
            second.out.action is Nothing && second.menu.theme == first.theme
        }),
{
}

} // verus!
