//! What holds of the title screen, of signing in, and of the resource pack
//! screen.

use crate::menu::auth::{auth_frame, prompt_frame, AuthStatus};
use crate::menu::main_screen::{main_frame, transition_done, MainHits};
use crate::menu::packs::{disabling, enabling, offered, offered_packs, packs_frame, PackHits};
use crate::menu::state::{
    nothing, ActionView, AuthPending, EffectView, Link, MenuInput, MenuModel, PackInfo,
    PackSource, PanoramaTheme, Screen, Step, ThemeTransition,
};
use crate::strings::{holds, holds_at, lowered};
use vstd::prelude::*;

verus! {

/// The cursor over nothing of the title screen.
pub open spec fn no_hits() -> MainHits {
    MainHits {
        singleplayer: false,
        multiplayer: false,
        quit: false,
        user_icon: false,
        link_icon: false,
        gear_icon: false,
        brush_icon: false,
        website: false,
        discord: false,
        github: false,
        beside_links: false,
        pomme_theme: false,
        default_theme: false,
        beside_themes: false,
    }
}

/// Without an account, playing and the account icon ask to sign in, and remember
/// what for. With one, Multiplayer shows the server list from its start, with no
/// server chosen.
pub proof fn playing_needs_an_account(menu: MenuModel, input: MenuInput, now: u64)
    requires
        input.clicked,
        menu.transition is None,
        !menu.links_open,
        !menu.theme_open,
    ensures
        ({
            let single = main_frame(menu, input, MainHits { singleplayer: true, ..no_hits() }, now);
            let multi = main_frame(menu, input, MainHits { multiplayer: true, ..no_hits() }, now);
            let user = main_frame(menu, input, MainHits { user_icon: true, ..no_hits() }, now);
            &&& !menu.signed_in ==> {
                &&& single.menu.screen == Screen::AuthPrompt { pending: AuthPending::Singleplayer }
                &&& multi.menu.screen == Screen::AuthPrompt { pending: AuthPending::Multiplayer }
                &&& user.menu.screen == Screen::AuthPrompt { pending: AuthPending::Nothing }
            }
            &&& menu.signed_in ==> {
                &&& single.menu == menu
                &&& user.menu == menu
                &&& multi.menu.screen == Screen::ServerList
                &&& multi.menu.selected_server is None
                &&& multi.out.effects == seq![EffectView::ResetScroll]
            }
            &&& single.out.clicked_button && multi.out.clicked_button && user.out.clicked_button
            &&& single.out.action is Nothing && multi.out.action is Nothing
            &&& multi.menu.servers == menu.servers
        }),
{
}

/// The buttons and icons of the title screen do what they say: Quit asks to quit,
/// the gear opens the options, and the other two icons open and close their
/// dropdowns.
pub proof fn title_buttons_do_what_they_say(menu: MenuModel, input: MenuInput, now: u64)
    requires
        input.clicked,
        menu.transition is None,
        !menu.links_open,
        !menu.theme_open,
    ensures
        ({
            let quit = main_frame(menu, input, MainHits { quit: true, ..no_hits() }, now);
            let gear = main_frame(menu, input, MainHits { gear_icon: true, ..no_hits() }, now);
            let link = main_frame(menu, input, MainHits { link_icon: true, ..no_hits() }, now);
            let brush = main_frame(menu, input, MainHits { brush_icon: true, ..no_hits() }, now);
            let none = main_frame(menu, input, no_hits(), now);
            &&& quit.out.action is Quit
            &&& quit.menu == menu
            &&& gear.menu.screen == Screen::Options
            &&& gear.out.action is Nothing
            &&& link.menu == MenuModel { links_open: true, ..menu }
            &&& brush.menu == MenuModel { theme_open: true, ..menu }
            &&& none.menu == menu
            &&& none.out.action is Nothing
            &&& none.out.effects.len() == 0
            &&& !none.out.cursor_pointer
            &&& !none.out.clicked_button
            &&& quit.out.cursor_pointer && gear.out.cursor_pointer && link.out.cursor_pointer
                && brush.out.cursor_pointer
            &&& quit.out.clicked_button && gear.out.clicked_button && link.out.clicked_button
                && brush.out.clicked_button
        }),
{
}

/// A link opens its own page and closes the dropdown, as a click beside it does.
pub proof fn links_open_their_pages(menu: MenuModel, input: MenuInput, now: u64)
    requires
        input.clicked,
        menu.transition is None,
        menu.links_open,
        !menu.theme_open,
    ensures
        ({
            let website = main_frame(menu, input, MainHits { website: true, ..no_hits() }, now);
            let discord = main_frame(menu, input, MainHits { discord: true, ..no_hits() }, now);
            let github = main_frame(menu, input, MainHits { github: true, ..no_hits() }, now);
            let beside = main_frame(menu, input, MainHits { beside_links: true, ..no_hits() }, now);
            let inside = main_frame(menu, input, no_hits(), now);
            let closed = MenuModel { links_open: false, ..menu };
            &&& website.out.effects == seq![EffectView::OpenLink(Link::Website)]
            &&& discord.out.effects == seq![EffectView::OpenLink(Link::Discord)]
            &&& github.out.effects == seq![EffectView::OpenLink(Link::GitHub)]
            &&& beside.out.effects.len() == 0
            &&& website.menu == closed && discord.menu == closed && github.menu == closed
                && beside.menu == closed
            &&& inside.menu == menu && inside.out.effects.len() == 0
        }),
{
}

/// A click on another theme begins a change to it; after half a second the new
/// picture is asked for, and the theme is the new one from then on. A click on the
/// theme in use changes nothing but closes the dropdown.
pub proof fn themes_change_after_a_while(
    menu: MenuModel,
    input: MenuInput,
    theme: PanoramaTheme,
    now: u64,
    then: u64,
)
    requires
        input.clicked,
        menu.transition is None,
        menu.theme_open,
        !menu.links_open,
        now <= then,
    ensures
        ({
            let hits = if theme == PanoramaTheme::Pomme {
                MainHits { pomme_theme: true, ..no_hits() }
            } else {
                MainHits { default_theme: true, ..no_hits() }
            };
            let first = main_frame(menu, input, hits, now);
            let later = transition_done(
                Step { menu: first.menu, out: nothing(1) },
                then,
            );
            &&& !first.menu.theme_open
            &&& first.menu.theme == menu.theme
            &&& first.out.action is Nothing
            &&& menu.theme == theme ==> first.menu == MenuModel { theme_open: false, ..menu }
            &&& menu.theme != theme && then - now >= 500 ==> later.menu.theme == theme
                && later.out.action == ActionView::ChangeTheme(theme)
            &&& menu.theme != theme && then - now < 500 ==> later.menu.theme == menu.theme
                && later.out.action is Nothing
        }),
{
}

/// A change of theme ends half a second after the new picture began to open, and
/// not before.
pub proof fn a_change_of_theme_ends(s: Step, t: ThemeTransition, opened: u64, now: u64)
    requires
        s.menu.transition == Some(t),
        t.open_start == Some(opened),
        t.reloaded,
        opened <= now,
    ensures
        transition_done(s, now).menu.transition is None <==> now - opened >= 500,
        transition_done(s, now).menu.theme == s.menu.theme,
        transition_done(s, now).out == s.out,
{
}

/// Asking to sign in keeps what it is for: Sign In starts it and goes on to waiting
/// for the same purpose; Back and the escape key return to the title screen.
pub proof fn signing_in_keeps_its_purpose(
    menu: MenuModel,
    input: MenuInput,
    over_sign_in: bool,
    over_back: bool,
    now: u64,
    pending: AuthPending,
)
    requires
        menu.screen == (Screen::AuthPrompt { pending }),
        !(over_sign_in && over_back),
    ensures
        ({
            let s = prompt_frame(menu, input, over_sign_in, over_back, now);
            &&& s.menu.signed_in == menu.signed_in
            &&& s.menu.username == menu.username
            &&& s.menu.servers == menu.servers
            &&& if input.escape || (over_back && input.clicked) {
                s.menu.screen == Screen::Main && s.out.effects.len() == 0
            } else if over_sign_in && input.clicked {
                s.menu.screen == (Screen::Auth { pending }) && s.out.effects == seq![
                    EffectView::StartAuth,
                ]
            } else {
                s.menu == menu && s.out.effects.len() == 0
            }
        }),
{
}

/// A success signs the player in under the name that came back, and takes them to
/// the server list if that was what signing in was for, else to the title screen.
/// Nothing else signs anybody in.
pub proof fn success_signs_in(
    menu: MenuModel,
    input: MenuInput,
    status: AuthStatus,
    over_button: bool,
    now: u64,
    pending: AuthPending,
)
    requires
        menu.screen == (Screen::Auth { pending }),
    ensures
        ({
            let s = auth_frame(menu, input, status, over_button, now);
            match status {
                AuthStatus::Success(name) => {
                    &&& s.menu.signed_in
                    &&& s.menu.username == name@
                    &&& s.menu.screen == if pending == AuthPending::Multiplayer {
                        Screen::ServerList
                    } else {
                        Screen::Main
                    }
                    &&& s.out.effects[0] == EffectView::ResetAuth
                    &&& s.out.effects.len() == if pending == AuthPending::Multiplayer {
                        2nat
                    } else {
                        1nat
                    }
                },
                _ => {
                    &&& s.menu.signed_in == menu.signed_in
                    &&& s.menu.username == menu.username
                    &&& if over_button && input.clicked {
                        s.menu.screen == Screen::Main && s.out.effects == seq![
                            EffectView::ResetAuth,
                        ]
                    } else {
                        s.menu == menu && s.out.effects.len() == 0 && s.out.cursor_pointer
                            == over_button
                    }
                },
            }
        }),
{
}

/// Whether a pack can be found: it is not in use, and the search is empty or stands
/// somewhere in its name or its description, without regard to case.
pub open spec fn is_found(pack: PackInfo, search: Seq<char>) -> bool {
    let wanted = lowered(search);
    !pack.enabled && (wanted.len() == 0 || exists|at: int|
        #![trigger holds_at(lowered(pack.name@), wanted, at)]
        #![trigger holds_at(lowered(pack.description@), wanted, at)]
        holds_at(lowered(pack.name@), wanted, at) || holds_at(
            lowered(pack.description@),
            wanted,
            at,
        ))
}

/// The packs that are offered are those that can be found, each once, in their
/// order.
pub proof fn offered_packs_are_those_found(packs: Seq<PackInfo>, search: Seq<char>, n: nat)
    requires
        n <= packs.len() <= usize::MAX,
    ensures
        ({
            let places = offered_packs(packs, search, n);
            &&& forall|i: int|
                0 <= i < places.len() ==> (#[trigger] places[i]) < n && is_found(
                    packs[places[i] as int],
                    search,
                )
            &&& forall|i: int, j: int|
                0 <= i < j < places.len() ==> (#[trigger] places[i]) < (#[trigger] places[j])
            &&& forall|p: int|
                0 <= p < n && is_found(#[trigger] packs[p], search) ==> places.contains(p as usize)
        }),
    decreases n,
{
    let places = offered_packs(packs, search, n);
    if n > 0 {
        let m = (n - 1) as nat;
        offered_packs_are_those_found(packs, search, m);
        let before = offered_packs(packs, search, m);
        lemma_found(packs[m as int], search);
        assert forall|p: int| 0 <= p < n && is_found(#[trigger] packs[p], search) implies
            places.contains(p as usize) by {
            if p < m {
                let i = before.index_of(p as usize);
                assert(places[i] == p);
            } else {
                assert(places[before.len() as int] == p);
            }
        }
    }
}

proof fn lemma_found(pack: PackInfo, search: Seq<char>)
    ensures
        is_found(pack, search) <==> offered(pack, search),
{
    let wanted = lowered(search);
    if offered(pack, search) && wanted.len() > 0 {
        if holds(lowered(pack.name@), wanted) {
            let at = choose|at: int| holds_at(lowered(pack.name@), wanted, at);
            assert(holds_at(lowered(pack.name@), wanted, at));
        } else {
            let at = choose|at: int| holds_at(lowered(pack.description@), wanted, at);
            assert(holds_at(lowered(pack.description@), wanted, at));
        }
    }
}

/// A click on an offered pack asks for that pack to be used; a click on a selected
/// pack asks for it to be left out, unless it is a server's. Either way the
/// pictures are loaded anew. A click on no pack asks for nothing.
pub proof fn clicks_ask_for_the_pack_of_the_row(
    menu: MenuModel,
    input: MenuInput,
    hits: PackHits,
    row: usize,
    now: u64,
)
    requires
        input.clicked,
        !input.escape,
        !hits.done,
        menu.available_packs.len() <= usize::MAX,
    ensures
        ({
            let s = packs_frame(menu, input, hits, now);
            let places = offered_packs(
                menu.available_packs,
                s.menu.fields.pack_search,
                menu.available_packs.len(),
            );
            &&& hits.available@ == seq![row] && hits.selected@.len() == 0 && row < places.len()
                ==> s.menu.pack_toggle == Some(
                (menu.available_packs[places[row as int] as int].name@, true),
            ) && s.menu.reload_assets
            &&& hits.available@.len() == 0 && hits.selected@ == seq![row] && row
                < menu.active_packs.len() ==> if menu.active_packs[row as int].source
                == PackSource::Server {
                s.menu.pack_toggle == menu.pack_toggle && s.menu.reload_assets == menu.reload_assets
            } else {
                s.menu.pack_toggle == Some((menu.active_packs[row as int].name@, false))
                    && s.menu.reload_assets
            }
            &&& hits.available@.len() == 0 && hits.selected@.len() == 0 ==> s.menu.pack_toggle
                == menu.pack_toggle && s.menu.reload_assets == menu.reload_assets
            &&& s.menu.active_packs == menu.active_packs
            &&& s.menu.available_packs == menu.available_packs
            &&& s.menu.screen == menu.screen
            &&& hits.folder ==> s.out.effects == seq![EffectView::OpenPackFolder]
            &&& !hits.folder ==> s.out.effects.len() == 0
        }),
{
    reveal_with_fuel(enabling, 2);
    reveal_with_fuel(disabling, 2);
    let s = packs_frame(menu, input, hits, now);
    if hits.available@ == seq![row] {
        assert(hits.available@[0] == row);
    }
    if hits.selected@ == seq![row] {
        assert(hits.selected@[0] == row);
    }
}

/// The resource pack screen is left by Done and by the escape key; the search is
/// then forgotten. No pack is asked for without a click.
pub proof fn leaving_the_packs_forgets_the_search(
    menu: MenuModel,
    input: MenuInput,
    hits: PackHits,
    now: u64,
)
    ensures
        ({
            let s = packs_frame(menu, input, hits, now);
            let left = input.escape || (input.clicked && hits.done);
            &&& left ==> s.menu.screen == Screen::Options && s.menu.fields.pack_search.len() == 0
            &&& !left ==> s.menu.screen == menu.screen
            &&& input.escape || !input.clicked ==> s.menu.pack_toggle == menu.pack_toggle
                && s.menu.reload_assets == menu.reload_assets && s.out.effects.len() == 0
            &&& s.out.action is Nothing
            &&& s.menu.servers == menu.servers
        }),
{
}

/// The cursor points at what can be clicked: at the buttons and icons of the title
/// screen, and at the items of a dropdown while it is open. Nothing happens without
/// a click.
pub proof fn the_cursor_points_on_the_title_screen(
    menu: MenuModel,
    input: MenuInput,
    hits: MainHits,
    now: u64,
)
    requires
        !input.clicked,
        menu.transition is None,
    ensures
        ({
            let s = main_frame(menu, input, hits, now);
            &&& s.menu == menu
            &&& s.out.effects.len() == 0
            &&& s.out.action is Nothing
            &&& !s.out.clicked_button
            &&& s.out.blur == 1
            &&& s.out.cursor_pointer == (hits.singleplayer || hits.multiplayer || hits.quit
                || hits.user_icon || hits.link_icon || hits.gear_icon || hits.brush_icon || (
            menu.links_open && (hits.website || hits.discord || hits.github)) || (menu.theme_open
                && (hits.pomme_theme || hits.default_theme)))
        }),
{
}

/// On the screen for signing in and on that of the packs the cursor points at the
/// buttons, and at the packs that a click would use or leave out.
pub proof fn the_cursor_points_at_packs(
    menu: MenuModel,
    input: MenuInput,
    hits: PackHits,
    over_sign_in: bool,
    over_back: bool,
    now: u64,
)
    requires
        !input.escape,
        hits.available@.len() == 0,
        hits.selected@.len() <= 1,
    ensures
        ({
            let packs = packs_frame(menu, input, hits, now);
            let prompt = prompt_frame(menu, input, over_sign_in, over_back, now);
            let over_pack = hits.selected@.len() == 1 && hits.selected@[0] < menu.active_packs.len()
                && menu.active_packs[hits.selected@[0] as int].source != PackSource::Server;
            &&& packs.out.cursor_pointer == (hits.folder || hits.done || over_pack)
            &&& packs.out.blur == 2
            &&& menu.screen is AuthPrompt ==> prompt.out.cursor_pointer == (over_sign_in
                || over_back) && prompt.out.blur == 2
        }),
{
    if hits.selected@.len() == 1 {
        assert(hits.selected@[0] == hits.selected@[0]);
    }
}

} // verus!
