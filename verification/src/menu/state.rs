//! The menu's state and what every screen shares.

use crate::friends::{FriendAction, FriendChange};
use crate::menu::fields::{FieldModel, TextFields};
use crate::server_list::{EntryView, ServerList};
use vstd::prelude::*;

verus! {

/// The picture behind the title screen.
#[derive(Clone, Copy, Debug, PartialEq, Eq, Structural)]
pub enum PanoramaTheme {
    Pomme,
    Default,
}

/// A tab of the friends screen.
#[derive(Clone, Copy, Debug, PartialEq, Eq, Structural)]
pub enum FriendTab {
    Friends,
    Requests,
}

/// What signing in was asked for.
#[derive(Clone, Copy, Debug, PartialEq, Eq, Structural)]
pub enum AuthPending {
    Nothing,
    Singleplayer,
    Multiplayer,
}

/// The settings that are kept between runs, but for the volumes.
#[derive(Clone, Copy, Debug, PartialEq, Eq, Structural)]
pub struct Settings {
    pub gui_scale: u32,
    pub render_distance: u32,
    pub simulation_distance: u32,
    pub fov: u32,
    pub view_bobbing: bool,
    pub vsync: bool,
    pub show_online_status: bool,
    pub show_current_server: bool,
    pub skin_cape: bool,
    pub skin_jacket: bool,
    pub skin_left_sleeve: bool,
    pub skin_right_sleeve: bool,
    pub skin_left_pants: bool,
    pub skin_right_pants: bool,
    pub skin_hat: bool,
    pub skin_main_hand_right: bool,
}

/// The field of view where none is saved.
pub fn default_fov() -> (fov: u32)
    ensures
        fov == 70,
{
    70
}

/// A switch that nothing is saved for is on.
pub fn default_true() -> (on: bool)
    ensures
        on,
{
    true
}

/// The settings of a first run.
pub open spec fn first_settings() -> Settings {
    Settings {
        gui_scale: 0,
        render_distance: 12,
        simulation_distance: 12,
        fov: 70,
        view_bobbing: true,
        vsync: true,
        show_online_status: true,
        show_current_server: true,
        skin_cape: true,
        skin_jacket: true,
        skin_left_sleeve: true,
        skin_right_sleeve: true,
        skin_left_pants: true,
        skin_right_pants: true,
        skin_hat: true,
        skin_main_hand_right: true,
    }
}

impl Default for Settings {
    fn default() -> (settings: Self)
        ensures
            settings == first_settings(),
    {
        Settings {
            gui_scale: 0,
            render_distance: 12,
            simulation_distance: 12,
            fov: default_fov(),
            view_bobbing: default_true(),
            vsync: true,
            show_online_status: true,
            show_current_server: true,
            skin_cape: true,
            skin_jacket: true,
            skin_left_sleeve: true,
            skin_right_sleeve: true,
            skin_left_pants: true,
            skin_right_pants: true,
            skin_hat: true,
            skin_main_hand_right: true,
        }
    }
}

/// A screen of the menu.
pub enum Screen {
    Main,
    ServerList,
    Friends,
    AuthPrompt { pending: AuthPending },
    Auth { pending: AuthPending },
    ConfirmDelete(usize),
    DirectConnect,
    AddServer,
    EditServer(usize),
    Disconnected(String),
    Options,
    OptionsOnline,
    OptionsVideo,
    OptionsSkinCustomization,
    OptionsMusicSounds,
    OptionsControls,
    OptionsKeybinds,
    OptionsLanguage,
    OptionsChatSettings,
    OptionsResourcePacks,
    OptionsAccessibility,
    OptionsTelemetry,
    OptionsCredits,
}

impl Screen {
    /// The same screen.
    pub fn clone_screen(&self) -> (screen: Self)
        ensures
            screen == *self,
    {
        match self {
            Screen::Main => Screen::Main,
            Screen::ServerList => Screen::ServerList,
            Screen::Friends => Screen::Friends,
            Screen::AuthPrompt { pending } => Screen::AuthPrompt { pending: *pending },
            Screen::Auth { pending } => Screen::Auth { pending: *pending },
            Screen::ConfirmDelete(i) => Screen::ConfirmDelete(*i),
            Screen::DirectConnect => Screen::DirectConnect,
            Screen::AddServer => Screen::AddServer,
            Screen::EditServer(i) => Screen::EditServer(*i),
            Screen::Disconnected(reason) => Screen::Disconnected(reason.clone()),
            Screen::Options => Screen::Options,
            Screen::OptionsOnline => Screen::OptionsOnline,
            Screen::OptionsVideo => Screen::OptionsVideo,
            Screen::OptionsSkinCustomization => Screen::OptionsSkinCustomization,
            Screen::OptionsMusicSounds => Screen::OptionsMusicSounds,
            Screen::OptionsControls => Screen::OptionsControls,
            Screen::OptionsKeybinds => Screen::OptionsKeybinds,
            Screen::OptionsLanguage => Screen::OptionsLanguage,
            Screen::OptionsChatSettings => Screen::OptionsChatSettings,
            Screen::OptionsResourcePacks => Screen::OptionsResourcePacks,
            Screen::OptionsAccessibility => Screen::OptionsAccessibility,
            Screen::OptionsTelemetry => Screen::OptionsTelemetry,
            Screen::OptionsCredits => Screen::OptionsCredits,
        }
    }

    /// Whether this is one of the option screens.
    pub open spec fn in_options(self) -> bool {
        ||| self is Options
        ||| self is OptionsOnline
        ||| self is OptionsVideo
        ||| self is OptionsSkinCustomization
        ||| self is OptionsMusicSounds
        ||| self is OptionsControls
        ||| self is OptionsKeybinds
        ||| self is OptionsLanguage
        ||| self is OptionsChatSettings
        ||| self is OptionsResourcePacks
        ||| self is OptionsAccessibility
        ||| self is OptionsTelemetry
        ||| self is OptionsCredits
    }
}

/// A change of theme under way: the old picture closes, the new one is loaded,
/// and it opens. Times are in milliseconds.
#[derive(Clone, Copy, Debug, PartialEq, Eq, Structural)]
pub struct ThemeTransition {
    pub start: u64,
    pub target: PanoramaTheme,
    pub reloaded: bool,
    pub open_start: Option<u64>,
}

/// A count that is watched until it has settled.
#[derive(Clone, Copy, Debug, PartialEq, Eq, Structural)]
pub struct Settling {
    pub last: usize,
    pub since: Option<u64>,
}

/// The milliseconds from `then` to `now`, none where `now` is not later.
pub open spec fn elapsed(then: u64, now: u64) -> int {
    if now >= then {
        now - then
    } else {
        0
    }
}

/// The milliseconds from `then` to `now`.
pub fn elapsed_ms(then: u64, now: u64) -> (ms: u64)
    ensures
        ms == elapsed(then, now),
{
    if now >= then {
        now - then
    } else {
        0
    }
}

/// How long a count has to stay the same before it has settled.
pub const SETTLE_MS: u64 = 500;

/// Whether a count has settled: it has not changed now, and its last change is
/// long enough ago and not reported yet.
pub open spec fn settled(watch: Settling, count: usize, now: u64) -> bool {
    count == watch.last && (watch.since matches Some(t) && elapsed(t, now) >= 500)
}

/// The watch after a look at the count.
pub open spec fn watched(watch: Settling, count: usize, now: u64) -> Settling {
    if count != watch.last {
        Settling { last: count, since: Some(now) }
    } else if settled(watch, count, now) {
        Settling { last: watch.last, since: None }
    } else {
        watch
    }
}

/// Looks at a count and returns whether it has settled. Each change is reported
/// once, after it has held for a while.
pub fn atlas_dirty(count: usize, watch: &mut Settling, now: u64) -> (dirty: bool)
    ensures
        dirty == settled(*old(watch), count, now),
        *final(watch) == watched(*old(watch), count, now),
{
    if count != watch.last {
        watch.last = count;
        watch.since = Some(now);
        false
    } else if let Some(t) = watch.since {
        if elapsed_ms(t, now) >= SETTLE_MS {
            watch.since = None;
            true
        } else {
            false
        }
    } else {
        false
    }
}

/// A settled count is not reported again before it changes.
pub proof fn settled_is_reported_once(watch: Settling, count: usize, now: u64, later: u64)
    requires
        settled(watch, count, now),
    ensures
        !settled(watched(watch, count, now), count, later),
{
}

/// A resource pack's fit to the game's version.
#[derive(Clone, Copy, Debug, PartialEq, Eq, Structural)]
pub enum PackCompat {
    Compatible,
    TooOld,
    TooNew,
}

/// Where a resource pack comes from.
#[derive(Clone, Copy, Debug, PartialEq, Eq, Structural)]
pub enum PackSource {
    Local,
    Server,
}

/// A resource pack.
pub struct PackInfo {
    pub name: String,
    pub description: String,
    pub enabled: bool,
    pub compat: PackCompat,
    pub source: PackSource,
}

/// A slider of an option screen, by its label's start.
#[derive(Clone, Copy, Debug, PartialEq, Eq, Structural)]
pub enum SliderId {
    Fov,
    RenderDistance,
    SimulationDistance,
    MasterVolume,
    Music,
    Jukebox,
    Weather,
    Blocks,
    Hostile,
    Friendly,
    Players,
    Ambient,
    Voice,
    Ui,
}

/// What the menu asks the game to do.
pub enum MenuAction {
    Nothing,
    Connect { server: String, username: String },
    ChangeTheme(PanoramaTheme),
    Quit,
}

/// What the menu asks the game to do, as values.
pub enum ActionView {
    Nothing,
    Connect { server: Seq<char>, username: Seq<char> },
    ChangeTheme(PanoramaTheme),
    Quit,
}

impl View for MenuAction {
    type V = ActionView;

    open spec fn view(&self) -> ActionView {
        match self {
            MenuAction::Nothing => ActionView::Nothing,
            MenuAction::Connect { server, username } => ActionView::Connect {
                server: server@,
                username: username@,
            },
            MenuAction::ChangeTheme(theme) => ActionView::ChangeTheme(*theme),
            MenuAction::Quit => ActionView::Quit,
        }
    }
}

/// A page that the title screen links to.
#[derive(Clone, Copy, Debug, PartialEq, Eq, Structural)]
pub enum Link {
    Website,
    Discord,
    GitHub,
}

/// What the menu has done outside of itself.
pub enum Effect {
    SaveServers,
    SaveSettings,
    /// Pings every saved server.
    PingAll,
    /// Pings one address.
    Ping(String),
    RefreshFriends,
    ChangeFriend(FriendAction),
    ForgetFriendError,
    CopyText(String),
    OpenLink(Link),
    OpenPackFolder,
    CycleDisplayMode,
    /// Scrolls the list to its start.
    ResetScroll,
    /// Starts signing in.
    StartAuth,
    /// Gives up signing in.
    ResetAuth,
}

/// What the menu has done outside of itself, as values.
pub enum EffectView {
    SaveServers,
    SaveSettings,
    PingAll,
    Ping(Seq<char>),
    RefreshFriends,
    ChangeFriend(FriendChange),
    ForgetFriendError,
    CopyText(Seq<char>),
    OpenLink(Link),
    OpenPackFolder,
    CycleDisplayMode,
    ResetScroll,
    StartAuth,
    ResetAuth,
}

impl View for Effect {
    type V = EffectView;

    open spec fn view(&self) -> EffectView {
        match self {
            Effect::SaveServers => EffectView::SaveServers,
            Effect::SaveSettings => EffectView::SaveSettings,
            Effect::PingAll => EffectView::PingAll,
            Effect::Ping(address) => EffectView::Ping(address@),
            Effect::RefreshFriends => EffectView::RefreshFriends,
            Effect::ChangeFriend(action) => EffectView::ChangeFriend(action@),
            Effect::ForgetFriendError => EffectView::ForgetFriendError,
            Effect::CopyText(text) => EffectView::CopyText(text@),
            Effect::OpenLink(link) => EffectView::OpenLink(*link),
            Effect::OpenPackFolder => EffectView::OpenPackFolder,
            Effect::CycleDisplayMode => EffectView::CycleDisplayMode,
            Effect::ResetScroll => EffectView::ResetScroll,
            Effect::StartAuth => EffectView::StartAuth,
            Effect::ResetAuth => EffectView::ResetAuth,
        }
    }
}

/// What a frame of the menu came to.
pub struct MainMenuResult {
    pub action: MenuAction,
    pub effects: Vec<Effect>,
    /// Whether the cursor is over something that can be clicked.
    pub cursor_pointer: bool,
    /// How strongly the background is blurred.
    pub blur: u32,
    /// Whether a button was clicked that makes a sound.
    pub clicked_button: bool,
}

/// What a frame of the menu came to, as values.
pub struct ResultView {
    pub action: ActionView,
    pub effects: Seq<EffectView>,
    pub cursor_pointer: bool,
    pub blur: int,
    pub clicked_button: bool,
}

/// The views of some effects.
pub open spec fn effect_views(effects: Seq<Effect>) -> Seq<EffectView> {
    Seq::new(effects.len(), |i: int| effects[i]@)
}

impl View for MainMenuResult {
    type V = ResultView;

    open spec fn view(&self) -> ResultView {
        ResultView {
            action: self.action@,
            effects: effect_views(self.effects@),
            cursor_pointer: self.cursor_pointer,
            blur: self.blur as int,
            clicked_button: self.clicked_button,
        }
    }
}

/// A frame in which nothing happened.
pub open spec fn nothing(blur: int) -> ResultView {
    ResultView {
        action: ActionView::Nothing,
        effects: Seq::empty(),
        cursor_pointer: false,
        blur,
        clicked_button: false,
    }
}

impl ResultView {
    /// With one more effect.
    pub open spec fn doing(self, effect: EffectView) -> ResultView {
        ResultView { effects: self.effects.push(effect), ..self }
    }

    /// With another action.
    pub open spec fn asking(self, action: ActionView) -> ResultView {
        ResultView { action, ..self }
    }

    /// With the cursor over something that can be clicked, if `over`.
    pub open spec fn pointing(self, over: bool) -> ResultView {
        ResultView { cursor_pointer: self.cursor_pointer || over, ..self }
    }
}

impl MainMenuResult {
    /// A frame in which nothing happened.
    pub fn new(blur: u32) -> (result: Self)
        ensures
            result@ == nothing(blur as int),
    {
        let result = MainMenuResult {
            action: MenuAction::Nothing,
            effects: Vec::new(),
            cursor_pointer: false,
            blur,
            clicked_button: false,
        };
        assert(result@.effects =~= Seq::<EffectView>::empty());
        result
    }

    /// Adds an effect.
    pub fn add_effect(&mut self, effect: Effect)
        ensures
            final(self)@ == old(self)@.doing(effect@),
    {
        let ghost before = self@;
        self.effects.push(effect);
        assert(self@.effects =~= before.effects.push(effect@));
    }
}

/// The input of a frame that does not depend on places.
pub struct MenuInput {
    pub clicked: bool,
    pub mouse_held: bool,
    pub typed_chars: Vec<char>,
    pub backspace: bool,
    pub enter: bool,
    pub escape: bool,
    pub tab: bool,
    pub f5: bool,
    pub select_all: bool,
    pub copy: bool,
    pub cut: bool,
    pub undo: bool,
    /// Whether the text to be cut has reached the clipboard.
    pub cut_written: bool,
}

/// The menu.
pub struct MainMenu {
    pub username: String,
    /// Whether an account is signed in.
    pub signed_in: bool,
    pub screen: Screen,
    pub server_list: ServerList,
    pub selected_server: Option<usize>,
    pub fields: TextFields,
    pub last_mp_ip: String,
    pub friend_tab: FriendTab,
    pub add_friend_name: String,
    /// The identifier and the name of a friend whose removal is to be confirmed.
    pub pending_remove: Option<(String, String)>,
    pub links_open: bool,
    pub theme_open: bool,
    /// Where the language and accessibility screens lead back to.
    pub settings_back: Screen,
    pub theme: PanoramaTheme,
    pub transition: Option<ThemeTransition>,
    pub last_click_time: u64,
    pub last_click_index: Option<usize>,
    pub settings: Settings,
    pub active_slider: Option<SliderId>,
    pub favicon_watch: Settling,
    pub face_watch: Settling,
    pub active_packs: Vec<PackInfo>,
    pub available_packs: Vec<PackInfo>,
    pub pack_toggle: Option<(String, bool)>,
    pub rescan_packs: bool,
    pub reload_assets: bool,
}

/// The menu, as values.
pub struct MenuModel {
    pub username: Seq<char>,
    pub signed_in: bool,
    pub screen: Screen,
    pub servers: Seq<EntryView>,
    pub selected_server: Option<usize>,
    pub fields: FieldModel,
    pub last_mp_ip: Seq<char>,
    pub friend_tab: FriendTab,
    pub add_friend_name: Seq<char>,
    pub pending_remove: Option<(Seq<char>, Seq<char>)>,
    pub links_open: bool,
    pub theme_open: bool,
    pub settings_back: Screen,
    pub theme: PanoramaTheme,
    pub transition: Option<ThemeTransition>,
    pub last_click_time: u64,
    pub last_click_index: Option<usize>,
    pub settings: Settings,
    pub active_slider: Option<SliderId>,
    pub favicon_watch: Settling,
    pub face_watch: Settling,
    pub active_packs: Seq<PackInfo>,
    pub available_packs: Seq<PackInfo>,
    pub pack_toggle: Option<(Seq<char>, bool)>,
    pub rescan_packs: bool,
    pub reload_assets: bool,
}

/// The view of a pair of texts that may be missing.
pub open spec fn pair_view(pair: Option<(String, String)>) -> Option<(Seq<char>, Seq<char>)> {
    match pair {
        Some((a, b)) => Some((a@, b@)),
        None => None,
    }
}

/// The view of a text and a switch that may be missing.
pub open spec fn toggle_view(toggle: Option<(String, bool)>) -> Option<(Seq<char>, bool)> {
    match toggle {
        Some((name, on)) => Some((name@, on)),
        None => None,
    }
}

impl View for MainMenu {
    type V = MenuModel;

    open spec fn view(&self) -> MenuModel {
        MenuModel {
            username: self.username@,
            signed_in: self.signed_in,
            screen: self.screen,
            servers: self.server_list@,
            selected_server: self.selected_server,
            fields: self.fields@,
            last_mp_ip: self.last_mp_ip@,
            friend_tab: self.friend_tab,
            add_friend_name: self.add_friend_name@,
            pending_remove: pair_view(self.pending_remove),
            links_open: self.links_open,
            theme_open: self.theme_open,
            settings_back: self.settings_back,
            theme: self.theme,
            transition: self.transition,
            last_click_time: self.last_click_time,
            last_click_index: self.last_click_index,
            settings: self.settings,
            active_slider: self.active_slider,
            favicon_watch: self.favicon_watch,
            face_watch: self.face_watch,
            active_packs: self.active_packs@,
            available_packs: self.available_packs@,
            pack_toggle: toggle_view(self.pack_toggle),
            rescan_packs: self.rescan_packs,
            reload_assets: self.reload_assets,
        }
    }
}

/// Two clicks within so many milliseconds are a double click.
pub const DOUBLE_CLICK_MS: u64 = 400;

impl MenuModel {
    pub open spec fn wf(self) -> bool {
        self.fields.wf()
    }

    /// The menu with another screen entered: no field has the focus, nothing is
    /// left to undo, and the pictures for the screen are gathered anew.
    pub open spec fn entered(self, screen: Screen, now: u64) -> MenuModel {
        MenuModel {
            screen,
            fields: self.fields.left(now),
            favicon_watch: Settling { last: usize::MAX, since: None },
            face_watch: Settling { last: usize::MAX, since: None },
            ..self
        }
    }
}

/// The menu and what its frame came to so far.
pub struct Step {
    pub menu: MenuModel,
    pub out: ResultView,
}

impl Step {
    /// With another screen entered.
    pub open spec fn entering(self, screen: Screen, now: u64) -> Step {
        Step { menu: self.menu.entered(screen, now), ..self }
    }

    /// With one more effect.
    pub open spec fn doing(self, effect: EffectView) -> Step {
        Step { out: self.out.doing(effect), ..self }
    }
}

/// The menu and its frame's result together.
pub open spec fn step_of(menu: MainMenu, result: MainMenuResult) -> Step {
    Step { menu: menu@, out: result@ }
}

impl MainMenu {
    pub open spec fn wf(&self) -> bool {
        self@.wf()
    }

    /// The menu of a player at the start, on the title screen.
    pub fn new(
        username: String,
        signed_in: bool,
        server_list: ServerList,
        settings: Settings,
        now: u64,
    ) -> (menu: Self)
        ensures
            menu.wf(),
            menu@ == (MenuModel {
                username: username@,
                signed_in,
                screen: Screen::Main,
                servers: server_list@,
                selected_server: None,
                fields: FieldModel::unused(now),
                last_mp_ip: Seq::empty(),
                friend_tab: FriendTab::Friends,
                add_friend_name: Seq::empty(),
                pending_remove: None,
                links_open: false,
                theme_open: false,
                settings_back: Screen::Options,
                theme: PanoramaTheme::Pomme,
                transition: None,
                last_click_time: now,
                last_click_index: None,
                settings,
                active_slider: None,
                favicon_watch: Settling { last: 0, since: None },
                face_watch: Settling { last: 0, since: None },
                active_packs: Seq::empty(),
                available_packs: Seq::empty(),
                pack_toggle: None,
                rescan_packs: false,
                reload_assets: false,
            }),
    {
        MainMenu {
            username,
            signed_in,
            screen: Screen::Main,
            server_list,
            selected_server: None,
            fields: TextFields::new(now),
            last_mp_ip: String::new(),
            friend_tab: FriendTab::Friends,
            add_friend_name: String::new(),
            pending_remove: None,
            links_open: false,
            theme_open: false,
            settings_back: Screen::Options,
            theme: PanoramaTheme::Pomme,
            transition: None,
            last_click_time: now,
            last_click_index: None,
            settings,
            active_slider: None,
            favicon_watch: Settling { last: 0, since: None },
            face_watch: Settling { last: 0, since: None },
            active_packs: Vec::new(),
            available_packs: Vec::new(),
            pack_toggle: None,
            rescan_packs: false,
            reload_assets: false,
        }
    }

    /// Enters a screen.
    pub fn set_screen(&mut self, screen: Screen, now: u64)
        ensures
            final(self)@ == old(self)@.entered(screen, now),
    {
        self.screen = screen;
        self.fields.leave(now);
        self.favicon_watch = Settling { last: usize::MAX, since: None };
        self.face_watch = Settling { last: usize::MAX, since: None };
    }

    /// Enters the options.
    pub fn open_options(&mut self, now: u64)
        ensures
            final(self)@ == old(self)@.entered(Screen::Options, now),
    {
        self.set_screen(Screen::Options, now);
    }

    /// Enters the screen that tells why the connection ended.
    pub fn show_disconnect(&mut self, reason: String, now: u64)
        ensures
            final(self)@ == old(self)@.entered(Screen::Disconnected(reason), now),
    {
        self.set_screen(Screen::Disconnected(reason), now);
    }

    /// Whether an option screen is shown.
    pub fn is_options_screen(&self) -> (is: bool)
        ensures
            is == self@.screen.in_options(),
    {
        match self.screen {
            Screen::Options
            | Screen::OptionsOnline
            | Screen::OptionsVideo
            | Screen::OptionsSkinCustomization
            | Screen::OptionsMusicSounds
            | Screen::OptionsControls
            | Screen::OptionsKeybinds
            | Screen::OptionsLanguage
            | Screen::OptionsChatSettings
            | Screen::OptionsResourcePacks
            | Screen::OptionsAccessibility
            | Screen::OptionsTelemetry
            | Screen::OptionsCredits => true,
            _ => false,
        }
    }

    /// Whether the title screen is shown.
    pub fn is_main_screen(&self) -> (is: bool)
        ensures
            is == (self@.screen is Main),
    {
        matches!(self.screen, Screen::Main)
    }

    /// Whether the server list is shown.
    pub fn is_server_list_screen(&self) -> (is: bool)
        ensures
            is == (self@.screen is ServerList),
    {
        matches!(self.screen, Screen::ServerList)
    }

    /// Whether the friends screen is shown.
    pub fn is_friends_screen(&self) -> (is: bool)
        ensures
            is == (self@.screen is Friends),
    {
        matches!(self.screen, Screen::Friends)
    }

    /// Whether the servers' icons have to be gathered anew, given how many there
    /// are.
    pub fn favicons_changed(&mut self, count: usize, now: u64) -> (changed: bool)
        ensures
            changed == settled(old(self)@.favicon_watch, count, now),
            final(self)@ == (MenuModel {
                favicon_watch: watched(old(self)@.favicon_watch, count, now),
                ..old(self)@
            }),
    {
        let mut watch = self.favicon_watch;
        let changed: bool = atlas_dirty(count, &mut watch, now);
        self.favicon_watch = watch;
        changed
    }

    /// Whether the friends' faces have to be gathered anew, given how many there
    /// are.
    pub fn faces_changed(&mut self, count: usize, now: u64) -> (changed: bool)
        ensures
            changed == settled(old(self)@.face_watch, count, now),
            final(self)@ == (MenuModel {
                face_watch: watched(old(self)@.face_watch, count, now),
                ..old(self)@
            }),
    {
        let mut watch = self.face_watch;
        let changed: bool = atlas_dirty(count, &mut watch, now);
        self.face_watch = watch;
        changed
    }

    /// Opens the new picture of a change of theme, once it is loaded.
    pub fn start_transition_open(&mut self, now: u64)
        ensures
            final(self)@ == (MenuModel {
                transition: match old(self)@.transition {
                    Some(t) => Some(ThemeTransition { open_start: Some(now), ..t }),
                    None => None,
                },
                ..old(self)@
            }),
    {
        if let Some(t) = self.transition {
            self.transition = Some(ThemeTransition { open_start: Some(now), ..t });
        }
    }
}

/// Entering a screen makes both kinds of pictures be gathered anew: the count
/// that is looked at next, unless it is the largest there is, is new, and half
/// a second later it has settled.
pub proof fn entering_gathers_pictures(menu: MenuModel, screen: Screen, now: u64, count: usize, t: u64)
    requires
        count < usize::MAX,
        t <= u64::MAX - 500,
    ensures
        ({
            let first = watched(menu.entered(screen, now).favicon_watch, count, t);
            settled(first, count, (t + 500) as u64)
        }),
        ({
            let first = watched(menu.entered(screen, now).face_watch, count, t);
            settled(first, count, (t + 500) as u64)
        }),
{
}

/// Entering a screen keeps what was typed and what was chosen: only the focus, the
/// selection and what can be undone are gone. Neither the servers nor the settings
/// nor the account change.
pub proof fn entering_keeps_what_was_typed(menu: MenuModel, screen: Screen, now: u64)
    ensures
        ({
            let after = menu.entered(screen, now);
            &&& after.screen == screen
            &&& after.fields.edit_name == menu.fields.edit_name
            &&& after.fields.edit_address == menu.fields.edit_address
            &&& after.fields.pack_search == menu.fields.pack_search
            &&& after.fields.focused is None
            &&& !after.fields.all_selected
            &&& after.fields.undo.len() == 0
            &&& after.servers == menu.servers
            &&& after.selected_server == menu.selected_server
            &&& after.username == menu.username
            &&& after.signed_in == menu.signed_in
            &&& after.settings == menu.settings
            &&& after.last_mp_ip == menu.last_mp_ip
            &&& after.theme == menu.theme
            &&& after.transition == menu.transition
            &&& after.active_packs == menu.active_packs
            &&& after.available_packs == menu.available_packs
        }),
{
}

/// A count that keeps changing has not settled; one that stays for half a second
/// has.
pub proof fn a_count_settles_after_a_while(watch: Settling, count: usize, now: u64, later: u64)
    requires
        count != watch.last,
        now <= later,
    ensures
        !settled(watch, count, now),
        settled(watched(watch, count, now), count, later) <==> later - now >= 500,
{
}

} // verus!
