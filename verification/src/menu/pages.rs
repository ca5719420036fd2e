//! What the option screens show.

use crate::menu::options::{
    grid_frame, scale_bounded, stub_of, CellHit, DisplayMode, NavEntry, OptionsPage,
};
use crate::menu::state::{
    step_of, MainMenu, MainMenuResult, MenuInput, MenuModel, Screen, Settings, SliderId,
};
use crate::strings::{decimal, decimal_text, has_prefix, starts_with};
use vstd::prelude::*;

verus! {

/// The rows of the controls screen.
pub const CONTROLS_ROWS: [[&'static str; 2]; 4] = [
    ["Sensitivity: 100%", "Invert Mouse: OFF"],
    ["Auto-Jump: ON", "Operator Items Tab: OFF"],
    ["Key Binds...", "Mouse Settings..."],
    ["Sneak: Toggle", "Sprint: Hold"],
];

/// The rows of the chat screen.
pub const CHAT_ROWS: [[&'static str; 2]; 9] = [
    ["Chat: Shown", "Chat Colors: ON"],
    ["Web Links: ON", "Prompt on Links: ON"],
    ["Chat Text Opacity: 100%", "Text Background Opacity: 50%"],
    ["Chat Text Size: 100%", "Line Spacing: 0%"],
    ["Chat Delay: None", "Chat Width: 100%"],
    ["Focused Height: 100%", "Unfocused Height: 100%"],
    ["Narrator: OFF", "Command Suggestions: ON"],
    ["Hide Matched Names: ON", "Reduced Debug Info: OFF"],
    ["Only Show Secure Chat: OFF", "Save Chat Drafts: OFF"],
];

/// The rows of the accessibility screen.
pub const ACCESSIBILITY_ROWS: [[&'static str; 2]; 12] = [
    ["Narrator: OFF", "Show Subtitles: OFF"],
    ["High Contrast: OFF", "Menu Background Blur: 50%"],
    ["Text Background Opacity: 50%", "Background for Chat Only: OFF"],
    ["Chat Text Opacity: 100%", "Line Spacing: 0%"],
    ["Chat Delay: None", "Notification Time: 10.0s"],
    ["View Bobbing: ON", "Distortion Effects: 100%"],
    ["FOV Effects: 100%", "Darkness Pulsing: 100%"],
    ["Damage Tilt: 100%", "Glint Speed: 100%"],
    ["Glint Strength: 100%", "Hide Lightning Flashes: OFF"],
    ["Dark Loading Screen: OFF", "Panorama Scroll Speed: 100%"],
    ["Hide Splash Texts: OFF", "Narrator Hotkey: ON"],
    ["Rotate with Minecart: OFF", "High Contrast Outlines: OFF"],
];

/// The rows of the sounds screen; a row with one label takes the whole width.
pub const MUSIC_ROWS: [[&'static str; 2]; 9] = [
    ["Master Volume: 100%", ""],
    ["Music: 100%", "Jukebox/Note Blocks: 100%"],
    ["Weather: 100%", "Blocks: 100%"],
    ["Hostile Creatures: 100%", "Friendly Creatures: 100%"],
    ["Players: 100%", "Ambient/Environment: 100%"],
    ["Voice/Speech: 100%", "UI: 100%"],
    ["Device: Default", ""],
    ["Show Subtitles: OFF", "Directional Audio: OFF"],
    ["Music Frequency: Normal", "Music Toast: ON"],
];

/// An option screen with a grid.
#[derive(Clone, Copy, Debug, PartialEq, Eq, Structural)]
pub enum PageKind {
    Options,
    Video,
    Controls,
    Chat,
    Accessibility,
    Music,
    Skin,
    Online,
}

/// The label of the field of view.
pub open spec fn fov_text(fov: u32) -> Seq<char> {
    if fov == 70 {
        "FOV: Normal"@
    } else if fov >= 110 {
        "FOV: Quake Pro"@
    } else {
        "FOV: "@ + decimal(fov as nat)
    }
}

/// The label of the field of view.
pub fn fov_label(fov: u32) -> (label: String)
    ensures
        label@ == fov_text(fov),
{
    if fov == 70 {
        "FOV: Normal".to_owned()
    } else if fov >= 110 {
        "FOV: Quake Pro".to_owned()
    } else {
        "FOV: ".to_owned().concat(decimal_text(fov as u64).as_str())
    }
}

/// The label of the scale.
pub open spec fn scale_text(scale: u32) -> Seq<char> {
    if scale == 0 {
        "GUI Scale: Auto"@
    } else {
        "GUI Scale: "@ + decimal(scale as nat)
    }
}

/// The label of the scale.
pub fn scale_label(scale: u32) -> (label: String)
    ensures
        label@ == scale_text(scale),
{
    if scale == 0 {
        "GUI Scale: Auto".to_owned()
    } else {
        "GUI Scale: ".to_owned().concat(decimal_text(scale as u64).as_str())
    }
}

/// The label of the display mode.
pub open spec fn mode_text(mode: DisplayMode) -> Seq<char> {
    match mode {
        DisplayMode::Windowed => "Fullscreen: Windowed"@,
        DisplayMode::Borderless => "Fullscreen: Borderless"@,
        DisplayMode::Fullscreen => "Fullscreen: Exclusive"@,
    }
}

/// The label of the display mode.
pub fn mode_label(mode: DisplayMode) -> (label: String)
    ensures
        label@ == mode_text(mode),
{
    match mode {
        DisplayMode::Windowed => "Fullscreen: Windowed".to_owned(),
        DisplayMode::Borderless => "Fullscreen: Borderless".to_owned(),
        DisplayMode::Fullscreen => "Fullscreen: Exclusive".to_owned(),
    }
}

/// A distance in chunks behind a label.
pub open spec fn chunks_text(label: Seq<char>, chunks: u32) -> Seq<char> {
    label + decimal(chunks as nat) + " chunks"@
}

/// A distance in chunks behind a label.
fn chunks_label(label: &str, chunks: u32) -> (text: String)
    ensures
        text@ == chunks_text(label@, chunks),
{
    label.to_owned().concat(decimal_text(chunks as u64).as_str()).concat(" chunks")
}

/// A switch behind a label.
pub open spec fn switch_text(label: Seq<char>, on: bool) -> Seq<char> {
    label + if on {
        "ON"@
    } else {
        "OFF"@
    }
}

/// A switch behind a label.
fn switch_label(label: &str, on: bool) -> (text: String)
    ensures
        text@ == switch_text(label@, on),
{
    label.to_owned().concat(if on { "ON" } else { "OFF" })
}

/// A row of two labels, as values.
pub type RowView = (Seq<char>, Seq<char>);

/// The views of some rows.
pub open spec fn row_views(rows: Seq<(String, String)>) -> Seq<RowView> {
    Seq::new(rows.len(), |i: int| (rows[i].0@, rows[i].1@))
}

/// The rows of a table.
pub open spec fn table_view<const N: usize>(table: [[&'static str; 2]; N]) -> Seq<RowView> {
    Seq::new(N as nat, |i: int| (table@[i]@[0]@, table@[i]@[1]@))
}

/// The rows of a table.
fn table_rows<const N: usize>(table: &[[&'static str; 2]; N]) -> (rows: Vec<(String, String)>)
    ensures
        row_views(rows@) == table_view(*table),
{
    let mut rows: Vec<(String, String)> = Vec::new();
    let mut i: usize = 0;
    while i < N
        invariant
            i <= N,
            rows@.len() == i,
            forall|k: int|
                0 <= k < i ==> (#[trigger] rows@[k]).0@ == table@[k]@[0]@ && rows@[k].1@
                    == table@[k]@[1]@,
        decreases N - i,
    {
        let pair: [&'static str; 2] = table[i];
        rows.push((pair[0].to_owned(), pair[1].to_owned()));
        i = i + 1;
    }
    assert(row_views(rows@) =~= table_view(*table));
    rows
}

/// The title of a screen.
pub open spec fn page_title(kind: PageKind) -> Seq<char> {
    match kind {
        PageKind::Options => "Options"@,
        PageKind::Video => "Video Settings"@,
        PageKind::Controls => "Controls"@,
        PageKind::Chat => "Chat Settings"@,
        PageKind::Accessibility => "Accessibility Settings"@,
        PageKind::Music => "Music & Sounds"@,
        PageKind::Skin => "Skin Customization"@,
        PageKind::Online => "Online Options..."@,
    }
}

/// The rows of a screen.
pub open spec fn page_rows(kind: PageKind, s: Settings, mode: DisplayMode) -> Seq<RowView> {
    match kind {
        PageKind::Options => seq![
            (fov_text(s.fov), "Online..."@),
            ("Skin Customization..."@, "Music & Sounds..."@),
            ("Video Settings..."@, "Controls..."@),
            ("Language..."@, "Chat Settings..."@),
            ("Resource Packs..."@, "Accessibility Settings..."@),
            ("Telemetry Data..."@, "Credits & Attribution..."@),
        ],
        PageKind::Video => seq![
            (
                chunks_text("Render Distance: "@, s.render_distance),
                chunks_text("Simulation Distance: "@, s.render_distance),
            ),
            ("Graphics: Fancy"@, "Smooth Lighting: ON"@),
            ("Max Framerate: 120 fps"@, "VSync: OFF"@),
            ("View Bobbing: ON"@, scale_text(s.gui_scale)),
            ("Attack Indicator: Crosshair"@, "Brightness: 50%"@),
            ("Clouds: Fancy"@, mode_text(mode)),
            ("Particles: All"@, "Mipmap Levels: 4"@),
        ],
        PageKind::Controls => table_view(CONTROLS_ROWS),
        PageKind::Chat => table_view(CHAT_ROWS),
        PageKind::Accessibility => table_view(ACCESSIBILITY_ROWS),
        PageKind::Music => table_view(MUSIC_ROWS),
        PageKind::Skin => seq![
            (switch_text("Cape: "@, s.skin_cape), switch_text("Jacket: "@, s.skin_jacket)),
            (
                switch_text("Left Sleeve: "@, s.skin_left_sleeve),
                switch_text("Right Sleeve: "@, s.skin_right_sleeve),
            ),
            (
                switch_text("Left Pants Leg: "@, s.skin_left_pants),
                switch_text("Right Pants Leg: "@, s.skin_right_pants),
            ),
            (
                switch_text("Hat: "@, s.skin_hat),
                if s.skin_main_hand_right {
                    "Main Hand: Right"@
                } else {
                    "Main Hand: Left"@
                },
            ),
        ],
        PageKind::Online => seq![
            ("Realms Notifications: ON"@, "Allow Server Listings: ON"@),
            (
                switch_text("Show Online Status: "@, s.show_online_status),
                switch_text("Show Current Server: "@, s.show_current_server),
            ),
        ],
    }
}

/// How many rows a screen has.
pub open spec fn row_count(kind: PageKind) -> nat {
    match kind {
        PageKind::Options => 6,
        PageKind::Video => 7,
        PageKind::Controls => 4,
        PageKind::Chat => 9,
        PageKind::Accessibility => 12,
        PageKind::Music => 9,
        PageKind::Skin => 4,
        PageKind::Online => 2,
    }
}

/// The views of some entries.
pub open spec fn nav_views(nav: Seq<NavEntry>) -> Seq<(Seq<char>, Screen)> {
    Seq::new(nav.len(), |i: int| (nav[i].label@, nav[i].target))
}

/// The labels of a screen that lead on, and where they lead.
pub open spec fn page_nav(kind: PageKind) -> Seq<(Seq<char>, Screen)> {
    match kind {
        PageKind::Options => seq![
            ("Online..."@, Screen::OptionsOnline),
            ("Skin Customization..."@, Screen::OptionsSkinCustomization),
            ("Music & Sounds..."@, Screen::OptionsMusicSounds),
            ("Video Settings..."@, Screen::OptionsVideo),
            ("Controls..."@, Screen::OptionsControls),
            ("Language..."@, Screen::OptionsLanguage),
            ("Chat Settings..."@, Screen::OptionsChatSettings),
            ("Resource Packs..."@, Screen::OptionsResourcePacks),
            ("Accessibility Settings..."@, Screen::OptionsAccessibility),
            ("Telemetry Data..."@, Screen::OptionsTelemetry),
            ("Credits & Attribution..."@, Screen::OptionsCredits),
        ],
        PageKind::Controls => seq![("Key Binds..."@, Screen::OptionsKeybinds)],
        _ => Seq::empty(),
    }
}

/// The sliders of a screen.
pub open spec fn page_sliders(kind: PageKind) -> Seq<SliderId> {
    match kind {
        PageKind::Options => seq![SliderId::Fov],
        PageKind::Video => seq![SliderId::RenderDistance, SliderId::SimulationDistance],
        PageKind::Music => seq![
            SliderId::MasterVolume,
            SliderId::Music,
            SliderId::Jukebox,
            SliderId::Weather,
            SliderId::Blocks,
            SliderId::Hostile,
            SliderId::Friendly,
            SliderId::Players,
            SliderId::Ambient,
            SliderId::Voice,
            SliderId::Ui,
        ],
        _ => Seq::empty(),
    }
}

/// Where the screen of a kind leads back to: the first screen to the title screen,
/// the accessibility screen to where it was opened from, the others to the first.
pub open spec fn page_back(kind: PageKind, settings_back: Screen) -> Screen {
    match kind {
        PageKind::Options => Screen::Main,
        PageKind::Accessibility => settings_back,
        _ => Screen::Options,
    }
}

/// Whether `page` is the screen of a kind under some settings. All but the first
/// have a header and a footer.
pub open spec fn is_page(
    kind: PageKind,
    s: Settings,
    mode: DisplayMode,
    settings_back: Screen,
    page: OptionsPage,
) -> bool {
    &&& page.title@ == page_title(kind)
    &&& page.back == page_back(kind, settings_back)
    &&& row_views(page.rows@) == page_rows(kind, s, mode)
    &&& nav_views(page.nav@) == page_nav(kind)
    &&& page.sliders@ == page_sliders(kind)
    &&& page.header_footer == (kind != PageKind::Options)
}

fn options_rows(s: &Settings) -> (rows: Vec<(String, String)>)
    ensures
        row_views(rows@) == page_rows(PageKind::Options, *s, DisplayMode::Windowed),
{
    let mut rows: Vec<(String, String)> = Vec::new();
    rows.push((fov_label(s.fov), "Online...".to_owned()));
    rows.push(("Skin Customization...".to_owned(), "Music & Sounds...".to_owned()));
    rows.push(("Video Settings...".to_owned(), "Controls...".to_owned()));
    rows.push(("Language...".to_owned(), "Chat Settings...".to_owned()));
    rows.push(("Resource Packs...".to_owned(), "Accessibility Settings...".to_owned()));
    rows.push(("Telemetry Data...".to_owned(), "Credits & Attribution...".to_owned()));
    assert(row_views(rows@) =~= page_rows(PageKind::Options, *s, DisplayMode::Windowed));
    rows
}

fn video_rows(s: &Settings, mode: DisplayMode) -> (rows: Vec<(String, String)>)
    ensures
        row_views(rows@) == page_rows(PageKind::Video, *s, mode),
{
    let mut rows: Vec<(String, String)> = Vec::new();
    rows.push(
        (
            chunks_label("Render Distance: ", s.render_distance),
            chunks_label("Simulation Distance: ", s.render_distance),
        ),
    );
    rows.push(("Graphics: Fancy".to_owned(), "Smooth Lighting: ON".to_owned()));
    rows.push(("Max Framerate: 120 fps".to_owned(), "VSync: OFF".to_owned()));
    rows.push(("View Bobbing: ON".to_owned(), scale_label(s.gui_scale)));
    rows.push(("Attack Indicator: Crosshair".to_owned(), "Brightness: 50%".to_owned()));
    rows.push(("Clouds: Fancy".to_owned(), mode_label(mode)));
    rows.push(("Particles: All".to_owned(), "Mipmap Levels: 4".to_owned()));
    assert(row_views(rows@) =~= page_rows(PageKind::Video, *s, mode));
    rows
}

fn skin_rows(s: &Settings, mode: DisplayMode) -> (rows: Vec<(String, String)>)
    ensures
        row_views(rows@) == page_rows(PageKind::Skin, *s, mode),
{
    let mut rows: Vec<(String, String)> = Vec::new();
    rows.push((switch_label("Cape: ", s.skin_cape), switch_label("Jacket: ", s.skin_jacket)));
    rows.push(
        (
            switch_label("Left Sleeve: ", s.skin_left_sleeve),
            switch_label("Right Sleeve: ", s.skin_right_sleeve),
        ),
    );
    rows.push(
        (
            switch_label("Left Pants Leg: ", s.skin_left_pants),
            switch_label("Right Pants Leg: ", s.skin_right_pants),
        ),
    );
    let hand = if s.skin_main_hand_right { "Main Hand: Right" } else { "Main Hand: Left" };
    rows.push((switch_label("Hat: ", s.skin_hat), hand.to_owned()));
    assert(row_views(rows@) =~= page_rows(PageKind::Skin, *s, mode));
    rows
}

fn online_rows(s: &Settings, mode: DisplayMode) -> (rows: Vec<(String, String)>)
    ensures
        row_views(rows@) == page_rows(PageKind::Online, *s, mode),
{
    let mut rows: Vec<(String, String)> = Vec::new();
    rows.push(("Realms Notifications: ON".to_owned(), "Allow Server Listings: ON".to_owned()));
    rows.push(
        (
            switch_label("Show Online Status: ", s.show_online_status),
            switch_label("Show Current Server: ", s.show_current_server),
        ),
    );
    assert(row_views(rows@) =~= page_rows(PageKind::Online, *s, mode));
    rows
}

fn options_nav() -> (nav: Vec<NavEntry>)
    ensures
        nav_views(nav@) == page_nav(PageKind::Options),
{
    let mut nav: Vec<NavEntry> = Vec::new();
    nav.push(NavEntry { label: "Online...", target: Screen::OptionsOnline });
    nav.push(
        NavEntry { label: "Skin Customization...", target: Screen::OptionsSkinCustomization },
    );
    nav.push(NavEntry { label: "Music & Sounds...", target: Screen::OptionsMusicSounds });
    nav.push(NavEntry { label: "Video Settings...", target: Screen::OptionsVideo });
    nav.push(NavEntry { label: "Controls...", target: Screen::OptionsControls });
    nav.push(NavEntry { label: "Language...", target: Screen::OptionsLanguage });
    nav.push(NavEntry { label: "Chat Settings...", target: Screen::OptionsChatSettings });
    nav.push(NavEntry { label: "Resource Packs...", target: Screen::OptionsResourcePacks });
    nav.push(
        NavEntry { label: "Accessibility Settings...", target: Screen::OptionsAccessibility },
    );
    nav.push(NavEntry { label: "Telemetry Data...", target: Screen::OptionsTelemetry });
    nav.push(NavEntry { label: "Credits & Attribution...", target: Screen::OptionsCredits });
    assert(nav_views(nav@) =~= page_nav(PageKind::Options));
    nav
}

fn nav_of(kind: PageKind) -> (nav: Vec<NavEntry>)
    ensures
        nav_views(nav@) == page_nav(kind),
{
    match kind {
        PageKind::Options => options_nav(),
        PageKind::Controls => {
            let mut nav: Vec<NavEntry> = Vec::new();
            nav.push(NavEntry { label: "Key Binds...", target: Screen::OptionsKeybinds });
            assert(nav_views(nav@) =~= page_nav(kind));
            nav
        },
        _ => {
            let nav: Vec<NavEntry> = Vec::new();
            assert(nav_views(nav@) =~= page_nav(kind));
            nav
        },
    }
}

fn sliders_of(kind: PageKind) -> (sliders: Vec<SliderId>)
    ensures
        sliders@ == page_sliders(kind),
{
    let mut sliders: Vec<SliderId> = Vec::new();
    match kind {
        PageKind::Options => {
            sliders.push(SliderId::Fov);
        },
        PageKind::Video => {
            sliders.push(SliderId::RenderDistance);
            sliders.push(SliderId::SimulationDistance);
        },
        PageKind::Music => {
            sliders.push(SliderId::MasterVolume);
            sliders.push(SliderId::Music);
            sliders.push(SliderId::Jukebox);
            sliders.push(SliderId::Weather);
            sliders.push(SliderId::Blocks);
            sliders.push(SliderId::Hostile);
            sliders.push(SliderId::Friendly);
            sliders.push(SliderId::Players);
            sliders.push(SliderId::Ambient);
            sliders.push(SliderId::Voice);
            sliders.push(SliderId::Ui);
        },
        _ => {},
    }
    assert(sliders@ =~= page_sliders(kind));
    sliders
}

fn rows_of(kind: PageKind, s: &Settings, mode: DisplayMode) -> (rows: Vec<(String, String)>)
    ensures
        row_views(rows@) == page_rows(kind, *s, mode),
        rows@.len() == row_count(kind),
{
    let rows = match kind {
        PageKind::Options => options_rows(s),
        PageKind::Video => video_rows(s, mode),
        PageKind::Controls => table_rows(&CONTROLS_ROWS),
        PageKind::Chat => table_rows(&CHAT_ROWS),
        PageKind::Accessibility => table_rows(&ACCESSIBILITY_ROWS),
        PageKind::Music => table_rows(&MUSIC_ROWS),
        PageKind::Skin => skin_rows(s, mode),
        PageKind::Online => online_rows(s, mode),
    };
    assert(row_views(rows@).len() == rows@.len());
    rows
}

/// The screen of a kind under some settings. `settings_back` is where the
/// accessibility screen was opened from.
pub fn options_page(
    kind: PageKind,
    s: &Settings,
    mode: DisplayMode,
    settings_back: &Screen,
) -> (page: OptionsPage)
    ensures
        is_page(kind, *s, mode, *settings_back, page),
        page.rows@.len() == row_count(kind),
{
    let title = match kind {
        PageKind::Options => "Options",
        PageKind::Video => "Video Settings",
        PageKind::Controls => "Controls",
        PageKind::Chat => "Chat Settings",
        PageKind::Accessibility => "Accessibility Settings",
        PageKind::Music => "Music & Sounds",
        PageKind::Skin => "Skin Customization",
        PageKind::Online => "Online Options...",
    };
    let back = match kind {
        PageKind::Options => Screen::Main,
        PageKind::Accessibility => settings_back.clone_screen(),
        _ => Screen::Options,
    };
    OptionsPage {
        title,
        back,
        rows: rows_of(kind, s, mode),
        nav: nav_of(kind),
        sliders: sliders_of(kind),
        header_footer: kind != PageKind::Options,
    }
}

/// The explanations of the online options, by what their labels start with.
pub const ONLINE_TOOLTIPS: [(&'static str, &'static str); 4] = [
    ("Realms Notifications:", "Receive notifications about Realms updates"),
    ("Allow Server Listings:", "Allow servers to list your name in their player list"),
    ("Show Online Status:", "Allow friends to see when you're online"),
    ("Show Current Server:", "Allow friends to see which server you're on"),
];

/// The explanation of an online option's label: of the first entry from `i` on
/// whose start it has.
pub open spec fn tooltip_from(label: Seq<char>, i: nat) -> Option<Seq<char>>
    decreases 4 - i,
{
    if i >= 4 {
        None
    } else if has_prefix(label, ONLINE_TOOLTIPS@[i as int].0@) {
        Some(ONLINE_TOOLTIPS@[i as int].1@)
    } else {
        tooltip_from(label, i + 1)
    }
}

/// The explanation of an online option's label.
pub fn online_tooltip(label: &String) -> (tip: Option<&'static str>)
    ensures
        match tip {
            Some(t) => tooltip_from(label@, 0) == Some(t@),
            None => tooltip_from(label@, 0) is None,
        },
{
    let mut i: usize = 0;
    while i < 4
        invariant
            i <= 4,
            tooltip_from(label@, 0) == tooltip_from(label@, i as nat),
        decreases 4 - i,
    {
        let entry = ONLINE_TOOLTIPS[i];
        if starts_with(label.as_str(), entry.0) {
            return Some(entry.1);
        }
        i = i + 1;
    }
    None
}

/// The grid that a screen shows, where it shows one.
pub open spec fn page_of(screen: Screen) -> Option<PageKind> {
    match screen {
        Screen::Options => Some(PageKind::Options),
        Screen::OptionsOnline => Some(PageKind::Online),
        Screen::OptionsVideo => Some(PageKind::Video),
        Screen::OptionsSkinCustomization => Some(PageKind::Skin),
        Screen::OptionsMusicSounds => Some(PageKind::Music),
        Screen::OptionsControls => Some(PageKind::Controls),
        Screen::OptionsChatSettings => Some(PageKind::Chat),
        Screen::OptionsAccessibility => Some(PageKind::Accessibility),
        _ => None,
    }
}

/// Every option screen is one of three: a grid, the list of resource packs, or one
/// that is still to come.
pub proof fn option_screens_are_built(menu: MenuModel)
    requires
        menu.screen.in_options(),
    ensures
        page_of(menu.screen) is Some || stub_of(menu) is Some || menu.screen
            is OptionsResourcePacks,
        !(page_of(menu.screen) is Some && stub_of(menu) is Some),
        menu.screen is OptionsResourcePacks ==> page_of(menu.screen) is None && stub_of(menu)
            is None,
{
}

impl MainMenu {
    /// The grid that the screen shows, where it shows one.
    pub fn page_kind(&self) -> (kind: Option<PageKind>)
        ensures
            kind == page_of(self@.screen),
    {
        match self.screen {
            Screen::Options => Some(PageKind::Options),
            Screen::OptionsOnline => Some(PageKind::Online),
            Screen::OptionsVideo => Some(PageKind::Video),
            Screen::OptionsSkinCustomization => Some(PageKind::Skin),
            Screen::OptionsMusicSounds => Some(PageKind::Music),
            Screen::OptionsControls => Some(PageKind::Controls),
            Screen::OptionsChatSettings => Some(PageKind::Chat),
            Screen::OptionsAccessibility => Some(PageKind::Accessibility),
            _ => None,
        }
    }

    /// A frame of an option screen with a grid.
    pub fn build_options(
        &mut self,
        kind: PageKind,
        mode: DisplayMode,
        input: &MenuInput,
        hits: &Vec<CellHit>,
        over_done: bool,
        max_scale: u32,
        now: u64,
    ) -> (result: MainMenuResult)
        requires
            old(self).wf(),
            scale_bounded(old(self)@, max_scale),
            hits@.len() == 2 * row_count(kind),
        ensures
            final(self).wf(),
            exists|page: OptionsPage| #[trigger]
                is_page(kind, old(self)@.settings, mode, old(self)@.settings_back, page)
                    && step_of(*final(self), result) == grid_frame(
                    old(self)@,
                    *input,
                    page,
                    hits@,
                    over_done,
                    max_scale,
                    now,
                ),
    {
        let page = options_page(kind, &self.settings, mode, &self.settings_back);
        self.build_options_grid(input, &page, hits, over_done, max_scale, now)
    }
}

/// The options lead back to the title screen, the accessibility options to where
/// they were opened, and all other pages to the options.
pub proof fn pages_lead_back(kind: PageKind, settings_back: Screen)
    ensures
        page_back(PageKind::Options, settings_back) == Screen::Main,
        page_back(PageKind::Accessibility, settings_back) == settings_back,
        kind != PageKind::Options && kind != PageKind::Accessibility ==> page_back(
            kind,
            settings_back,
        ) == Screen::Options,
{
}

/// Every label of a page that leads somewhere is on the page.
pub proof fn labels_that_lead_are_shown(s: Settings, mode: DisplayMode, k: int)
    requires
        0 <= k < page_nav(PageKind::Options).len(),
    ensures
        exists|r: int|
            0 <= r < page_rows(PageKind::Options, s, mode).len() && {
                let row = #[trigger] page_rows(PageKind::Options, s, mode)[r];
                row.0 == page_nav(PageKind::Options)[k].0 || row.1 == page_nav(
                    PageKind::Options,
                )[k].0
            },
{
    let rows = page_rows(PageKind::Options, s, mode);
    assert(rows[0].1 == "Online..."@);
    assert(rows[1].0 == "Skin Customization..."@ && rows[1].1 == "Music & Sounds..."@);
    assert(rows[2].0 == "Video Settings..."@ && rows[2].1 == "Controls..."@);
    assert(rows[3].0 == "Language..."@ && rows[3].1 == "Chat Settings..."@);
    assert(rows[4].0 == "Resource Packs..."@ && rows[4].1 == "Accessibility Settings..."@);
    assert(rows[5].0 == "Telemetry Data..."@ && rows[5].1 == "Credits & Attribution..."@);
}

} // verus!
