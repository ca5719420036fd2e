//! The option screens.

use crate::menu::state::{
    nothing, step_of, Effect, EffectView, MainMenu, MainMenuResult, MenuInput, MenuModel, Screen,
    Settings, SliderId, Step,
};
use crate::strings::{has_prefix, same_text, starts_with};
use vstd::prelude::*;

verus! {

/// How the game fills the screen.
#[derive(Clone, Copy, Debug, PartialEq, Eq, Structural)]
pub enum DisplayMode {
    Windowed,
    Borderless,
    Fullscreen,
}

/// What a button's label starts with, and what the button does.
pub const LABEL_ACTIONS: [(&'static str, LabelAction); 12] = [
    ("GUI Scale:", LabelAction::GuiScale),
    ("Fullscreen:", LabelAction::Fullscreen),
    ("Show Online Status:", LabelAction::OnlineStatus),
    ("Show Current Server:", LabelAction::CurrentServer),
    ("Cape:", LabelAction::Cape),
    ("Jacket:", LabelAction::Jacket),
    ("Left Sleeve:", LabelAction::LeftSleeve),
    ("Right Sleeve:", LabelAction::RightSleeve),
    ("Left Pants Leg:", LabelAction::LeftPants),
    ("Right Pants Leg:", LabelAction::RightPants),
    ("Hat:", LabelAction::Hat),
    ("Main Hand:", LabelAction::MainHand),
];

/// What an option's button does.
#[derive(Clone, Copy, Debug, PartialEq, Eq, Structural)]
pub enum LabelAction {
    GuiScale,
    Fullscreen,
    OnlineStatus,
    CurrentServer,
    Cape,
    Jacket,
    LeftSleeve,
    RightSleeve,
    LeftPants,
    RightPants,
    Hat,
    MainHand,
}

/// The scale after `scale`, from 0 to `max_scale` in turn.
pub open spec fn scale_after(scale: u32, max_scale: u32) -> u32 {
    ((scale + 1) % (max_scale + 1)) as u32
}

/// The settings after an option's button. The scale goes round from 0 to the
/// largest that fits; the others are switches.
pub open spec fn settings_after(s: Settings, action: LabelAction, max_scale: u32) -> Settings {
    match action {
        LabelAction::GuiScale => Settings {
            gui_scale: scale_after(s.gui_scale, max_scale),
            ..s
        },
        LabelAction::Fullscreen => s,
        LabelAction::OnlineStatus => Settings { show_online_status: !s.show_online_status, ..s },
        LabelAction::CurrentServer => Settings { show_current_server: !s.show_current_server, ..s },
        LabelAction::Cape => Settings { skin_cape: !s.skin_cape, ..s },
        LabelAction::Jacket => Settings { skin_jacket: !s.skin_jacket, ..s },
        LabelAction::LeftSleeve => Settings { skin_left_sleeve: !s.skin_left_sleeve, ..s },
        LabelAction::RightSleeve => Settings { skin_right_sleeve: !s.skin_right_sleeve, ..s },
        LabelAction::LeftPants => Settings { skin_left_pants: !s.skin_left_pants, ..s },
        LabelAction::RightPants => Settings { skin_right_pants: !s.skin_right_pants, ..s },
        LabelAction::Hat => Settings { skin_hat: !s.skin_hat, ..s },
        LabelAction::MainHand => Settings { skin_main_hand_right: !s.skin_main_hand_right, ..s },
    }
}

/// The frame after an option's button: the settings change and are saved, but
/// the display mode is the game's to change.
pub open spec fn action_done(s: Step, action: LabelAction, max_scale: u32) -> Step {
    Step {
        menu: MenuModel {
            settings: settings_after(s.menu.settings, action, max_scale),
            ..s.menu
        },
        out: s.out.doing(
            if action == LabelAction::Fullscreen {
                EffectView::CycleDisplayMode
            } else {
                EffectView::SaveSettings
            },
        ),
    }
}

/// The frame after those of the first `n` actions whose start the label has.
pub open spec fn actions_done(s: Step, label: Seq<char>, max_scale: u32, n: nat) -> Step
    decreases n,
{
    if n == 0 {
        s
    } else {
        let before = actions_done(s, label, max_scale, (n - 1) as nat);
        if has_prefix(label, LABEL_ACTIONS@[n - 1].0@) {
            action_done(before, LABEL_ACTIONS@[n - 1].1, max_scale)
        } else {
            before
        }
    }
}

/// A label that leads to a screen.
pub struct NavEntry {
    pub label: &'static str,
    pub target: Screen,
}

/// The screen that a label leads to: that of the first entry from `i` on with
/// that label.
pub open spec fn target_from(label: Seq<char>, nav: Seq<NavEntry>, i: nat) -> Option<Screen>
    decreases nav.len() - i,
{
    if i >= nav.len() {
        None
    } else if nav[i as int].label@ == label {
        Some(nav[i as int].target)
    } else {
        target_from(label, nav, i + 1)
    }
}

impl MenuModel {
    /// The menu after a label was followed. The resource packs are looked for
    /// anew, and their search field gets the focus.
    pub open spec fn followed(self, target: Option<Screen>, now: u64) -> MenuModel {
        match target {
            Some(screen) => {
                let packs = screen is OptionsResourcePacks;
                let m = MenuModel {
                    rescan_packs: self.rescan_packs || packs,
                    ..self
                }.entered(screen, now);
                if packs {
                    MenuModel { fields: m.fields.focusing(0), ..m }
                } else {
                    m
                }
            },
            None => self,
        }
    }
}

/// The frame after a click on the button with a label.
pub open spec fn label_clicked(
    s: Step,
    label: Seq<char>,
    nav: Seq<NavEntry>,
    max_scale: u32,
    now: u64,
) -> Step {
    let target = target_from(label, nav, 0);
    actions_done(Step { menu: s.menu.followed(target, now), ..s }, label, max_scale, 12)
}

/// What a slider's label starts with.
pub open spec fn slider_start(id: SliderId) -> Seq<char> {
    match id {
        SliderId::Fov => "FOV:"@,
        SliderId::RenderDistance => "Render Distance:"@,
        SliderId::SimulationDistance => "Simulation Distance:"@,
        SliderId::MasterVolume => "Master Volume:"@,
        SliderId::Music => "Music:"@,
        SliderId::Jukebox => "Jukebox/Note Blocks:"@,
        SliderId::Weather => "Weather:"@,
        SliderId::Blocks => "Blocks:"@,
        SliderId::Hostile => "Hostile Creatures:"@,
        SliderId::Friendly => "Friendly Creatures:"@,
        SliderId::Players => "Players:"@,
        SliderId::Ambient => "Ambient/Environment:"@,
        SliderId::Voice => "Voice/Speech:"@,
        SliderId::Ui => "UI:"@,
    }
}

/// What a slider's label starts with.
pub fn slider_prefix(id: SliderId) -> (prefix: &'static str)
    ensures
        prefix@ == slider_start(id),
{
    match id {
        SliderId::Fov => "FOV:",
        SliderId::RenderDistance => "Render Distance:",
        SliderId::SimulationDistance => "Simulation Distance:",
        SliderId::MasterVolume => "Master Volume:",
        SliderId::Music => "Music:",
        SliderId::Jukebox => "Jukebox/Note Blocks:",
        SliderId::Weather => "Weather:",
        SliderId::Blocks => "Blocks:",
        SliderId::Hostile => "Hostile Creatures:",
        SliderId::Friendly => "Friendly Creatures:",
        SliderId::Players => "Players:",
        SliderId::Ambient => "Ambient/Environment:",
        SliderId::Voice => "Voice/Speech:",
        SliderId::Ui => "UI:",
    }
}

/// The slider that a label stands for: the first from `i` on whose start it has.
pub open spec fn slider_from(label: Seq<char>, sliders: Seq<SliderId>, i: nat) -> Option<SliderId>
    decreases sliders.len() - i,
{
    if i >= sliders.len() {
        None
    } else if has_prefix(label, slider_start(sliders[i as int])) {
        Some(sliders[i as int])
    } else {
        slider_from(label, sliders, i + 1)
    }
}

/// A cell of the grid under the cursor, and the value that its slider has there.
#[derive(Clone, Copy, Debug, PartialEq, Eq, Structural)]
pub struct CellHit {
    pub hovered: bool,
    pub value: u32,
}

/// A grid so far: the frame, and the sliders that were moved, with their values.
pub struct GridState {
    pub s: Step,
    pub moved: Seq<(SliderId, u32)>,
}

/// The grid after a slider. One that is held keeps following the cursor until
/// the button is released; another is taken where the cursor is over it.
pub open spec fn slider_done(g: GridState, id: SliderId, hit: CellHit, held: bool) -> GridState {
    let active = g.s.menu.active_slider == Some(id);
    let dragging = held && (active || hit.hovered);
    GridState {
        s: Step {
            menu: MenuModel {
                active_slider: if dragging {
                    Some(id)
                } else if active {
                    None
                } else {
                    g.s.menu.active_slider
                },
                ..g.s.menu
            },
            out: g.s.out.pointing(hit.hovered),
        },
        moved: if dragging {
            g.moved.push((id, hit.value))
        } else {
            g.moved
        },
    }
}

/// The grid after a cell: an empty one is nothing, one that stands for a slider
/// is a slider, any other is a button.
pub open spec fn cell_done(
    g: GridState,
    label: Seq<char>,
    nav: Seq<NavEntry>,
    sliders: Seq<SliderId>,
    hit: CellHit,
    input: MenuInput,
    max_scale: u32,
    now: u64,
) -> GridState {
    if label.len() == 0 {
        g
    } else {
        match slider_from(label, sliders, 0) {
            Some(id) => slider_done(g, id, hit, input.mouse_held),
            None => {
                let s = Step { out: g.s.out.pointing(hit.hovered), ..g.s };
                GridState {
                    s: if input.clicked && hit.hovered {
                        label_clicked(s, label, nav, max_scale, now)
                    } else {
                        s
                    },
                    ..g
                }
            },
        }
    }
}

/// The label of a cell, of two in each row.
pub open spec fn cell_label(rows: Seq<(String, String)>, cell: int) -> Seq<char> {
    if cell % 2 == 0 {
        rows[cell / 2].0@
    } else {
        rows[cell / 2].1@
    }
}

/// The grid after the first `n` cells.
pub open spec fn cells_done(
    s: Step,
    page: OptionsPage,
    hits: Seq<CellHit>,
    input: MenuInput,
    max_scale: u32,
    now: u64,
    n: nat,
) -> GridState
    decreases n,
{
    if n == 0 {
        GridState { s, moved: Seq::empty() }
    } else {
        cell_done(
            cells_done(s, page, hits, input, max_scale, now, (n - 1) as nat),
            cell_label(page.rows@, n - 1),
            page.nav@,
            page.sliders@,
            hits[n - 1],
            input,
            max_scale,
            now,
        )
    }
}

/// The settings with a slider's value, if the slider stands for one of them.
pub open spec fn with_value(s: Settings, id: SliderId, value: u32) -> Option<Settings> {
    match id {
        SliderId::RenderDistance => Some(Settings { render_distance: value, ..s }),
        SliderId::SimulationDistance => Some(Settings { simulation_distance: value, ..s }),
        SliderId::Fov => Some(Settings { fov: value, ..s }),
        _ => None,
    }
}

/// The settings with a slider's value, if the slider stands for one of them.
fn set_value(before: Settings, id: SliderId, value: u32) -> (after: Option<Settings>)
    ensures
        after == with_value(before, id, value),
{
    match id {
        SliderId::RenderDistance => Some(Settings { render_distance: value, ..before }),
        SliderId::SimulationDistance => Some(Settings { simulation_distance: value, ..before }),
        SliderId::Fov => Some(Settings { fov: value, ..before }),
        _ => None,
    }
}

/// The frame after a slider's value was taken over: the distances and the field
/// of view are settings and are saved.
pub open spec fn value_taken(s: Step, moved: (SliderId, u32)) -> Step {
    match with_value(s.menu.settings, moved.0, moved.1) {
        Some(settings) => Step {
            menu: MenuModel { settings, ..s.menu },
            ..s
        }.doing(EffectView::SaveSettings),
        None => s,
    }
}

/// The frame after the first `n` moved sliders.
pub open spec fn values_taken(s: Step, moved: Seq<(SliderId, u32)>, n: nat) -> Step
    decreases n,
{
    if n == 0 {
        s
    } else {
        value_taken(values_taken(s, moved, (n - 1) as nat), moved[n - 1])
    }
}

/// An option screen: its title, where it leads back to, its rows of two labels
/// each, those that lead on, its sliders, and whether it has a header and a
/// footer.
pub struct OptionsPage {
    pub title: &'static str,
    pub back: Screen,
    pub rows: Vec<(String, String)>,
    pub nav: Vec<NavEntry>,
    pub sliders: Vec<SliderId>,
    pub header_footer: bool,
}

/// A frame of an option screen.
pub open spec fn grid_frame(
    menu: MenuModel,
    input: MenuInput,
    page: OptionsPage,
    hits: Seq<CellHit>,
    over_done: bool,
    max_scale: u32,
    now: u64,
) -> Step {
    if input.escape {
        Step { menu: menu.entered(page.back, now), out: nothing(2) }
    } else {
        let g = cells_done(
            Step { menu, out: nothing(2) },
            page,
            hits,
            input,
            max_scale,
            now,
            2 * page.rows@.len(),
        );
        let s = values_taken(g.s, g.moved, g.moved.len());
        let s1 = if input.clicked && over_done {
            s.entering(page.back, now)
        } else {
            s
        };
        Step { out: s1.out.pointing(over_done), ..s1 }
    }
}

/// The scale and the largest scale can be counted on.
pub open spec fn scale_bounded(menu: MenuModel, max_scale: u32) -> bool {
    menu.settings.gui_scale < u32::MAX && max_scale < u32::MAX
}

proof fn lemma_actions_bounded(s: Step, label: Seq<char>, max_scale: u32, n: nat)
    requires
        n <= 12,
        scale_bounded(s.menu, max_scale),
    ensures
        scale_bounded(actions_done(s, label, max_scale, n).menu, max_scale),
        actions_done(s, label, max_scale, n).menu.fields == s.menu.fields,
    decreases n,
{
    if n > 0 {
        lemma_actions_bounded(s, label, max_scale, (n - 1) as nat);
    }
}

/// The settings after an option's button.
fn press_setting(before: Settings, action: LabelAction, max_scale: u32) -> (after: Settings)
    requires
        before.gui_scale < u32::MAX,
        max_scale < u32::MAX,
    ensures
        after == settings_after(before, action, max_scale),
{
    match action {
        LabelAction::GuiScale => Settings {
            gui_scale: (before.gui_scale + 1) % (max_scale + 1),
            ..before
        },
        LabelAction::Fullscreen => before,
        LabelAction::OnlineStatus => Settings {
            show_online_status: !before.show_online_status,
            ..before
        },
        LabelAction::CurrentServer => Settings {
            show_current_server: !before.show_current_server,
            ..before
        },
        LabelAction::Cape => Settings { skin_cape: !before.skin_cape, ..before },
        LabelAction::Jacket => Settings { skin_jacket: !before.skin_jacket, ..before },
        LabelAction::LeftSleeve => Settings {
            skin_left_sleeve: !before.skin_left_sleeve,
            ..before
        },
        LabelAction::RightSleeve => Settings {
            skin_right_sleeve: !before.skin_right_sleeve,
            ..before
        },
        LabelAction::LeftPants => Settings {
            skin_left_pants: !before.skin_left_pants,
            ..before
        },
        LabelAction::RightPants => Settings {
            skin_right_pants: !before.skin_right_pants,
            ..before
        },
        LabelAction::Hat => Settings { skin_hat: !before.skin_hat, ..before },
        LabelAction::MainHand => Settings {
            skin_main_hand_right: !before.skin_main_hand_right,
            ..before
        },
    }
}

impl MainMenu {
    /// Does what an option's button does.
    fn apply_action(&mut self, result: &mut MainMenuResult, action: LabelAction, max_scale: u32)
        requires
            old(self).wf(),
            scale_bounded(old(self)@, max_scale),
        ensures
            final(self).wf(),
            step_of(*final(self), *final(result)) == action_done(
                step_of(*old(self), *old(result)),
                action,
                max_scale,
            ),
    {
        self.settings = press_setting(self.settings, action, max_scale);
        let effect = if action == LabelAction::Fullscreen {
            Effect::CycleDisplayMode
        } else {
            Effect::SaveSettings
        };
        result.add_effect(effect);
    }

    fn apply_actions(&mut self, result: &mut MainMenuResult, label: &str, max_scale: u32)
        requires
            old(self).wf(),
            scale_bounded(old(self)@, max_scale),
        ensures
            final(self).wf(),
            scale_bounded(final(self)@, max_scale),
            step_of(*final(self), *final(result)) == actions_done(
                step_of(*old(self), *old(result)),
                label@,
                max_scale,
                12,
            ),
    {
        let ghost start = step_of(*self, *result);
        let mut i: usize = 0;
        while i < 12
            invariant
                i <= 12,
                start.menu.wf(),
                scale_bounded(start.menu, max_scale),
                step_of(*self, *result) == actions_done(start, label@, max_scale, i as nat),
            decreases 12 - i,
        {
            proof {
                lemma_actions_bounded(start, label@, max_scale, i as nat);
            }
            let entry = LABEL_ACTIONS[i];
            if starts_with(label, entry.0) {
                self.apply_action(result, entry.1, max_scale);
            }
            i = i + 1;
        }
        proof {
            lemma_actions_bounded(start, label@, max_scale, 12);
        }
    }

    /// Follows a label that leads to a screen.
    fn follow(&mut self, target: Option<Screen>, now: u64)
        requires
            old(self).wf(),
        ensures
            final(self).wf(),
            final(self)@.settings == old(self)@.settings,
            final(self)@ == old(self)@.followed(target, now),
    {
        if let Some(screen) = target {
            let packs: bool = matches!(screen, Screen::OptionsResourcePacks);
            if packs {
                self.rescan_packs = true;
            }
            self.set_screen(screen, now);
            if packs {
                self.fields.focused = Some(0);
            }
        }
    }

    /// A click on the button with a label.
    fn click_label(
        &mut self,
        result: &mut MainMenuResult,
        label: &str,
        nav: &Vec<NavEntry>,
        max_scale: u32,
        now: u64,
    )
        requires
            old(self).wf(),
            scale_bounded(old(self)@, max_scale),
        ensures
            final(self).wf(),
            scale_bounded(final(self)@, max_scale),
            step_of(*final(self), *final(result)) == label_clicked(
                step_of(*old(self), *old(result)),
                label@,
                nav@,
                max_scale,
                now,
            ),
    {
        let target = find_nav(label, nav);
        self.follow(target, now);
        self.apply_actions(result, label, max_scale);
    }

    /// A slider of the grid. Returns whether it was moved.
    fn drag_slider(&mut self, result: &mut MainMenuResult, id: SliderId, hit: CellHit, held: bool)
        -> (moved: bool)
        requires
            old(self).wf(),
        ensures
            final(self).wf(),
            final(self)@.settings == old(self)@.settings,
            ({
                let g = GridState {
                    s: step_of(*old(self), *old(result)),
                    moved: Seq::empty(),
                };
                let after = slider_done(g, id, hit, held);
                &&& step_of(*final(self), *final(result)) == after.s
                &&& moved == (after.moved.len() > 0)
                &&& moved == (held && (old(self)@.active_slider == Some(id) || hit.hovered))
            }),
    {
        let active: bool = match self.active_slider {
            Some(a) => a == id,
            None => false,
        };
        let dragging: bool = held && (active || hit.hovered);
        if dragging {
            self.active_slider = Some(id);
        } else if active {
            self.active_slider = None;
        }
        if hit.hovered {
            result.cursor_pointer = true;
        }
        dragging
    }

    /// A cell of the grid.
    fn handle_cell(
        &mut self,
        result: &mut MainMenuResult,
        moved: &mut Vec<(SliderId, u32)>,
        label: &str,
        page: &OptionsPage,
        hit: CellHit,
        input: &MenuInput,
        max_scale: u32,
        now: u64,
    )
        requires
            old(self).wf(),
            scale_bounded(old(self)@, max_scale),
        ensures
            final(self).wf(),
            scale_bounded(final(self)@, max_scale),
            (GridState { s: step_of(*final(self), *final(result)), moved: final(moved)@ })
                == cell_done(
                GridState { s: step_of(*old(self), *old(result)), moved: old(moved)@ },
                label@,
                page.nav@,
                page.sliders@,
                hit,
                *input,
                max_scale,
                now,
            ),
    {
        if label.is_empty() {
            return ;
        }
        match find_slider(label, &page.sliders) {
            Some(id) => {
                if self.drag_slider(result, id, hit, input.mouse_held) {
                    moved.push((id, hit.value));
                }
            },
            None => {
                if hit.hovered {
                    result.cursor_pointer = true;
                }
                if input.clicked && hit.hovered {
                    self.click_label(result, label, &page.nav, max_scale, now);
                }
            },
        }
    }

    /// Takes over the value of a moved slider.
    fn take_value(&mut self, result: &mut MainMenuResult, id: SliderId, value: u32)
        requires
            old(self).wf(),
        ensures
            final(self).wf(),
            step_of(*final(self), *final(result)) == value_taken(
                step_of(*old(self), *old(result)),
                (id, value),
            ),
    {
        if let Some(settings) = set_value(self.settings, id, value) {
            self.settings = settings;
            result.add_effect(Effect::SaveSettings);
        }
    }

    /// Takes over the values of moved sliders.
    fn take_values(&mut self, result: &mut MainMenuResult, moved: &Vec<(SliderId, u32)>)
        requires
            old(self).wf(),
        ensures
            final(self).wf(),
            step_of(*final(self), *final(result)) == values_taken(
                step_of(*old(self), *old(result)),
                moved@,
                moved@.len(),
            ),
    {
        let ghost start = step_of(*self, *result);
        let mut i: usize = 0;
        while i < moved.len()
            invariant
                i <= moved@.len(),
                self.wf(),
                step_of(*self, *result) == values_taken(start, moved@, i as nat),
            decreases moved@.len() - i,
        {
            let (id, value): (SliderId, u32) = moved[i];
            self.take_value(result, id, value);
            i = i + 1;
        }
    }

    /// A frame of an option screen, given the cells under the cursor and the
    /// largest scale that fits the window.
    pub fn build_options_grid(
        &mut self,
        input: &MenuInput,
        page: &OptionsPage,
        hits: &Vec<CellHit>,
        over_done: bool,
        max_scale: u32,
        now: u64,
    ) -> (result: MainMenuResult)
        requires
            old(self).wf(),
            scale_bounded(old(self)@, max_scale),
            hits@.len() == 2 * page.rows@.len(),
        ensures
            final(self).wf(),
            step_of(*final(self), result) == grid_frame(
                old(self)@,
                *input,
                *page,
                hits@,
                over_done,
                max_scale,
                now,
            ),
    {
        let mut result = MainMenuResult::new(2);
        if input.escape {
            self.set_screen(page.back.clone_screen(), now);
            return result;
        }
        let moved = self.handle_cells(&mut result, input, page, hits, max_scale, now);
        self.take_values(&mut result, &moved);
        if input.clicked && over_done {
            self.set_screen(page.back.clone_screen(), now);
        }
        if over_done {
            result.cursor_pointer = true;
        }
        result
    }

    /// The cells of a grid. Returns the sliders that were moved.
    fn handle_cells(
        &mut self,
        result: &mut MainMenuResult,
        input: &MenuInput,
        page: &OptionsPage,
        hits: &Vec<CellHit>,
        max_scale: u32,
        now: u64,
    ) -> (moved: Vec<(SliderId, u32)>)
        requires
            old(self).wf(),
            scale_bounded(old(self)@, max_scale),
            hits@.len() == 2 * page.rows@.len(),
        ensures
            final(self).wf(),
            (GridState { s: step_of(*final(self), *final(result)), moved: moved@ }) == cells_done(
                step_of(*old(self), *old(result)),
                *page,
                hits@,
                *input,
                max_scale,
                now,
                2 * page.rows@.len(),
            ),
    {
        let ghost start = step_of(*self, *result);
        let mut moved: Vec<(SliderId, u32)> = Vec::new();
        let mut cell: usize = 0;
        while cell < hits.len()
            invariant
                cell <= hits@.len(),
                hits@.len() == 2 * page.rows@.len(),
                self.wf(),
                scale_bounded(self@, max_scale),
                (GridState { s: step_of(*self, *result), moved: moved@ }) == cells_done(
                    start,
                    *page,
                    hits@,
                    *input,
                    max_scale,
                    now,
                    cell as nat,
                ),
            decreases hits@.len() - cell,
        {
            let row = &page.rows[cell / 2];
            let label = if cell % 2 == 0 { row.0.as_str() } else { row.1.as_str() };
            assert(label@ == cell_label(page.rows@, cell as int));
            self.handle_cell(result, &mut moved, label, page, hits[cell], input, max_scale, now);
            cell = cell + 1;
        }
        moved
    }

    /// A frame of a screen that is still to come.
    pub fn build_options_stub(
        &mut self,
        input: &MenuInput,
        back: Screen,
        over_done: bool,
        now: u64,
    ) -> (result: MainMenuResult)
        requires
            old(self).wf(),
        ensures
            final(self).wf(),
            step_of(*final(self), result) == if input.escape {
                Step { menu: old(self)@.entered(back, now), out: nothing(2) }
            } else if input.clicked && over_done {
                Step { menu: old(self)@.entered(back, now), out: nothing(2).pointing(true) }
            } else {
                Step { menu: old(self)@, out: nothing(2).pointing(over_done) }
            },
    {
        let mut result = MainMenuResult::new(2);
        if input.escape {
            self.set_screen(back, now);
            return result;
        }
        result.cursor_pointer = over_done;
        if input.clicked && over_done {
            self.set_screen(back, now);
        }
        result
    }

    /// The title of a screen that is still to come, and where it leads back to.
    pub fn stub_page(&self) -> (page: Option<(&'static str, Screen)>)
        ensures
            match page {
                Some((title, back)) => stub_of(self@) == Some((title@, back)),
                None => stub_of(self@) is None,
            },
    {
        match self.screen {
            Screen::OptionsKeybinds => Some(("Keybinds", Screen::OptionsControls)),
            Screen::OptionsLanguage => Some(("Language", self.settings_back.clone_screen())),
            Screen::OptionsTelemetry => Some(("Telemetry Data", Screen::Options)),
            Screen::OptionsCredits => Some(("Credits & Attribution", Screen::Options)),
            _ => None,
        }
    }
}

/// The title of a screen that is still to come, and where it leads back to.
pub open spec fn stub_of(menu: MenuModel) -> Option<(Seq<char>, Screen)> {
    match menu.screen {
        Screen::OptionsKeybinds => Some(("Keybinds"@, Screen::OptionsControls)),
        Screen::OptionsLanguage => Some(("Language"@, menu.settings_back)),
        Screen::OptionsTelemetry => Some(("Telemetry Data"@, Screen::Options)),
        Screen::OptionsCredits => Some(("Credits & Attribution"@, Screen::Options)),
        _ => None,
    }
}

/// The screen that a label leads to.
fn find_nav(label: &str, nav: &Vec<NavEntry>) -> (target: Option<Screen>)
    ensures
        target == target_from(label@, nav@, 0),
{
    let mut i: usize = 0;
    while i < nav.len()
        invariant
            i <= nav@.len(),
            target_from(label@, nav@, 0) == target_from(label@, nav@, i as nat),
        decreases nav@.len() - i,
    {
        if same_text(nav[i].label, label) {
            return Some(nav[i].target.clone_screen());
        }
        i = i + 1;
    }
    None
}

/// The slider that a label stands for.
fn find_slider(label: &str, sliders: &Vec<SliderId>) -> (id: Option<SliderId>)
    ensures
        id == slider_from(label@, sliders@, 0),
{
    let mut i: usize = 0;
    while i < sliders.len()
        invariant
            i <= sliders@.len(),
            slider_from(label@, sliders@, 0) == slider_from(label@, sliders@, i as nat),
        decreases sliders@.len() - i,
    {
        if starts_with(label, slider_prefix(sliders[i])) {
            return Some(sliders[i]);
        }
        i = i + 1;
    }
    None
}

/// A switch pressed twice is as it was.
#[verifier::rlimit(100)]
#[verifier::spinoff_prover]
pub proof fn switches_are_involutions(s: Settings, action: LabelAction, max_scale: u32)
    requires
        action != LabelAction::GuiScale,
    ensures
        settings_after(settings_after(s, action, max_scale), action, max_scale) == s,
{
}

/// The next scale always fits, and from one that fits it is the next larger one
/// or none.
pub proof fn next_scale_fits(scale: u32, max_scale: u32)
    requires
        max_scale < u32::MAX,
    ensures
        scale_after(scale, max_scale) <= max_scale,
        scale < max_scale ==> scale_after(scale, max_scale) == scale + 1,
        scale == max_scale ==> scale_after(scale, max_scale) == 0,
{
    let (a, b) = (scale + 1, max_scale + 1);
    assert(0 <= a % b < b) by (nonlinear_arith)
        requires
            0 < b,
    ;
    assert(a < b ==> a % b == a) by (nonlinear_arith)
        requires
            0 <= a,
    ;
    assert(a == b ==> a % b == 0) by (nonlinear_arith)
        requires
            0 < b,
    ;
}

/// Following a label to the resource packs has them looked for anew and gives their
/// search the focus; no other label does.
pub proof fn packs_are_looked_for_anew(menu: MenuModel, screen: Screen, now: u64)
    ensures
        ({
            let after = menu.followed(Some(screen), now);
            &&& after.screen == screen
            &&& screen is OptionsResourcePacks ==> after.rescan_packs && after.fields.focused
                == Some(0u8)
            &&& !(screen is OptionsResourcePacks) ==> after.rescan_packs == menu.rescan_packs
                && after.fields.focused is None
            &&& after.settings == menu.settings
            &&& menu.followed(None, now) == menu
        }),
{
}

/// A drag begins where the button is held over a slider, goes on wherever the cursor
/// is while the button is held, and ends with it. It reports the slider's value.
pub proof fn a_drag_ends_with_the_button(g: GridState, id: SliderId, hit: CellHit, held: bool)
    ensures
        ({
            let after = slider_done(g, id, hit, held);
            let was = g.s.menu.active_slider == Some(id);
            &&& held && (was || hit.hovered) ==> after.s.menu.active_slider == Some(id)
                && after.moved.last() == (id, hit.value) && after.moved.drop_last() == g.moved
            &&& !held || !(was || hit.hovered) ==> after.moved == g.moved
                && after.s.menu.active_slider != Some(id)
            &&& after.s.menu.settings == g.s.menu.settings
            &&& after.s.out.effects == g.s.out.effects
        }),
{
    let after = slider_done(g, id, hit, held);
    if after.moved.len() > g.moved.len() {
        assert(after.moved.drop_last() =~= g.moved);
    }
}

} // verus!
