//! What holds of the option screens: which setting a click switches, which slider
//! a drag moves, and where a label leads.

use crate::menu::options::{
    actions_done, cell_label, cells_done, grid_frame, label_clicked, next_scale_fits, scale_after,
    settings_after, slider_from, slider_start, target_from, values_taken, CellHit, DisplayMode,
    GridState, LabelAction, NavEntry, OptionsPage, LABEL_ACTIONS,
};
use crate::menu::pages::{page_rows, PageKind};
use crate::menu::state::{
    nothing, EffectView, MenuInput, MenuModel, Settings, SliderId, Step,
};
use crate::strings::has_prefix;
use vstd::prelude::*;

verus! {

/// Whether a label begins with a name.
pub open spec fn begins(label: Seq<char>, name: Seq<char>) -> bool {
    label.len() >= name.len() && label.take(name.len() as int) == name
}

/// Whether the settings after a click differ from those before in what the label
/// names, and in nothing else: each switch is turned over by its own label, and the
/// scale moves on by its own.
pub open spec fn switches_its_own(
    label: Seq<char>,
    before: Settings,
    after: Settings,
    max_scale: u32,
) -> bool {
    &&& after.skin_cape == (before.skin_cape != begins(label, "Cape:"@))
    &&& after.skin_jacket == (before.skin_jacket != begins(label, "Jacket:"@))
    &&& after.skin_left_sleeve == (before.skin_left_sleeve != begins(label, "Left Sleeve:"@))
    &&& after.skin_right_sleeve == (before.skin_right_sleeve != begins(label, "Right Sleeve:"@))
    &&& after.skin_left_pants == (before.skin_left_pants != begins(label, "Left Pants Leg:"@))
    &&& after.skin_right_pants == (before.skin_right_pants != begins(label, "Right Pants Leg:"@))
    &&& after.skin_hat == (before.skin_hat != begins(label, "Hat:"@))
    &&& after.skin_main_hand_right == (before.skin_main_hand_right != begins(label, "Main Hand:"@))
    &&& after.show_online_status == (before.show_online_status != begins(
        label,
        "Show Online Status:"@,
    ))
    &&& after.show_current_server == (before.show_current_server != begins(
        label,
        "Show Current Server:"@,
    ))
    &&& begins(label, "GUI Scale:"@) && before.gui_scale < max_scale ==> after.gui_scale
        == before.gui_scale + 1
    &&& begins(label, "GUI Scale:"@) && before.gui_scale == max_scale ==> after.gui_scale == 0
    &&& !begins(label, "GUI Scale:"@) ==> after.gui_scale == before.gui_scale
    &&& after.render_distance == before.render_distance
    &&& after.simulation_distance == before.simulation_distance
    &&& after.fov == before.fov
}

proof fn lemma_begins(label: Seq<char>, name: Seq<char>)
    ensures
        has_prefix(label, name) == begins(label, name),
{
    if name.len() <= label.len() {
        assert(label.subrange(0, name.len() as int) =~= label.take(name.len() as int));
    }
}

proof fn lemma_scale(scale: u32, max_scale: u32)
    requires
        max_scale < u32::MAX,
        scale <= max_scale,
    ensures
        scale_after(scale, max_scale) == if scale == max_scale {
            0
        } else {
            scale + 1
        },
{
    next_scale_fits(scale, max_scale);
}

/// Whether the first `n` actions that a label may ask for are done.
spec fn is_done_up_to(
    label: Seq<char>,
    before: Settings,
    after: Settings,
    max_scale: u32,
    n: nat,
) -> bool {
    &&& after.show_online_status == (before.show_online_status != (n > 2 && has_prefix(label, "Show Online Status:"@)))
    &&& after.show_current_server == (before.show_current_server != (n > 3 && has_prefix(label, "Show Current Server:"@)))
    &&& after.skin_cape == (before.skin_cape != (n > 4 && has_prefix(label, "Cape:"@)))
    &&& after.skin_jacket == (before.skin_jacket != (n > 5 && has_prefix(label, "Jacket:"@)))
    &&& after.skin_left_sleeve == (before.skin_left_sleeve != (n > 6 && has_prefix(label, "Left Sleeve:"@)))
    &&& after.skin_right_sleeve == (before.skin_right_sleeve != (n > 7 && has_prefix(label, "Right Sleeve:"@)))
    &&& after.skin_left_pants == (before.skin_left_pants != (n > 8 && has_prefix(label, "Left Pants Leg:"@)))
    &&& after.skin_right_pants == (before.skin_right_pants != (n > 9 && has_prefix(label, "Right Pants Leg:"@)))
    &&& after.skin_hat == (before.skin_hat != (n > 10 && has_prefix(label, "Hat:"@)))
    &&& after.skin_main_hand_right == (before.skin_main_hand_right != (n > 11 && has_prefix(label, "Main Hand:"@)))
    &&& after.gui_scale == if n > 0 && has_prefix(label, "GUI Scale:"@) {
        scale_after(before.gui_scale, max_scale)
    } else {
        before.gui_scale
    }
    &&& after.render_distance == before.render_distance
    &&& after.simulation_distance == before.simulation_distance
    &&& after.fov == before.fov
}

/// Whether an action and the name that asks for it stand at place `n`.
spec fn stands_at(n: nat, name: Seq<char>, action: LabelAction) -> bool {
    &&& n < 12
    &&& n == 0 ==> name == "GUI Scale:"@ && action == LabelAction::GuiScale
    &&& n == 1 ==> name == "Fullscreen:"@ && action == LabelAction::Fullscreen
    &&& n == 2 ==> name == "Show Online Status:"@ && action == LabelAction::OnlineStatus
    &&& n == 3 ==> name == "Show Current Server:"@ && action == LabelAction::CurrentServer
    &&& n == 4 ==> name == "Cape:"@ && action == LabelAction::Cape
    &&& n == 5 ==> name == "Jacket:"@ && action == LabelAction::Jacket
    &&& n == 6 ==> name == "Left Sleeve:"@ && action == LabelAction::LeftSleeve
    &&& n == 7 ==> name == "Right Sleeve:"@ && action == LabelAction::RightSleeve
    &&& n == 8 ==> name == "Left Pants Leg:"@ && action == LabelAction::LeftPants
    &&& n == 9 ==> name == "Right Pants Leg:"@ && action == LabelAction::RightPants
    &&& n == 10 ==> name == "Hat:"@ && action == LabelAction::Hat
    &&& n == 11 ==> name == "Main Hand:"@ && action == LabelAction::MainHand
}

proof fn lemma_table(n: nat)
    requires
        n < 12,
    ensures
        stands_at(n, LABEL_ACTIONS@[n as int].0@, LABEL_ACTIONS@[n as int].1),
{
    assert(LABEL_ACTIONS@[0] == ("GUI Scale:", LabelAction::GuiScale));
    assert(LABEL_ACTIONS@[1] == ("Fullscreen:", LabelAction::Fullscreen));
    assert(LABEL_ACTIONS@[2] == ("Show Online Status:", LabelAction::OnlineStatus));
    assert(LABEL_ACTIONS@[3] == ("Show Current Server:", LabelAction::CurrentServer));
    assert(LABEL_ACTIONS@[4] == ("Cape:", LabelAction::Cape));
    assert(LABEL_ACTIONS@[5] == ("Jacket:", LabelAction::Jacket));
    assert(LABEL_ACTIONS@[6] == ("Left Sleeve:", LabelAction::LeftSleeve));
    assert(LABEL_ACTIONS@[7] == ("Right Sleeve:", LabelAction::RightSleeve));
    assert(LABEL_ACTIONS@[8] == ("Left Pants Leg:", LabelAction::LeftPants));
    assert(LABEL_ACTIONS@[9] == ("Right Pants Leg:", LabelAction::RightPants));
    assert(LABEL_ACTIONS@[10] == ("Hat:", LabelAction::Hat));
    assert(LABEL_ACTIONS@[11] == ("Main Hand:", LabelAction::MainHand));
}

#[verifier::rlimit(40)]
proof fn lemma_switch(
    label: Seq<char>,
    before: Settings,
    after: Settings,
    max_scale: u32,
    n: nat,
    name: Seq<char>,
    action: LabelAction,
)
    requires
        stands_at(n, name, action),
        is_done_up_to(label, before, after, max_scale, n),
    ensures
        is_done_up_to(
            label,
            before,
            if has_prefix(label, name) {
                settings_after(after, action, max_scale)
            } else {
                after
            },
            max_scale,
            n + 1,
        ),
{
}

proof fn lemma_done_up_to(s: Step, label: Seq<char>, max_scale: u32, n: nat)
    requires
        n <= 12,
    ensures
        is_done_up_to(
            label,
            s.menu.settings,
            actions_done(s, label, max_scale, n).menu.settings,
            max_scale,
            n,
        ),
    decreases n,
{
    if n > 0 {
        let m = (n - 1) as nat;
        lemma_done_up_to(s, label, max_scale, m);
        lemma_table(m);
        lemma_switch(
            label,
            s.menu.settings,
            actions_done(s, label, max_scale, m).menu.settings,
            max_scale,
            m,
            LABEL_ACTIONS@[m as int].0@,
            LABEL_ACTIONS@[m as int].1,
        );
    }
}

/// A click on a label switches the setting that the label names, and no other. The
/// settings are then saved. The label of the display mode changes that instead.
pub proof fn labels_switch_their_own_setting(s: Step, label: Seq<char>, max_scale: u32)
    requires
        max_scale < u32::MAX,
        s.menu.settings.gui_scale <= max_scale,
    ensures
        ({
            let after = actions_done(s, label, max_scale, 12);
            &&& switches_its_own(label, s.menu.settings, after.menu.settings, max_scale)
            &&& after.menu == MenuModel { settings: after.menu.settings, ..s.menu }
            &&& after.out.action == s.out.action
            &&& s.out.effects.len() <= after.out.effects.len()
            &&& after.out.effects.take(s.out.effects.len() as int) == s.out.effects
        }),
{
    lemma_begins(label, "GUI Scale:"@);
    lemma_begins(label, "Fullscreen:"@);
    lemma_begins(label, "Show Online Status:"@);
    lemma_begins(label, "Show Current Server:"@);
    lemma_begins(label, "Cape:"@);
    lemma_begins(label, "Jacket:"@);
    lemma_begins(label, "Left Sleeve:"@);
    lemma_begins(label, "Right Sleeve:"@);
    lemma_begins(label, "Left Pants Leg:"@);
    lemma_begins(label, "Right Pants Leg:"@);
    lemma_begins(label, "Hat:"@);
    lemma_begins(label, "Main Hand:"@);
    lemma_scale(s.menu.settings.gui_scale, max_scale);
    lemma_effects_grow(s, label, max_scale, 12);
    lemma_only_settings(s, label, max_scale, 12);
    lemma_done_up_to(s, label, max_scale, 12);
}

proof fn lemma_only_settings(s: Step, label: Seq<char>, max_scale: u32, n: nat)
    ensures
        ({
            let after = actions_done(s, label, max_scale, n);
            after.menu == MenuModel { settings: after.menu.settings, ..s.menu }
        }),
    decreases n,
{
    if n > 0 {
        lemma_only_settings(s, label, max_scale, (n - 1) as nat);
    }
}

proof fn lemma_effects_grow(s: Step, label: Seq<char>, max_scale: u32, n: nat)
    ensures
        ({
            let after = actions_done(s, label, max_scale, n);
            &&& after.out.action == s.out.action
            &&& s.out.effects.len() <= after.out.effects.len()
            &&& after.out.effects.take(s.out.effects.len() as int) == s.out.effects
        }),
    decreases n,
{
    if n > 0 {
        lemma_effects_grow(s, label, max_scale, (n - 1) as nat);
        let before = actions_done(s, label, max_scale, (n - 1) as nat);
        let after = actions_done(s, label, max_scale, n);
        assert(after.out.effects.take(s.out.effects.len() as int)
            =~= before.out.effects.take(s.out.effects.len() as int));
    } else {
        assert(s.out.effects.take(s.out.effects.len() as int) =~= s.out.effects);
    }
}

/// A label leads to the screen of the first entry that is written like it, and
/// nowhere where there is none.
pub proof fn labels_lead_where_they_say(label: Seq<char>, nav: Seq<NavEntry>, k: int)
    requires
        0 <= k <= nav.len(),
        forall|i: int| 0 <= i < k ==> (#[trigger] nav[i]).label@ != label,
        k < nav.len() ==> nav[k].label@ == label,
    ensures
        target_from(label, nav, 0) == if k < nav.len() {
            Some(nav[k].target)
        } else {
            None
        },
{
    lemma_target(label, nav, k, 0);
}

proof fn lemma_target(label: Seq<char>, nav: Seq<NavEntry>, k: int, i: nat)
    requires
        0 <= i <= k <= nav.len(),
        forall|j: int| i <= j < k ==> (#[trigger] nav[j]).label@ != label,
        k < nav.len() ==> nav[k].label@ == label,
    ensures
        target_from(label, nav, i) == if k < nav.len() {
            Some(nav[k].target)
        } else {
            None
        },
    decreases nav.len() - i,
{
    if i < k {
        assert(nav[i as int].label@ != label);
        lemma_target(label, nav, k, i + 1);
    }
}

/// A slider is found by the name that its label begins with.
pub proof fn sliders_are_found_by_their_names(label: Seq<char>, sliders: Seq<SliderId>, i: nat)
    requires
        i <= sliders.len(),
    ensures
        match slider_from(label, sliders, i) {
            Some(id) => sliders.contains(id) && begins(label, slider_start(id)),
            None => forall|k: int|
                i <= k < sliders.len() ==> !begins(label, slider_start(#[trigger] sliders[k])),
        },
        slider_start(SliderId::Fov) == "FOV:"@,
        slider_start(SliderId::RenderDistance) == "Render Distance:"@,
        slider_start(SliderId::SimulationDistance) == "Simulation Distance:"@,
    decreases sliders.len() - i,
{
    if i < sliders.len() {
        lemma_begins(label, slider_start(sliders[i as int]));
        sliders_are_found_by_their_names(label, sliders, i + 1);
    }
}

/// Whether the cursor is over cell `c` and over no other.
pub open spec fn is_over_only(hits: Seq<CellHit>, c: int) -> bool {
    forall|k: int| 0 <= k < hits.len() ==> (#[trigger] hits[k]).hovered == (k == c)
}

proof fn lemma_cells_before(
    s: Step,
    page: OptionsPage,
    hits: Seq<CellHit>,
    input: MenuInput,
    max_scale: u32,
    now: u64,
    n: nat,
)
    requires
        n <= hits.len(),
        s.menu.active_slider is None,
        forall|k: int| 0 <= k < n ==> !(#[trigger] hits[k]).hovered,
    ensures
        cells_done(s, page, hits, input, max_scale, now, n) == (GridState {
            s,
            moved: Seq::empty(),
        }),
    decreases n,
{
    if n > 0 {
        lemma_cells_before(s, page, hits, input, max_scale, now, (n - 1) as nat);
        assert(!hits[n - 1].hovered);
    }
}

/// A drag moves the slider that the cursor is over: that one setting takes the
/// value, all others stay, and the settings are saved. A slider without a setting
/// of its own changes none.
pub proof fn a_drag_moves_one_slider(
    menu: MenuModel,
    input: MenuInput,
    page: OptionsPage,
    hits: Seq<CellHit>,
    max_scale: u32,
    now: u64,
    c: int,
    id: SliderId,
)
    requires
        !input.escape,
        input.mouse_held,
        menu.active_slider is None,
        hits.len() == 2 * page.rows@.len(),
        0 <= c < hits.len(),
        is_over_only(hits, c),
        cell_label(page.rows@, c).len() > 0,
        slider_from(cell_label(page.rows@, c), page.sliders@, 0) == Some(id),
        forall|k: int|
            c < k < hits.len() ==> slider_from(
                #[trigger] cell_label(page.rows@, k),
                page.sliders@,
                0,
            ) != Some(id),
    ensures
        ({
            let s = grid_frame(menu, input, page, hits, false, max_scale, now);
            let (old, new) = (menu.settings, s.menu.settings);
            let value = hits[c].value;
            &&& s.menu.active_slider == Some(id)
            &&& s.menu.screen == menu.screen
            &&& new == match id {
                SliderId::Fov => Settings { fov: value, ..old },
                SliderId::RenderDistance => Settings { render_distance: value, ..old },
                SliderId::SimulationDistance => Settings { simulation_distance: value, ..old },
                _ => old,
            }
            &&& s.out.effects == if id == SliderId::Fov || id == SliderId::RenderDistance || id
                == SliderId::SimulationDistance {
                seq![EffectView::SaveSettings]
            } else {
                Seq::empty()
            }
            &&& s.out.cursor_pointer
        }),
{
    let s = Step { menu, out: nothing(2) };
    assert forall|k: int| 0 <= k < c implies !(#[trigger] hits[k]).hovered by {}
    lemma_cells_before(s, page, hits, input, max_scale, now, c as nat);
    let here = cells_done(s, page, hits, input, max_scale, now, (c + 1) as nat);
    assert(hits[c].hovered);
    assert(here.moved =~= seq![(id, hits[c].value)]);
    lemma_cells_after(s, page, hits, input, max_scale, now, c, id, hits.len());
    reveal_with_fuel(values_taken, 2);
}

proof fn lemma_cells_after(
    s: Step,
    page: OptionsPage,
    hits: Seq<CellHit>,
    input: MenuInput,
    max_scale: u32,
    now: u64,
    c: int,
    id: SliderId,
    n: nat,
)
    requires
        0 <= c < n <= hits.len(),
        is_over_only(hits, c),
        cells_done(s, page, hits, input, max_scale, now, (c + 1) as nat).s.menu.active_slider
            == Some(id),
        forall|k: int|
            c < k < hits.len() ==> slider_from(
                #[trigger] cell_label(page.rows@, k),
                page.sliders@,
                0,
            ) != Some(id),
    ensures
        cells_done(s, page, hits, input, max_scale, now, n) == cells_done(
            s,
            page,
            hits,
            input,
            max_scale,
            now,
            (c + 1) as nat,
        ),
    decreases n,
{
    if n > c + 1 {
        lemma_cells_after(s, page, hits, input, max_scale, now, c, id, (n - 1) as nat);
        assert(!hits[n - 1].hovered);
        let label = cell_label(page.rows@, n - 1);
        assert(slider_from(label, page.sliders@, 0) != Some(id));
    }
}

/// A click on a cell that is no slider does what its label says, and what no other
/// label says. A label that leads to a screen opens it.
pub proof fn a_click_does_what_its_label_says(
    menu: MenuModel,
    input: MenuInput,
    page: OptionsPage,
    hits: Seq<CellHit>,
    max_scale: u32,
    now: u64,
    c: int,
)
    requires
        !input.escape,
        input.clicked,
        menu.active_slider is None,
        max_scale < u32::MAX,
        menu.settings.gui_scale <= max_scale,
        hits.len() == 2 * page.rows@.len(),
        0 <= c < hits.len(),
        is_over_only(hits, c),
        cell_label(page.rows@, c).len() > 0,
        slider_from(cell_label(page.rows@, c), page.sliders@, 0) is None,
    ensures
        ({
            let s = grid_frame(menu, input, page, hits, false, max_scale, now);
            let label = cell_label(page.rows@, c);
            &&& switches_its_own(label, menu.settings, s.menu.settings, max_scale)
            &&& match target_from(label, page.nav@, 0) {
                Some(screen) => s.menu.screen == screen,
                None => s.menu == MenuModel { settings: s.menu.settings, ..menu },
            }
            &&& s.menu.servers == menu.servers
            &&& s.out.action is Nothing
            &&& s.out.cursor_pointer
        }),
{
    let s = Step { menu, out: nothing(2) };
    let label = cell_label(page.rows@, c);
    assert forall|k: int| 0 <= k < c implies !(#[trigger] hits[k]).hovered by {}
    lemma_cells_before(s, page, hits, input, max_scale, now, c as nat);
    let here = cells_done(s, page, hits, input, max_scale, now, (c + 1) as nat);
    let over = Step { out: s.out.pointing(true), ..s };
    assert(hits[c].hovered);
    assert(here.s == label_clicked(over, label, page.nav@, max_scale, now));
    let followed = Step {
        menu: menu.followed(target_from(label, page.nav@, 0), now),
        ..over
    };
    labels_switch_their_own_setting(followed, label, max_scale);
    assert(here.s.menu.active_slider is None);
    lemma_idle_after(s, page, hits, input, max_scale, now, c, hits.len());
    assert(here.moved.len() == 0);
    lemma_pointing_stays(followed, label, max_scale, 12);
}

proof fn lemma_pointing_stays(s: Step, label: Seq<char>, max_scale: u32, n: nat)
    ensures
        actions_done(s, label, max_scale, n).out.cursor_pointer == s.out.cursor_pointer,
    decreases n,
{
    if n > 0 {
        lemma_pointing_stays(s, label, max_scale, (n - 1) as nat);
    }
}

proof fn lemma_idle_after(
    s: Step,
    page: OptionsPage,
    hits: Seq<CellHit>,
    input: MenuInput,
    max_scale: u32,
    now: u64,
    c: int,
    n: nat,
)
    requires
        0 <= c < n <= hits.len(),
        is_over_only(hits, c),
        cells_done(s, page, hits, input, max_scale, now, (c + 1) as nat).s.menu.active_slider
            is None,
    ensures
        cells_done(s, page, hits, input, max_scale, now, n) == cells_done(
            s,
            page,
            hits,
            input,
            max_scale,
            now,
            (c + 1) as nat,
        ),
    decreases n,
{
    if n > c + 1 {
        lemma_idle_after(s, page, hits, input, max_scale, now, c, (n - 1) as nat);
        assert(!hits[n - 1].hovered);
    }
}

/// With the cursor over no cell nothing changes but the screen: Done and the escape
/// key lead back.
pub proof fn done_leads_back(
    menu: MenuModel,
    input: MenuInput,
    page: OptionsPage,
    hits: Seq<CellHit>,
    over_done: bool,
    max_scale: u32,
    now: u64,
)
    requires
        hits.len() == 2 * page.rows@.len(),
        menu.active_slider is None,
        forall|k: int| 0 <= k < hits.len() ==> !(#[trigger] hits[k]).hovered,
    ensures
        ({
            let s = grid_frame(menu, input, page, hits, over_done, max_scale, now);
            let back = input.escape || (input.clicked && over_done);
            &&& s.menu.settings == menu.settings
            &&& s.menu.servers == menu.servers
            &&& s.out.effects.len() == 0
            &&& s.out.action is Nothing
            &&& back ==> s.menu.screen == page.back
            &&& !back ==> s.menu == menu
            &&& !input.escape ==> s.out.cursor_pointer == over_done
        }),
{
    lemma_cells_before(
        Step { menu, out: nothing(2) },
        page,
        hits,
        input,
        max_scale,
        now,
        hits.len(),
    );
}

/// Whether one of the first `n` names that change a setting begins a label.
pub open spec fn names_a_setting(label: Seq<char>, n: nat) -> bool {
    exists|k: int|
        0 <= k < n && (#[trigger] LABEL_ACTIONS@[k]).1 != LabelAction::Fullscreen && begins(
            label,
            LABEL_ACTIONS@[k].0@,
        )
}

/// Whether one of the first `n` names that change the display mode begins a label.
pub open spec fn names_the_mode(label: Seq<char>, n: nat) -> bool {
    exists|k: int|
        0 <= k < n && (#[trigger] LABEL_ACTIONS@[k]).1 == LabelAction::Fullscreen && begins(
            label,
            LABEL_ACTIONS@[k].0@,
        )
}

/// A label that changes a setting has the settings saved, and one that changes the
/// display mode has that changed; other labels ask for nothing.
pub proof fn labels_save_what_they_change(s: Step, label: Seq<char>, max_scale: u32, n: nat)
    requires
        s.out.effects.len() == 0,
        n <= 12,
    ensures
        ({
            let effects = actions_done(s, label, max_scale, n).out.effects;
            &&& effects.contains(EffectView::SaveSettings) <==> names_a_setting(label, n)
            &&& effects.contains(EffectView::CycleDisplayMode) <==> names_the_mode(label, n)
            &&& forall|i: int|
                0 <= i < effects.len() ==> #[trigger] effects[i] == EffectView::SaveSettings
                    || effects[i] == EffectView::CycleDisplayMode
        }),
    decreases n,
{
    if n > 0 {
        let m = (n - 1) as nat;
        labels_save_what_they_change(s, label, max_scale, m);
        let (name, action) = (LABEL_ACTIONS@[m as int].0@, LABEL_ACTIONS@[m as int].1);
        lemma_begins(label, name);
        let before = actions_done(s, label, max_scale, m).out.effects;
        let after = actions_done(s, label, max_scale, n).out.effects;
        if has_prefix(label, name) {
            let effect = if action == LabelAction::Fullscreen {
                EffectView::CycleDisplayMode
            } else {
                EffectView::SaveSettings
            };
            assert(after == before.push(effect));
            lemma_pushed(before, effect, EffectView::SaveSettings);
            lemma_pushed(before, effect, EffectView::CycleDisplayMode);
            assert(LABEL_ACTIONS@[m as int].0@ == name);
        }
        lemma_named(label, m);
    }
}

proof fn lemma_pushed(effects: Seq<EffectView>, effect: EffectView, x: EffectView)
    ensures
        effects.push(effect).contains(x) <==> effects.contains(x) || x == effect,
{
    let all = effects.push(effect);
    if effects.contains(x) {
        let i = effects.index_of(x);
        assert(all[i] == x);
    }
    if x == effect {
        assert(all[effects.len() as int] == x);
    }
    if all.contains(x) {
        let i = all.index_of(x);
        if i < effects.len() {
            assert(effects[i] == x);
        }
    }
}

proof fn lemma_named(label: Seq<char>, m: nat)
    ensures
        names_a_setting(label, m + 1) <==> names_a_setting(label, m) || (LABEL_ACTIONS@[m as int].1
            != LabelAction::Fullscreen && begins(label, LABEL_ACTIONS@[m as int].0@)),
        names_the_mode(label, m + 1) <==> names_the_mode(label, m) || (LABEL_ACTIONS@[m as int].1
            == LabelAction::Fullscreen && begins(label, LABEL_ACTIONS@[m as int].0@)),
{
}

/// Every switch on the pages of the skin and of the online options shows the setting
/// that a click on it changes: its label is the name of that setting, followed by
/// whether it is on.
pub proof fn switches_show_what_they_change(s: Settings, mode: DisplayMode)
    ensures
        ({
            let skin = page_rows(PageKind::Skin, s, mode);
            let online = page_rows(PageKind::Online, s, mode);
            let shown = |name: Seq<char>, on: bool|
                name + " "@ + if on {
                    "ON"@
                } else {
                    "OFF"@
                };
            &&& skin[0].0 == shown("Cape:"@, s.skin_cape)
            &&& skin[0].1 == shown("Jacket:"@, s.skin_jacket)
            &&& skin[1].0 == shown("Left Sleeve:"@, s.skin_left_sleeve)
            &&& skin[1].1 == shown("Right Sleeve:"@, s.skin_right_sleeve)
            &&& skin[2].0 == shown("Left Pants Leg:"@, s.skin_left_pants)
            &&& skin[2].1 == shown("Right Pants Leg:"@, s.skin_right_pants)
            &&& skin[3].0 == shown("Hat:"@, s.skin_hat)
            &&& online[1].0 == shown("Show Online Status:"@, s.show_online_status)
            &&& online[1].1 == shown("Show Current Server:"@, s.show_current_server)
        }),
{
    reveal_strlit(" ");
    reveal_strlit("Cape:");
    reveal_strlit("Cape: ");
    reveal_strlit("Jacket:");
    reveal_strlit("Jacket: ");
    reveal_strlit("Left Sleeve:");
    reveal_strlit("Left Sleeve: ");
    reveal_strlit("Right Sleeve:");
    reveal_strlit("Right Sleeve: ");
    reveal_strlit("Left Pants Leg:");
    reveal_strlit("Left Pants Leg: ");
    reveal_strlit("Right Pants Leg:");
    reveal_strlit("Right Pants Leg: ");
    reveal_strlit("Hat:");
    reveal_strlit("Hat: ");
    reveal_strlit("Show Online Status:");
    reveal_strlit("Show Online Status: ");
    reveal_strlit("Show Current Server:");
    reveal_strlit("Show Current Server: ");
    assert("Cape:"@ + " "@ =~= "Cape: "@);
    assert("Jacket:"@ + " "@ =~= "Jacket: "@);
    assert("Left Sleeve:"@ + " "@ =~= "Left Sleeve: "@);
    assert("Right Sleeve:"@ + " "@ =~= "Right Sleeve: "@);
    assert("Left Pants Leg:"@ + " "@ =~= "Left Pants Leg: "@);
    assert("Right Pants Leg:"@ + " "@ =~= "Right Pants Leg: "@);
    assert("Hat:"@ + " "@ =~= "Hat: "@);
    assert("Show Online Status:"@ + " "@ =~= "Show Online Status: "@);
    assert("Show Current Server:"@ + " "@ =~= "Show Current Server: "@);
}

} // verus!
