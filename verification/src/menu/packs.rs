//! The resource pack screen.

use crate::menu::servers::form_fields;
use crate::menu::fields::FieldModel;
use crate::menu::state::{
    nothing, step_of, Effect, EffectView, MainMenu, MainMenuResult, MenuInput,
    MenuModel, PackCompat, PackInfo, PackSource, Screen, Step,
};
use crate::strings::{holds, lowered, text_contains, to_lowercase};
use vstd::prelude::*;

verus! {

/// How a pack's fit is shown, and whether as a warning.
pub open spec fn shown_compat(compat: PackCompat) -> (Seq<char>, bool) {
    match compat {
        PackCompat::Compatible => ("Compatible"@, false),
        PackCompat::TooOld => ("Made for an older version"@, true),
        PackCompat::TooNew => ("Made for a newer version"@, true),
    }
}

/// How a pack's fit is shown, and whether as a warning.
pub fn compat_label(compat: PackCompat) -> (label: (&'static str, bool))
    ensures
        (label.0@, label.1) == shown_compat(compat),
{
    match compat {
        PackCompat::Compatible => ("Compatible", false),
        PackCompat::TooOld => ("Made for an older version", true),
        PackCompat::TooNew => ("Made for a newer version", true),
    }
}

/// The name of a selected pack as it is shown: a server's pack is marked.
pub open spec fn shown_name(pack: PackInfo) -> Seq<char> {
    if pack.source == PackSource::Server {
        "[Server] "@ + pack.name@
    } else {
        pack.name@
    }
}

/// The name of a selected pack as it is shown.
pub fn pack_label(pack: &PackInfo) -> (label: String)
    ensures
        label@ == shown_name(*pack),
{
    if pack.source == PackSource::Server {
        "[Server] ".to_owned().concat(pack.name.as_str())
    } else {
        pack.name.clone()
    }
}

/// Whether a pack is offered under a search: it is not in use, and its name or
/// its description holds what is searched for, without regard to case.
pub open spec fn offered(pack: PackInfo, search: Seq<char>) -> bool {
    let wanted = lowered(search);
    !pack.enabled && (wanted.len() == 0 || holds(lowered(pack.name@), wanted) || holds(
        lowered(pack.description@),
        wanted,
    ))
}

/// The places of those of the first `n` packs that are offered.
pub open spec fn offered_packs(packs: Seq<PackInfo>, search: Seq<char>, n: nat) -> Seq<usize>
    decreases n,
{
    if n == 0 {
        Seq::empty()
    } else if offered(packs[n - 1], search) {
        offered_packs(packs, search, (n - 1) as nat).push((n - 1) as usize)
    } else {
        offered_packs(packs, search, (n - 1) as nat)
    }
}

/// Whether a pack is offered, given the search in lower case.
fn is_offered(pack: &PackInfo, wanted: &String, search: Ghost<Seq<char>>) -> (offer: bool)
    requires
        wanted@ == lowered(search@),
    ensures
        offer == offered(*pack, search@),
{
    !pack.enabled && (wanted.as_str().is_empty() || text_contains(
        to_lowercase(pack.name.as_str()).as_str(),
        wanted.as_str(),
    ) || text_contains(to_lowercase(pack.description.as_str()).as_str(), wanted.as_str()))
}

/// The places of the packs that are offered under a search.
pub fn visible_packs(packs: &Vec<PackInfo>, search: &String) -> (places: Vec<usize>)
    ensures
        places@ == offered_packs(packs@, search@, packs@.len()),
        forall|i: int| 0 <= i < places@.len() ==> (#[trigger] places@[i]) < packs@.len(),
{
    let wanted = to_lowercase(search.as_str());
    let mut places: Vec<usize> = Vec::new();
    let mut i: usize = 0;
    while i < packs.len()
        invariant
            i <= packs@.len(),
            wanted@ == lowered(search@),
            places@ == offered_packs(packs@, search@, i as nat),
            forall|k: int| 0 <= k < places@.len() ==> (#[trigger] places@[k]) < i,
        decreases packs@.len() - i,
    {
        if is_offered(&packs[i], &wanted, Ghost(search@)) {
            places.push(i);
        }
        i = i + 1;
    }
    places
}

/// The pack that a click on a row of the offered ones asks to be used, after the
/// first `n` rows that the cursor is over.
pub open spec fn enabling(
    toggle: Option<(Seq<char>, bool)>,
    packs: Seq<PackInfo>,
    places: Seq<usize>,
    rows: Seq<usize>,
    n: nat,
) -> Option<(Seq<char>, bool)>
    decreases n,
{
    if n == 0 {
        toggle
    } else if rows[n - 1] < places.len() {
        Some((packs[places[rows[n - 1] as int] as int].name@, true))
    } else {
        enabling(toggle, packs, places, rows, (n - 1) as nat)
    }
}

/// The pack that a click on a row of the selected ones asks to be left out,
/// after the first `n` rows that the cursor is over. A server's pack stays.
pub open spec fn disabling(
    toggle: Option<(Seq<char>, bool)>,
    packs: Seq<PackInfo>,
    rows: Seq<usize>,
    n: nat,
) -> Option<(Seq<char>, bool)>
    decreases n,
{
    if n == 0 {
        toggle
    } else if rows[n - 1] < packs.len() && packs[rows[n - 1] as int].source
        != PackSource::Server {
        Some((packs[rows[n - 1] as int].name@, false))
    } else {
        disabling(toggle, packs, rows, (n - 1) as nat)
    }
}

/// Whether one of the first `n` rows that the cursor is over is a pack that can
/// be clicked.
pub open spec fn over_offered(count: nat, rows: Seq<usize>) -> bool {
    exists|i: int| 0 <= i < rows.len() && (#[trigger] rows[i]) < count
}

/// Whether one of the rows that the cursor is over is a selected pack that can
/// be clicked.
pub open spec fn over_selected(packs: Seq<PackInfo>, rows: Seq<usize>) -> bool {
    exists|i: int|
        0 <= i < rows.len() && (#[trigger] rows[i]) < packs.len() && packs[rows[i] as int].source
            != PackSource::Server
}

/// What the cursor is over on the resource pack screen: rows of the offered and
/// of the selected packs, the search field and the buttons.
pub struct PackHits {
    pub field: bool,
    pub available: Vec<usize>,
    pub selected: Vec<usize>,
    pub folder: bool,
    pub done: bool,
}

/// The menu after clicks on packs.
pub open spec fn packs_clicked(menu: MenuModel, hits: PackHits) -> MenuModel {
    let places = offered_packs(
        menu.available_packs,
        menu.fields.pack_search,
        menu.available_packs.len(),
    );
    let t1 = enabling(
        menu.pack_toggle,
        menu.available_packs,
        places,
        hits.available@,
        hits.available@.len(),
    );
    MenuModel {
        pack_toggle: disabling(
            t1,
            menu.active_packs,
            hits.selected@,
            hits.selected@.len(),
        ),
        reload_assets: menu.reload_assets || over_offered(places.len(), hits.available@)
            || over_selected(menu.active_packs, hits.selected@),
        ..menu
    }
}

impl MenuModel {
    /// The menu with the search forgotten and the options entered.
    pub open spec fn packs_left(self, now: u64) -> MenuModel {
        MenuModel {
            fields: FieldModel { pack_search: Seq::empty(), ..self.fields },
            ..self
        }.entered(Screen::Options, now)
    }
}

/// A frame of the resource pack screen.
pub open spec fn packs_frame(menu: MenuModel, input: MenuInput, hits: PackHits, now: u64) -> Step {
    if input.escape {
        Step { menu: menu.packs_left(now), out: nothing(2) }
    } else {
        let m1 = MenuModel {
            fields: form_fields(menu, input, 1, hits.field, false, now),
            ..menu
        };
        let places = offered_packs(
            m1.available_packs,
            m1.fields.pack_search,
            m1.available_packs.len(),
        );
        let m2 = if input.clicked {
            packs_clicked(m1, hits)
        } else {
            m1
        };
        let over = over_offered(places.len(), hits.available@) || over_selected(
            m1.active_packs,
            hits.selected@,
        ) || hits.folder || hits.done;
        let s = Step { menu: m2, out: nothing(2).pointing(over) };
        let s1 = if input.clicked && hits.folder {
            s.doing(EffectView::OpenPackFolder)
        } else {
            s
        };
        if input.clicked && hits.done {
            Step { menu: s1.menu.packs_left(now), ..s1 }
        } else {
            s1
        }
    }
}

/// Whether one of the rows that the cursor is over is one of `count`.
fn any_below(rows: &Vec<usize>, count: usize) -> (any: bool)
    ensures
        any == over_offered(count as nat, rows@),
{
    let mut i: usize = 0;
    while i < rows.len()
        invariant
            i <= rows@.len(),
            forall|k: int| 0 <= k < i ==> (#[trigger] rows@[k]) >= count,
        decreases rows@.len() - i,
    {
        if rows[i] < count {
            return true;
        }
        i = i + 1;
    }
    false
}

/// Whether one of the rows that the cursor is over is a selected pack that can
/// be clicked.
fn any_selected(rows: &Vec<usize>, packs: &Vec<PackInfo>) -> (any: bool)
    ensures
        any == over_selected(packs@, rows@),
{
    let mut i: usize = 0;
    while i < rows.len()
        invariant
            i <= rows@.len(),
            forall|k: int|
                0 <= k < i ==> (#[trigger] rows@[k]) >= packs@.len() || packs@[rows@[k] as int].source
                    == PackSource::Server,
        decreases rows@.len() - i,
    {
        if rows[i] < packs.len() && packs[rows[i]].source != PackSource::Server {
            return true;
        }
        i = i + 1;
    }
    false
}

impl MainMenu {
    /// Clicks on packs, given the places of the offered ones.
    fn click_packs(&mut self, hits: &PackHits, places: &Vec<usize>)
        requires
            old(self).wf(),
            places@ == offered_packs(
                old(self)@.available_packs,
                old(self)@.fields.pack_search,
                old(self)@.available_packs.len(),
            ),
            forall|i: int|
                0 <= i < places@.len() ==> (#[trigger] places@[i])
                    < old(self)@.available_packs.len(),
        ensures
            final(self).wf(),
            final(self)@ == packs_clicked(old(self)@, *hits),
    {
        let ghost before = self@;
        let mut i: usize = 0;
        while i < hits.available.len()
            invariant
                i <= hits.available@.len(),
                before.wf(),
                forall|k: int|
                    0 <= k < places@.len() ==> (#[trigger] places@[k])
                        < before.available_packs.len(),
                self@ == (MenuModel {
                    pack_toggle: enabling(
                        before.pack_toggle,
                        before.available_packs,
                        places@,
                        hits.available@,
                        i as nat,
                    ),
                    ..before
                }),
            decreases hits.available@.len() - i,
        {
            let row: usize = hits.available[i];
            if row < places.len() {
                assert(places@[row as int] < before.available_packs.len());
                let name = self.available_packs[places[row]].name.clone();
                self.pack_toggle = Some((name, true));
            }
            i = i + 1;
        }
        let ghost middle = self@;
        let mut i: usize = 0;
        while i < hits.selected.len()
            invariant
                i <= hits.selected@.len(),
                middle.wf(),
                self@ == (MenuModel {
                    pack_toggle: disabling(
                        middle.pack_toggle,
                        middle.active_packs,
                        hits.selected@,
                        i as nat,
                    ),
                    ..middle
                }),
            decreases hits.selected@.len() - i,
        {
            let row: usize = hits.selected[i];
            if row < self.active_packs.len() && self.active_packs[row].source
                != PackSource::Server {
                let name = self.active_packs[row].name.clone();
                self.pack_toggle = Some((name, false));
            }
            i = i + 1;
        }
        if any_below(&hits.available, places.len()) || any_selected(
            &hits.selected,
            &self.active_packs,
        ) {
            self.reload_assets = true;
        }
    }

    /// Forgets the search and enters the options.
    fn leave_packs(&mut self, now: u64)
        requires
            old(self).wf(),
        ensures
            final(self).wf(),
            final(self)@ == old(self)@.packs_left(now),
    {
        self.fields.pack_search.clear();
        self.set_screen(Screen::Options, now);
    }

    /// A frame of the resource pack screen.
    pub fn build_options_resource_packs(
        &mut self,
        input: &MenuInput,
        hits: &PackHits,
        now: u64,
    ) -> (result: MainMenuResult)
        requires
            old(self).wf(),
        ensures
            final(self).wf(),
            step_of(*final(self), result) == packs_frame(old(self)@, *input, *hits, now),
    {
        let mut result = MainMenuResult::new(2);
        if input.escape {
            self.leave_packs(now);
            return result;
        }
        self.edit_form(input, 1, hits.field, false, now);
        let places = visible_packs(&self.available_packs, &self.fields.pack_search);
        result.cursor_pointer =
        any_below(&hits.available, places.len()) || any_selected(&hits.selected, &self.active_packs)
            || hits.folder || hits.done;
        if input.clicked {
            self.click_packs(hits, &places);
        }
        if input.clicked && hits.folder {
            result.add_effect(Effect::OpenPackFolder);
        }
        if input.clicked && hits.done {
            self.leave_packs(now);
        }
        result
    }
}

} // verus!
