//! The server screens: the list, and the forms to join, add, edit and delete a
//! server.

use crate::menu::fields::FieldModel;
use crate::menu::state::{
    elapsed, elapsed_ms, nothing, step_of, ActionView, Effect, EffectView, MainMenu,
    MainMenuResult, MenuAction, MenuInput, MenuModel, ResultView, Screen, Step, DOUBLE_CLICK_MS,
};
use crate::server_list::{
    exchanged, fresh_entry, is_valid_address, names_host, EntryView, ServerEntry,
};
use crate::sprites::SpriteId;
use vstd::prelude::*;

verus! {

/// The part of a row that the cursor is over.
#[derive(Clone, Copy, Debug, PartialEq, Eq, Structural)]
pub enum RowZone {
    /// Beside the icon.
    Body,
    /// The right half of the icon, which joins.
    Join,
    /// The upper left of the icon, which moves the row up.
    MoveUp,
    /// The lower left of the icon, which moves the row down.
    MoveDown,
}

/// A row of the list that the cursor is over.
#[derive(Clone, Copy, Debug, PartialEq, Eq, Structural)]
pub struct RowHit {
    pub index: usize,
    pub zone: RowZone,
}

/// The buttons below the list that the cursor is over.
#[derive(Clone, Copy, Debug, PartialEq, Eq, Structural)]
pub struct ListButtons {
    pub join: bool,
    pub direct: bool,
    pub add_server: bool,
    pub edit: bool,
    pub delete: bool,
    pub refresh: bool,
    pub back: bool,
}

impl MenuModel {
    /// The request to join the server at `address`.
    pub open spec fn joining(self, address: Seq<char>) -> ActionView {
        ActionView::Connect { server: address, username: self.username }
    }
}

/// What a click on a row does: an action or a choice, and a move that is still
/// to be made.
pub open spec fn row_clicked(
    s: Step,
    hit: RowHit,
    now: u64,
) -> (Step, Option<(usize, usize)>) {
    let i = hit.index;
    let count = s.menu.servers.len();
    let joined = Step { out: s.out.asking(s.menu.joining(s.menu.servers[i as int].address)), ..s };
    if hit.zone == RowZone::Join {
        (joined, None)
    } else if hit.zone == RowZone::MoveUp && i > 0 {
        (s, Some((i, (i - 1) as usize)))
    } else if hit.zone == RowZone::MoveDown && i + 1 < count {
        (s, Some((i, (i + 1) as usize)))
    } else if s.menu.last_click_index == Some(i) && elapsed(s.menu.last_click_time, now) < 400 {
        (joined, None)
    } else {
        (
            Step {
                menu: MenuModel {
                    selected_server: Some(i),
                    last_click_time: now,
                    last_click_index: Some(i),
                    ..s.menu
                },
                ..s
            },
            None,
        )
    }
}

/// The frame after the first `n` rows that the cursor is over, and the move that
/// the last of them asks for.
pub open spec fn rows_done(
    s: Step,
    hits: Seq<RowHit>,
    clicked: bool,
    now: u64,
    n: nat,
) -> (Step, Option<(usize, usize)>)
    decreases n,
{
    if n == 0 {
        (s, None)
    } else {
        let (before, swap) = rows_done(s, hits, clicked, now, (n - 1) as nat);
        let over = Step { out: before.out.pointing(true), ..before };
        if clicked {
            let (after, asked) = row_clicked(over, hits[n - 1], now);
            (
                after,
                if asked is Some {
                    asked
                } else {
                    swap
                },
            )
        } else {
            (over, swap)
        }
    }
}

/// The frame with a move made: the rows are exchanged and saved, and the moved
/// row is chosen.
pub open spec fn swap_done(s: Step, swap: Option<(usize, usize)>) -> Step {
    match swap {
        Some((a, b)) => Step {
            menu: MenuModel {
                servers: exchanged(s.menu.servers, a as int, b as int),
                selected_server: Some(b),
                ..s.menu
            },
            out: s.out.doing(EffectView::SaveServers),
        },
        None => s,
    }
}

/// The chosen server, if it is still in the list.
pub open spec fn chosen(m: MenuModel) -> Option<EntryView> {
    match m.selected_server {
        Some(i) if i < m.servers.len() => Some(m.servers[i as int]),
        _ => None,
    }
}

impl MenuModel {
    /// The menu with a form opened: its texts set, and its first field in focus.
    pub open spec fn form_opened(
        self,
        name: Seq<char>,
        address: Seq<char>,
        screen: Screen,
        now: u64,
    ) -> MenuModel {
        let m = self.entered(screen, now);
        MenuModel {
            fields: FieldModel {
                edit_name: name,
                edit_address: address,
                ..m.fields.focusing(0)
            },
            ..m
        }
    }
}

/// The frame after the buttons of the upper row.
pub open spec fn upper_buttons_done(s: Step, over: ListButtons, clicked: bool, now: u64) -> Step {
    let has_choice = s.menu.selected_server is Some;
    let s1 = Step {
        out: match chosen(s.menu) {
            Some(entry) if over.join && clicked => s.out.asking(s.menu.joining(entry.address)),
            _ => s.out,
        },
        ..s
    };
    let s2 = if over.direct && clicked {
        let m = s1.menu;
        Step {
            menu: m.form_opened(m.fields.edit_name, m.last_mp_ip, Screen::DirectConnect, now),
            ..s1
        }
    } else {
        s1
    };
    let s3 = if over.add_server && clicked {
        Step {
            menu: s2.menu.form_opened(Seq::empty(), Seq::empty(), Screen::AddServer, now),
            ..s2
        }
    } else {
        s2
    };
    Step {
        out: s3.out.pointing((over.join && has_choice) || over.direct || over.add_server),
        ..s3
    }
}

/// The frame after the buttons that need a choice.
pub open spec fn choice_buttons_done(s: Step, over: ListButtons, clicked: bool, now: u64) -> Step {
    let has_choice = s.menu.selected_server is Some;
    let s1 = match chosen(s.menu) {
        Some(entry) if over.edit && clicked => Step {
            menu: s.menu.form_opened(
                entry.name,
                entry.address,
                Screen::EditServer(s.menu.selected_server.unwrap()),
                now,
            ),
            ..s
        },
        _ => s,
    };
    let s2 = if over.delete && clicked && has_choice {
        s1.entering(Screen::ConfirmDelete(s.menu.selected_server.unwrap()), now)
    } else {
        s1
    };
    Step { out: s2.out.pointing((over.edit || over.delete) && has_choice), ..s2 }
}

/// The frame after the buttons of the lower row.
pub open spec fn lower_buttons_done(s: Step, over: ListButtons, clicked: bool, now: u64) -> Step {
    let s1 = choice_buttons_done(s, over, clicked, now);
    let s2 = if over.refresh && clicked {
        s1.doing(EffectView::PingAll)
    } else {
        s1
    };
    let s3 = if over.back && clicked {
        s2.entering(Screen::Main, now)
    } else {
        s2
    };
    Step { out: s3.out.pointing(over.refresh || over.back), ..s3 }
}

/// A frame of the server list.
pub open spec fn list_frame(
    menu: MenuModel,
    input: MenuInput,
    rows: Seq<RowHit>,
    over: ListButtons,
    now: u64,
) -> Step {
    let refreshed = if input.f5 {
        nothing(2).doing(EffectView::PingAll)
    } else {
        nothing(2)
    };
    if input.escape {
        Step { menu: menu.entered(Screen::Main, now), out: ResultView { blur: 1, ..refreshed } }
    } else {
        let (s1, swap) = rows_done(
            Step { menu, out: refreshed },
            rows,
            input.clicked,
            now,
            rows.len(),
        );
        let s2 = swap_done(s1, swap);
        let s3 = upper_buttons_done(s2, over, input.clicked, now);
        lower_buttons_done(s3, over, input.clicked, now)
    }
}

proof fn lemma_rows_keep_servers(s: Step, hits: Seq<RowHit>, clicked: bool, now: u64, n: nat)
    requires
        n <= hits.len(),
        forall|k: int| 0 <= k < hits.len() ==> (#[trigger] hits[k]).index < s.menu.servers.len(),
    ensures
        rows_done(s, hits, clicked, now, n).0.menu.servers == s.menu.servers,
        rows_done(s, hits, clicked, now, n).0.menu.fields == s.menu.fields,
        rows_done(s, hits, clicked, now, n).1 matches Some((a, b)) ==> a < s.menu.servers.len()
            && b < s.menu.servers.len(),
    decreases n,
{
    if n > 0 {
        lemma_rows_keep_servers(s, hits, clicked, now, (n - 1) as nat);
        assert(hits[n - 1].index < s.menu.servers.len());
    }
}

impl MainMenu {
    /// Asks to join the server at `index`.
    fn join_server(&self, result: &mut MainMenuResult, index: usize)
        requires
            index < self@.servers.len(),
        ensures
            final(result)@ == old(result)@.asking(
                self@.joining(self@.servers[index as int].address),
            ),
    {
        let entry = &self.server_list.servers[index];
        assert(self@.servers[index as int] == entry@);
        result.action =
        MenuAction::Connect { server: entry.address.clone(), username: self.username.clone() };
    }

    /// A click on a row. Returns the move that it asks for.
    fn click_row(&mut self, result: &mut MainMenuResult, hit: RowHit, now: u64) -> (swap: Option<
        (usize, usize),
    >)
        requires
            hit.index < old(self)@.servers.len(),
        ensures
            (step_of(*final(self), *final(result)), swap) == row_clicked(
                step_of(*old(self), *old(result)),
                hit,
                now,
            ),
    {
        let i: usize = hit.index;
        let count: usize = self.server_list.servers.len();
        if hit.zone == RowZone::Join {
            self.join_server(result, i);
            None
        } else if hit.zone == RowZone::MoveUp && i > 0 {
            Some((i, i - 1))
        } else if hit.zone == RowZone::MoveDown && i < count - 1 {
            Some((i, i + 1))
        } else {
            let is_double: bool = match self.last_click_index {
                Some(last) => last == i && elapsed_ms(self.last_click_time, now)
                    < DOUBLE_CLICK_MS,
                None => false,
            };
            if is_double {
                self.join_server(result, i);
            } else {
                self.selected_server = Some(i);
                self.last_click_time = now;
                self.last_click_index = Some(i);
            }
            None
        }
    }

    /// The rows that the cursor is over. Returns the move that they ask for.
    fn handle_rows(
        &mut self,
        result: &mut MainMenuResult,
        rows: &Vec<RowHit>,
        clicked: bool,
        now: u64,
    ) -> (swap: Option<(usize, usize)>)
        requires
            forall|k: int|
                0 <= k < rows@.len() ==> (#[trigger] rows@[k]).index < old(self)@.servers.len(),
        ensures
            (step_of(*final(self), *final(result)), swap) == rows_done(
                step_of(*old(self), *old(result)),
                rows@,
                clicked,
                now,
                rows@.len(),
            ),
    {
        let ghost start = step_of(*self, *result);
        let mut swap: Option<(usize, usize)> = None;
        let mut i: usize = 0;
        while i < rows.len()
            invariant
                i <= rows@.len(),
                forall|k: int|
                    0 <= k < rows@.len() ==> (#[trigger] rows@[k]).index
                        < start.menu.servers.len(),
                (step_of(*self, *result), swap) == rows_done(start, rows@, clicked, now, i as nat),
            decreases rows@.len() - i,
        {
            proof {
                lemma_rows_keep_servers(start, rows@, clicked, now, i as nat);
            }
            let hit: RowHit = rows[i];
            result.cursor_pointer = true;
            if clicked {
                let asked = self.click_row(result, hit, now);
                if asked.is_some() {
                    swap = asked;
                }
            }
            i = i + 1;
        }
        swap
    }

    /// The rows that the cursor is over, and the move that they ask for.
    fn click_rows(
        &mut self,
        result: &mut MainMenuResult,
        rows: &Vec<RowHit>,
        clicked: bool,
        now: u64,
    )
        requires
            old(self).wf(),
            forall|k: int|
                0 <= k < rows@.len() ==> (#[trigger] rows@[k]).index < old(self)@.servers.len(),
        ensures
            final(self).wf(),
            step_of(*final(self), *final(result)) == ({
                let (s, swap) = rows_done(
                    step_of(*old(self), *old(result)),
                    rows@,
                    clicked,
                    now,
                    rows@.len(),
                );
                swap_done(s, swap)
            }),
    {
        let ghost start = step_of(*self, *result);
        let swap = self.handle_rows(result, rows, clicked, now);
        proof {
            lemma_rows_keep_servers(start, rows@, clicked, now, rows@.len());
        }
        if let Some((a, b)) = swap {
            let changed: bool = self.server_list.swap(a, b);
            result.add_effect(Effect::SaveServers);
            self.selected_server = Some(b);
        }
    }

    /// Opens a form.
    fn open_form(&mut self, name: String, address: String, screen: Screen, now: u64)
        requires
            old(self).wf(),
        ensures
            final(self).wf(),
            final(self)@ == old(self)@.form_opened(name@, address@, screen, now),
    {
        self.set_screen(screen, now);
        self.fields.edit_name = name;
        self.fields.edit_address = address;
        self.fields.focused = Some(0);
    }

    /// The buttons of the upper row.
    fn press_upper(
        &mut self,
        result: &mut MainMenuResult,
        over: &ListButtons,
        clicked: bool,
        now: u64,
    )
        requires
            old(self).wf(),
        ensures
            final(self).wf(),
            step_of(*final(self), *final(result)) == upper_buttons_done(
                step_of(*old(self), *old(result)),
                *over,
                clicked,
                now,
            ),
    {
        let has_choice: bool = self.selected_server.is_some();
        if over.join && clicked {
            if let Some(i) = self.selected_server {
                if i < self.server_list.servers.len() {
                    self.join_server(result, i);
                }
            }
        }
        if over.direct && clicked {
            let name = self.fields.edit_name.clone();
            let address = self.last_mp_ip.clone();
            self.open_form(name, address, Screen::DirectConnect, now);
        }
        if over.add_server && clicked {
            self.open_form(String::new(), String::new(), Screen::AddServer, now);
        }
        if (over.join && has_choice) || over.direct || over.add_server {
            result.cursor_pointer = true;
        }
    }

    /// The buttons that need a choice.
    fn press_choice(
        &mut self,
        result: &mut MainMenuResult,
        over: &ListButtons,
        clicked: bool,
        now: u64,
    )
        requires
            old(self).wf(),
        ensures
            final(self).wf(),
            step_of(*final(self), *final(result)) == choice_buttons_done(
                step_of(*old(self), *old(result)),
                *over,
                clicked,
                now,
            ),
    {
        let selected: Option<usize> = self.selected_server;
        if let Some(i) = selected {
            if over.edit && clicked && i < self.server_list.servers.len() {
                let entry = &self.server_list.servers[i];
                assert(self@.servers[i as int] == entry@);
                let name = entry.name.clone();
                let address = entry.address.clone();
                self.open_form(name, address, Screen::EditServer(i), now);
            }
            if over.delete && clicked {
                self.set_screen(Screen::ConfirmDelete(i), now);
            }
            if over.edit || over.delete {
                result.cursor_pointer = true;
            }
        }
    }

    /// The buttons of the lower row.
    fn press_lower(
        &mut self,
        result: &mut MainMenuResult,
        over: &ListButtons,
        clicked: bool,
        now: u64,
    )
        requires
            old(self).wf(),
        ensures
            final(self).wf(),
            step_of(*final(self), *final(result)) == lower_buttons_done(
                step_of(*old(self), *old(result)),
                *over,
                clicked,
                now,
            ),
    {
        self.press_choice(result, over, clicked, now);
        if over.refresh && clicked {
            result.add_effect(Effect::PingAll);
        }
        if over.back && clicked {
            self.set_screen(Screen::Main, now);
        }
        if over.refresh || over.back {
            result.cursor_pointer = true;
        }
    }

    /// A frame of the server list, given the rows and the buttons that the
    /// cursor is over.
    pub fn build_server_list(
        &mut self,
        input: &MenuInput,
        rows: &Vec<RowHit>,
        over: &ListButtons,
        now: u64,
    ) -> (result: MainMenuResult)
        requires
            old(self).wf(),
            forall|k: int|
                0 <= k < rows@.len() ==> (#[trigger] rows@[k]).index < old(self)@.servers.len(),
        ensures
            final(self).wf(),
            step_of(*final(self), result) == list_frame(
                old(self)@,
                *input,
                rows@,
                *over,
                now,
            ),
    {
        let mut result = MainMenuResult::new(2);
        if input.f5 {
            result.add_effect(Effect::PingAll);
        }
        if input.escape {
            self.set_screen(Screen::Main, now);
            result.blur = 1;
            return result;
        }
        self.click_rows(&mut result, rows, input.clicked, now);
        self.press_upper(&mut result, over, input.clicked, now);
        self.press_lower(&mut result, over, input.clicked, now);
        result
    }

    /// What is shown of the deletion of a server: the warning, which is empty
    /// where the server is gone.
    pub fn delete_warning(&self, index: usize) -> (warning: String)
        ensures
            warning@ == if index < self@.servers.len() {
                "'"@ + self@.servers[index as int].name
                    + "' will be lost forever! (A long time!)"@
            } else {
                Seq::empty()
            },
    {
        if index < self.server_list.servers.len() {
            let entry = &self.server_list.servers[index];
            assert(self@.servers[index as int] == entry@);
            "'".to_owned().concat(entry.name.as_str()).concat(
                "' will be lost forever! (A long time!)",
            )
        } else {
            String::new()
        }
    }

    /// A frame of the question whether to delete a server.
    pub fn build_confirm_delete(
        &mut self,
        input: &MenuInput,
        over_delete: bool,
        over_cancel: bool,
        now: u64,
    ) -> (result: MainMenuResult)
        requires
            old(self).wf(),
        ensures
            final(self).wf(),
            step_of(*final(self), result) == delete_frame(
                old(self)@,
                *input,
                over_delete,
                over_cancel,
                now,
            ),
    {
        let mut result = MainMenuResult::new(2);
        let index: usize = match self.screen {
            Screen::ConfirmDelete(i) => i,
            _ => {
                return result;
            },
        };
        if input.escape {
            self.set_screen(Screen::ServerList, now);
            return result;
        }
        if over_delete && input.clicked {
            if self.server_list.remove(index) {
                result.add_effect(Effect::SaveServers);
            }
            self.selected_server = None;
            self.set_screen(Screen::ServerList, now);
        }
        if over_cancel && input.clicked {
            self.set_screen(Screen::ServerList, now);
        }
        result.cursor_pointer = over_delete || over_cancel;
        result
    }

    /// An input to the fields of a form and the clicks into them.
    pub fn edit_form(
        &mut self,
        input: &MenuInput,
        count: u8,
        over_first: bool,
        over_second: bool,
        now: u64,
    )
        requires
            old(self).wf(),
            1 <= count,
        ensures
            final(self).wf(),
            final(self)@ == (MenuModel {
                fields: form_fields(old(self)@, *input, count, over_first, over_second, now),
                ..old(self)@
            }),
    {
        self.fields.handle_text_input(&self.screen, input, count, now);
        if input.clicked && over_first {
            self.fields.on_field_click(0, now);
        }
        if input.clicked && over_second {
            self.fields.on_field_click(1, now);
        }
    }

    /// A frame of the form to join a server by its address.
    pub fn build_direct_connect(
        &mut self,
        input: &MenuInput,
        over_field: bool,
        over_join: bool,
        over_cancel: bool,
        now: u64,
    ) -> (result: MainMenuResult)
        requires
            old(self).wf(),
        ensures
            final(self).wf(),
            step_of(*final(self), result) == direct_frame(
                old(self)@,
                *input,
                over_field,
                over_join,
                over_cancel,
                now,
            ),
    {
        let mut result = MainMenuResult::new(2);
        if input.escape {
            self.set_screen(Screen::ServerList, now);
            return result;
        }
        self.edit_form(input, 1, over_field, false, now);
        let valid: bool = is_valid_address(&self.fields.edit_address);
        if valid && ((over_join && input.clicked) || input.enter) {
            self.last_mp_ip = self.fields.edit_address.clone();
            result.action =
            MenuAction::Connect {
                server: self.fields.edit_address.clone(),
                username: self.username.clone(),
            };
        }
        if over_cancel && input.clicked {
            self.set_screen(Screen::ServerList, now);
        }
        result.cursor_pointer = (over_join && valid) || over_cancel;
        result
    }

    /// Saves the server that the form describes: in the place of the one that is
    /// edited, which keeps the fields of other tools, or at the end.
    fn save_form(&mut self, result: &mut MainMenuResult, now: u64)
        requires
            old(self).wf(),
        ensures
            final(self).wf(),
            step_of(*final(self), *final(result)) == form_saved(
                step_of(*old(self), *old(result)),
                now,
            ),
    {
        let name = if self.fields.edit_name.as_str().is_empty() {
            DEFAULT_SERVER_NAME.to_owned()
        } else {
            self.fields.edit_name.clone()
        };
        let address = self.fields.edit_address.clone();
        let mut entry = ServerEntry::named(name, address.clone());
        match self.screen {
            Screen::EditServer(index) => {
                if index < self.server_list.servers.len() {
                    let ghost before = self.server_list.servers@[index as int];
                    assert(self@.servers[index as int] == before@);
                    let mut extra = Vec::new();
                    let mut replaced = self.server_list.servers.remove(index);
                    core::mem::swap(&mut extra, &mut replaced.extra);
                    entry.extra = extra;
                    self.server_list.servers.insert(index, entry);
                    assert(self@.servers =~= old(self)@.servers.update(index as int, entry@));
                    result.add_effect(Effect::SaveServers);
                }
            },
            _ => {
                self.server_list.add(entry);
                result.add_effect(Effect::SaveServers);
            },
        }
        result.add_effect(Effect::Ping(address));
        self.set_screen(Screen::ServerList, now);
    }

    /// A frame of the form to add or edit a server.
    pub fn build_edit_server(
        &mut self,
        input: &MenuInput,
        over_name: bool,
        over_address: bool,
        over_done: bool,
        over_cancel: bool,
        now: u64,
    ) -> (result: MainMenuResult)
        requires
            old(self).wf(),
        ensures
            final(self).wf(),
            step_of(*final(self), result) == edit_frame(
                old(self)@,
                *input,
                over_name,
                over_address,
                over_done,
                over_cancel,
                now,
            ),
    {
        let mut result = MainMenuResult::new(2);
        if input.escape {
            self.set_screen(Screen::ServerList, now);
            return result;
        }
        self.edit_form(input, 2, over_name, over_address, now);
        let valid: bool = is_valid_address(&self.fields.edit_address);
        if over_done && valid && input.clicked {
            self.save_form(&mut result, now);
        }
        if over_cancel && input.clicked {
            self.set_screen(Screen::ServerList, now);
        }
        result.cursor_pointer = (over_done && valid) || over_cancel;
        result
    }

    /// A frame of the screen that tells why the connection ended.
    pub fn build_disconnected(&mut self, input: &MenuInput, over_back: bool, now: u64) -> (result:
        MainMenuResult)
        requires
            old(self).wf(),
        ensures
            final(self).wf(),
            step_of(*final(self), result) == if old(self)@.screen is Disconnected {
                let out = nothing(2).pointing(over_back);
                if over_back && input.clicked {
                    Step { menu: old(self)@.entered(Screen::Main, now), out }
                } else {
                    Step { menu: old(self)@, out }
                }
            } else {
                Step { menu: old(self)@, out: nothing(2) }
            },
    {
        let mut result = MainMenuResult::new(2);
        match self.screen {
            Screen::Disconnected(_) => {},
            _ => {
                return result;
            },
        }
        if over_back && input.clicked {
            self.set_screen(Screen::Main, now);
        }
        result.cursor_pointer = over_back;
        result
    }
}

/// A frame of the question whether to delete a server.
pub open spec fn delete_frame(
    menu: MenuModel,
    input: MenuInput,
    over_delete: bool,
    over_cancel: bool,
    now: u64,
) -> Step {
    match menu.screen {
        Screen::ConfirmDelete(index) => {
            if input.escape {
                Step { menu: menu.entered(Screen::ServerList, now), out: nothing(2) }
            } else {
                let out = nothing(2).pointing(over_delete || over_cancel);
                if over_delete && input.clicked {
                    Step {
                        menu: MenuModel {
                            servers: if index < menu.servers.len() {
                                menu.servers.remove(index as int)
                            } else {
                                menu.servers
                            },
                            selected_server: None,
                            ..menu
                        }.entered(Screen::ServerList, now),
                        out: if index < menu.servers.len() {
                            out.doing(EffectView::SaveServers)
                        } else {
                            out
                        },
                    }
                } else if over_cancel && input.clicked {
                    Step { menu: menu.entered(Screen::ServerList, now), out }
                } else {
                    Step { menu, out }
                }
            }
        },
        _ => Step { menu, out: nothing(2) },
    }
}

/// The fields after an input and the clicks into them, of two at most.
pub open spec fn form_fields(
    menu: MenuModel,
    input: MenuInput,
    count: u8,
    over_first: bool,
    over_second: bool,
    now: u64,
) -> FieldModel {
    let f = menu.fields.handled(menu.screen, input, count, now);
    let f1 = if input.clicked && over_first {
        f.field_clicked(0, now)
    } else {
        f
    };
    if input.clicked && over_second {
        f1.field_clicked(1, now)
    } else {
        f1
    }
}

/// A frame of the form to join a server by its address.
pub open spec fn direct_frame(
    menu: MenuModel,
    input: MenuInput,
    over_field: bool,
    over_join: bool,
    over_cancel: bool,
    now: u64,
) -> Step {
    if input.escape {
        Step { menu: menu.entered(Screen::ServerList, now), out: nothing(2) }
    } else {
        let fields = form_fields(menu, input, 1, over_field, false, now);
        let m1 = MenuModel { fields, ..menu };
        let valid = names_host(fields.edit_address);
        let out = nothing(2).pointing((over_join && valid) || over_cancel);
        let s = if valid && ((over_join && input.clicked) || input.enter) {
            Step {
                menu: MenuModel { last_mp_ip: fields.edit_address, ..m1 },
                out: out.asking(m1.joining(fields.edit_address)),
            }
        } else {
            Step { menu: m1, out }
        };
        if over_cancel && input.clicked {
            s.entering(Screen::ServerList, now)
        } else {
            s
        }
    }
}

/// The name of a server that is saved without one.
pub const DEFAULT_SERVER_NAME: &'static str = "Minecraft Server";

/// The server that a form describes.
pub open spec fn form_entry(fields: FieldModel) -> EntryView {
    fresh_entry(
        if fields.edit_name.len() == 0 {
            DEFAULT_SERVER_NAME@
        } else {
            fields.edit_name
        },
        fields.edit_address,
    )
}

/// The frame after a form was saved. A server that is edited keeps the fields
/// of other tools.
pub open spec fn form_saved(s: Step, now: u64) -> Step {
    let entry = form_entry(s.menu.fields);
    let saved = match s.menu.screen {
        Screen::EditServer(index) => if index < s.menu.servers.len() {
            let kept = EntryView { extra: s.menu.servers[index as int].extra, ..entry };
            Step {
                menu: MenuModel {
                    servers: s.menu.servers.update(index as int, kept),
                    ..s.menu
                },
                out: s.out.doing(EffectView::SaveServers),
            }
        } else {
            s
        },
        _ => Step {
            menu: MenuModel { servers: s.menu.servers.push(entry), ..s.menu },
            out: s.out.doing(EffectView::SaveServers),
        },
    };
    saved.doing(EffectView::Ping(entry.address)).entering(Screen::ServerList, now)
}

/// A frame of the form to add or edit a server.
pub open spec fn edit_frame(
    menu: MenuModel,
    input: MenuInput,
    over_name: bool,
    over_address: bool,
    over_done: bool,
    over_cancel: bool,
    now: u64,
) -> Step {
    if input.escape {
        Step { menu: menu.entered(Screen::ServerList, now), out: nothing(2) }
    } else {
        let fields = form_fields(menu, input, 2, over_name, over_address, now);
        let m1 = MenuModel { fields, ..menu };
        let valid = names_host(fields.edit_address);
        let s = Step { menu: m1, out: nothing(2).pointing((over_done && valid) || over_cancel) };
        let s1 = if over_done && valid && input.clicked {
            form_saved(s, now)
        } else {
            s
        };
        if over_cancel && input.clicked {
            s1.entering(Screen::ServerList, now)
        } else {
            s1
        }
    }
}

/// How a row is shown: whether the cursor or the choice marks it.
#[derive(Clone, Copy, Debug, PartialEq, Eq, Structural)]
pub enum RowMark {
    Plain,
    Hovered,
    Selected,
}

/// How a row is shown.
pub fn row_mark(selected: bool, hovered: bool) -> (mark: RowMark)
    ensures
        mark == if selected {
            RowMark::Selected
        } else if hovered {
            RowMark::Hovered
        } else {
            RowMark::Plain
        },
{
    if selected {
        RowMark::Selected
    } else if hovered {
        RowMark::Hovered
    } else {
        RowMark::Plain
    }
}

/// The sprites over the icon of row `index` of `count` while the cursor is on
/// the icon: to join, to move up unless it is the first, to move down unless it
/// is the last, and that under the cursor highlighted.
pub open spec fn icon_sprites(index: int, count: int, zone: RowZone) -> Seq<SpriteId> {
    if zone == RowZone::Body {
        Seq::empty()
    } else {
        seq![
            if zone == RowZone::Join {
                SpriteId::ServerJoinHighlighted
            } else {
                SpriteId::ServerJoin
            },
        ] + (if index > 0 {
            seq![
                if zone == RowZone::MoveUp {
                    SpriteId::ServerMoveUpHighlighted
                } else {
                    SpriteId::ServerMoveUp
                },
            ]
        } else {
            Seq::empty()
        }) + (if index < count - 1 {
            seq![
                if zone == RowZone::MoveDown {
                    SpriteId::ServerMoveDownHighlighted
                } else {
                    SpriteId::ServerMoveDown
                },
            ]
        } else {
            Seq::empty()
        })
    }
}

/// The sprites over the icon of a row.
pub fn row_icons(index: usize, count: usize, zone: RowZone) -> (sprites: Vec<SpriteId>)
    requires
        index < count,
    ensures
        sprites@ == icon_sprites(index as int, count as int, zone),
{
    let mut sprites: Vec<SpriteId> = Vec::new();
    if zone != RowZone::Body {
        sprites.push(
            if zone == RowZone::Join {
                SpriteId::ServerJoinHighlighted
            } else {
                SpriteId::ServerJoin
            },
        );
        if index > 0 {
            sprites.push(
                if zone == RowZone::MoveUp {
                    SpriteId::ServerMoveUpHighlighted
                } else {
                    SpriteId::ServerMoveUp
                },
            );
        }
        if index < count - 1 {
            sprites.push(
                if zone == RowZone::MoveDown {
                    SpriteId::ServerMoveDownHighlighted
                } else {
                    SpriteId::ServerMoveDown
                },
            );
        }
    }
    assert(sprites@ =~= icon_sprites(index as int, count as int, zone));
    sprites
}

/// The frames of the sign that the local network is searched.
pub const LOADING_DOTS: [&'static str; 4] = ["O o o", "o O o", "o o O", "o O o"];

/// The sign that the local network is searched, at a time in milliseconds.
pub fn loading_dots(millis: u64) -> (dots: &'static str)
    ensures
        dots == LOADING_DOTS@[millis as int / 300 % 4],
{
    LOADING_DOTS[(millis / 300 % 4) as usize]
}

/// A move up and then down of the same row restores the list.
pub proof fn moving_up_and_down_restores(s: Step, i: usize)
    requires
        0 < i < s.menu.servers.len(),
    ensures
        ({
            let up = swap_done(s, Some((i, (i - 1) as usize)));
            let down = swap_done(up, Some(((i - 1) as usize, i)));
            down.menu.servers == s.menu.servers && down.menu.selected_server == Some(i)
        }),
{
    let up = exchanged(s.menu.servers, i as int, i - 1);
    assert(exchanged(up, i - 1, i as int) =~= s.menu.servers);
}

} // verus!
