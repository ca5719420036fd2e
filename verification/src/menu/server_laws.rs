//! What holds of the server screens: what a saved form does to the list, what a
//! join asks for, and what leaves the list as it is.

use crate::menu::field_laws::{is_form, typing_goes_to_the_field_with_the_focus};
use crate::menu::servers::{
    delete_frame, direct_frame, edit_frame, icon_sprites, list_frame, row_clicked, rows_done,
    ListButtons, RowHit, RowZone,
};
use crate::menu::state::{nothing, ActionView, EffectView, MenuInput, MenuModel, Screen, Step};
use crate::sprites::SpriteId;
use vstd::prelude::*;

verus! {

/// Whether a text names a host.
pub open spec fn has_host(address: Seq<char>) -> bool {
    address.len() > 0 && address[0] != ':'
}

/// Done in the form for editing a server saves what the form holds: the entry gets
/// the address and the name that stand in its fields, the default name where there
/// is none, and keeps the fields of other tools. All other entries stay as they
/// are. The list is written, the address is asked for its status, and the list is
/// shown.
pub proof fn done_saves_the_edited_server(
    menu: MenuModel,
    input: MenuInput,
    over_name: bool,
    over_address: bool,
    over_cancel: bool,
    now: u64,
    i: usize,
)
    requires
        menu.screen == Screen::EditServer(i),
        i < menu.servers.len(),
        input.clicked,
        !input.escape,
        has_host(
            edit_frame(
                menu,
                input,
                over_name,
                over_address,
                true,
                over_cancel,
                now,
            ).menu.fields.edit_address,
        ),
    ensures
        ({
            let s = edit_frame(menu, input, over_name, over_address, true, over_cancel, now);
            let fields = s.menu.fields;
            let entry = s.menu.servers[i as int];
            &&& entry.address == fields.edit_address
            &&& fields.edit_name.len() > 0 ==> entry.name == fields.edit_name
            &&& fields.edit_name.len() == 0 ==> entry.name == "Minecraft Server"@
            &&& entry.protocol is None
            &&& entry.extra == menu.servers[i as int].extra
            &&& s.menu.servers.len() == menu.servers.len()
            &&& forall|k: int|
                0 <= k < menu.servers.len() && k != i ==> #[trigger] s.menu.servers[k]
                    == menu.servers[k]
            &&& s.menu.screen == Screen::ServerList
            &&& s.out.action is Nothing
            &&& s.out.effects == seq![
                EffectView::SaveServers,
                EffectView::Ping(fields.edit_address),
            ]
        }),
{
}

/// Done in the form for adding a server appends the server that the form holds.
pub proof fn done_adds_the_server(
    menu: MenuModel,
    input: MenuInput,
    over_name: bool,
    over_address: bool,
    over_cancel: bool,
    now: u64,
)
    requires
        menu.screen == Screen::AddServer,
        input.clicked,
        !input.escape,
        has_host(
            edit_frame(
                menu,
                input,
                over_name,
                over_address,
                true,
                over_cancel,
                now,
            ).menu.fields.edit_address,
        ),
    ensures
        ({
            let s = edit_frame(menu, input, over_name, over_address, true, over_cancel, now);
            let fields = s.menu.fields;
            let entry = s.menu.servers.last();
            &&& s.menu.servers.len() == menu.servers.len() + 1
            &&& s.menu.servers.drop_last() == menu.servers
            &&& entry.address == fields.edit_address
            &&& fields.edit_name.len() > 0 ==> entry.name == fields.edit_name
            &&& fields.edit_name.len() == 0 ==> entry.name == "Minecraft Server"@
            &&& entry.protocol is None
            &&& entry.extra.len() == 0
            &&& s.menu.screen == Screen::ServerList
            &&& s.out.action is Nothing
            &&& s.out.effects == seq![
                EffectView::SaveServers,
                EffectView::Ping(fields.edit_address),
            ]
        }),
{
    let s = edit_frame(menu, input, over_name, over_address, true, over_cancel, now);
    assert(s.menu.servers.drop_last() =~= menu.servers);
}

/// A form that is not saved changes no server and asks for nothing: not without a
/// click on Done, and not with an address that names no host. It is left by the
/// escape key and by Cancel alone.
pub proof fn an_unsaved_form_changes_nothing(
    menu: MenuModel,
    input: MenuInput,
    over_name: bool,
    over_address: bool,
    over_done: bool,
    over_cancel: bool,
    now: u64,
)
    requires
        input.escape || !input.clicked || !over_done || !has_host(
            edit_frame(
                menu,
                input,
                over_name,
                over_address,
                over_done,
                over_cancel,
                now,
            ).menu.fields.edit_address,
        ),
    ensures
        ({
            let s = edit_frame(menu, input, over_name, over_address, over_done, over_cancel, now);
            &&& s.menu.servers == menu.servers
            &&& s.out.effects.len() == 0
            &&& s.out.action is Nothing
            &&& s.menu.screen == if input.escape || (over_cancel && input.clicked) {
                Screen::ServerList
            } else {
                menu.screen
            }
        }),
{
}

/// Whether the cursor is over none of the buttons below the list.
pub open spec fn is_over_nothing(over: ListButtons) -> bool {
    !over.join && !over.direct && !over.add_server && !over.edit && !over.delete && !over.refresh
        && !over.back
}

proof fn lemma_one_row(s: Step, hit: RowHit, clicked: bool, now: u64)
    ensures
        rows_done(s, seq![hit], clicked, now, 1) == ({
            let over = Step { out: s.out.pointing(true), ..s };
            if clicked {
                row_clicked(over, hit, now)
            } else {
                (over, None)
            }
        }),
        rows_done(s, Seq::empty(), clicked, now, 0) == (s, None::<(usize, usize)>),
{
    assert(rows_done(s, seq![hit], clicked, now, 0) == (s, None::<(usize, usize)>));
    reveal_with_fuel(rows_done, 2);
}

/// A click on the join part of a row asks to join the server that stands there,
/// under the player's name, and leaves the list as it is.
pub proof fn joining_a_row_asks_for_its_address(
    menu: MenuModel,
    input: MenuInput,
    i: usize,
    over: ListButtons,
    now: u64,
)
    requires
        i < menu.servers.len(),
        input.clicked,
        !input.escape,
        is_over_nothing(over),
    ensures
        ({
            let s = list_frame(
                menu,
                input,
                seq![RowHit { index: i, zone: RowZone::Join }],
                over,
                now,
            );
            &&& s.out.action == ActionView::Connect {
                server: menu.servers[i as int].address,
                username: menu.username,
            }
            &&& s.menu == menu
        }),
{
    let hit = RowHit { index: i, zone: RowZone::Join };
    let refreshed = if input.f5 {
        nothing(2).doing(EffectView::PingAll)
    } else {
        nothing(2)
    };
    lemma_one_row(Step { menu, out: refreshed }, hit, true, now);
}

/// A server that was edited is joined at the address that was typed.
pub proof fn an_edited_server_is_joined_at_its_new_address(
    menu: MenuModel,
    input: MenuInput,
    over_name: bool,
    over_address: bool,
    now: u64,
    i: usize,
    click: MenuInput,
    over: ListButtons,
    later: u64,
)
    requires
        menu.screen == Screen::EditServer(i),
        i < menu.servers.len(),
        input.clicked,
        !input.escape,
        has_host(
            edit_frame(
                menu,
                input,
                over_name,
                over_address,
                true,
                false,
                now,
            ).menu.fields.edit_address,
        ),
        click.clicked,
        !click.escape,
        is_over_nothing(over),
    ensures
        ({
            let saved = edit_frame(menu, input, over_name, over_address, true, false, now).menu;
            let s = list_frame(
                saved,
                click,
                seq![RowHit { index: i, zone: RowZone::Join }],
                over,
                later,
            );
            s.out.action == ActionView::Connect {
                server: saved.fields.edit_address,
                username: menu.username,
            }
        }),
{
    done_saves_the_edited_server(menu, input, over_name, over_address, false, now, i);
    let saved = edit_frame(menu, input, over_name, over_address, true, false, now).menu;
    joining_a_row_asks_for_its_address(saved, click, i, over, later);
}

/// A click beside the icon chooses the row; a second one on the same row within
/// four tenths of a second joins it, and a later one does not. No click there
/// changes the list.
pub proof fn a_second_click_joins(
    menu: MenuModel,
    input: MenuInput,
    i: usize,
    over: ListButtons,
    now: u64,
    then: u64,
)
    requires
        i < menu.servers.len(),
        menu.last_click_time <= now <= then,
        menu.last_click_index != Some(i) || now - menu.last_click_time >= 400,
        input.clicked,
        !input.escape,
        is_over_nothing(over),
    ensures
        ({
            let row = seq![RowHit { index: i, zone: RowZone::Body }];
            let first = list_frame(menu, input, row, over, now);
            let second = list_frame(first.menu, input, row, over, then);
            &&& first.menu.selected_server == Some(i)
            &&& first.out.action is Nothing
            &&& first.menu.servers == menu.servers
            &&& then - now < 400 ==> second.out.action
                == ActionView::Connect {
                server: menu.servers[i as int].address,
                username: menu.username,
            }
            &&& then - now >= 400 ==> second.out.action is Nothing
                && second.menu.selected_server == Some(i)
        }),
{
    let hit = RowHit { index: i, zone: RowZone::Body };
    let refreshed = if input.f5 {
        nothing(2).doing(EffectView::PingAll)
    } else {
        nothing(2)
    };
    lemma_one_row(Step { menu, out: refreshed }, hit, true, now);
    let first = list_frame(menu, input, seq![hit], over, now);
    lemma_one_row(Step { menu: first.menu, out: refreshed }, hit, true, then);
}

/// The arrows of a row move it: the row and its neighbour change places, all other
/// rows stay, the moved row is chosen, and the list is written. The first row does
/// not move up, nor the last one down.
pub proof fn arrows_move_a_row_by_one(
    menu: MenuModel,
    input: MenuInput,
    i: usize,
    up: bool,
    over: ListButtons,
    now: u64,
)
    requires
        i < menu.servers.len(),
        menu.servers.len() <= usize::MAX,
        input.clicked,
        !input.escape,
        !input.f5,
        is_over_nothing(over),
        up ==> i > 0,
        !up ==> i + 1 < menu.servers.len(),
    ensures
        ({
            let zone = if up {
                RowZone::MoveUp
            } else {
                RowZone::MoveDown
            };
            let s = list_frame(menu, input, seq![RowHit { index: i, zone }], over, now);
            let to = if up {
                i - 1
            } else {
                i + 1
            };
            &&& s.menu.servers.len() == menu.servers.len()
            &&& s.menu.servers[to] == menu.servers[i as int]
            &&& s.menu.servers[i as int] == menu.servers[to]
            &&& forall|k: int|
                0 <= k < menu.servers.len() && k != i && k != to ==> #[trigger] s.menu.servers[k]
                    == menu.servers[k]
            &&& s.menu.selected_server == Some(to as usize)
            &&& s.out.effects == seq![EffectView::SaveServers]
            &&& s.out.action is Nothing
        }),
{
    let zone = if up {
        RowZone::MoveUp
    } else {
        RowZone::MoveDown
    };
    let hit = RowHit { index: i, zone };
    lemma_one_row(Step { menu, out: nothing(2) }, hit, true, now);
    let s = list_frame(menu, input, seq![hit], over, now);
    assert(s.out.effects =~= seq![EffectView::SaveServers]);
}

/// The buttons below the list. Join asks to join the chosen server; Edit opens the
/// form with the texts of the chosen server; Delete asks about the chosen server;
/// Direct Connection opens its form with the address that was last joined; Add
/// Server opens an empty form. Without a choice the first three do nothing.
pub proof fn buttons_act_on_the_choice(menu: MenuModel, input: MenuInput, now: u64)
    requires
        input.clicked,
        !input.escape,
        !input.f5,
    ensures
        ({
            let none = ListButtons {
                join: false,
                direct: false,
                add_server: false,
                edit: false,
                delete: false,
                refresh: false,
                back: false,
            };
            let rows = Seq::<RowHit>::empty();
            let join = list_frame(menu, input, rows, ListButtons { join: true, ..none }, now);
            let edit = list_frame(menu, input, rows, ListButtons { edit: true, ..none }, now);
            let delete = list_frame(menu, input, rows, ListButtons { delete: true, ..none }, now);
            let direct = list_frame(menu, input, rows, ListButtons { direct: true, ..none }, now);
            let added = list_frame(menu, input, rows, ListButtons { add_server: true, ..none }, now);
            let refresh = list_frame(menu, input, rows, ListButtons { refresh: true, ..none }, now);
            let back = list_frame(menu, input, rows, ListButtons { back: true, ..none }, now);
            &&& (menu.selected_server matches Some(i) ==> i < menu.servers.len() ==> {
                let entry = menu.servers[i as int];
                &&& join.out.action == ActionView::Connect {
                    server: entry.address,
                    username: menu.username,
                }
                &&& join.menu == menu
                &&& edit.menu.screen == Screen::EditServer(i)
                &&& edit.menu.fields.edit_name == entry.name
                &&& edit.menu.fields.edit_address == entry.address
                &&& edit.menu.fields.focused == Some(0u8)
                &&& edit.menu.servers == menu.servers
                &&& edit.out.action is Nothing
                &&& delete.menu.screen == Screen::ConfirmDelete(i)
                &&& delete.menu.servers == menu.servers
                &&& delete.out.effects.len() == 0
            })
            &&& menu.selected_server is None ==> join.menu == menu && join.out.action is Nothing
                && edit.menu == menu && delete.menu == menu
            &&& direct.menu.screen == Screen::DirectConnect
            &&& direct.menu.fields.edit_address == menu.last_mp_ip
            &&& direct.menu.fields.focused == Some(0u8)
            &&& direct.out.action is Nothing
            &&& added.menu.screen == Screen::AddServer
            &&& added.menu.fields.edit_address.len() == 0
            &&& added.menu.fields.edit_name.len() == 0
            &&& added.menu.fields.focused == Some(0u8)
            &&& refresh.out.effects == seq![EffectView::PingAll]
            &&& refresh.menu == menu
            &&& back.menu.screen == Screen::Main
            &&& back.menu.servers == menu.servers
        }),
{
    let s = Step { menu, out: nothing(2) };
    assert(rows_done(s, Seq::empty(), true, now, 0) == (s, None::<(usize, usize)>));
}

/// The list asks the servers for their status on F5, and only on F5 or Refresh.
pub proof fn refreshing_asks_every_server(
    menu: MenuModel,
    input: MenuInput,
    over: ListButtons,
    now: u64,
)
    requires
        !input.clicked,
    ensures
        ({
            let s = list_frame(menu, input, Seq::empty(), over, now);
            &&& input.f5 ==> s.out.effects == seq![EffectView::PingAll]
            &&& !input.f5 ==> s.out.effects.len() == 0
            &&& s.out.action is Nothing
            &&& s.menu.servers == menu.servers
            &&& s.menu.screen == if input.escape {
                Screen::Main
            } else {
                menu.screen
            }
        }),
{
    let refreshed = if input.f5 {
        nothing(2).doing(EffectView::PingAll)
    } else {
        nothing(2)
    };
    let s = Step { menu, out: refreshed };
    assert(rows_done(s, Seq::empty(), false, now, 0) == (s, None::<(usize, usize)>));
}

/// A deletion that is confirmed takes that server out, and no other: those before
/// it stay in place, those after it move up. It is written. What is cancelled, or
/// left by the escape key, changes nothing.
pub proof fn deleting_removes_one_server(
    menu: MenuModel,
    input: MenuInput,
    over_delete: bool,
    over_cancel: bool,
    now: u64,
    i: usize,
)
    requires
        menu.screen == Screen::ConfirmDelete(i),
        i < menu.servers.len(),
    ensures
        ({
            let s = delete_frame(menu, input, over_delete, over_cancel, now);
            &&& if input.clicked && over_delete && !input.escape {
                &&& s.menu.servers.len() == menu.servers.len() - 1
                &&& forall|k: int|
                    0 <= k < i ==> #[trigger] s.menu.servers[k] == menu.servers[k]
                &&& forall|k: int|
                    i <= k < menu.servers.len() - 1 ==> #[trigger] s.menu.servers[k]
                        == menu.servers[k + 1]
                &&& s.out.effects == seq![EffectView::SaveServers]
                &&& s.menu.selected_server is None
                &&& s.menu.screen == Screen::ServerList
            } else {
                &&& s.menu.servers == menu.servers
                &&& s.out.effects.len() == 0
                &&& s.menu.selected_server == menu.selected_server
                &&& s.menu.screen == if input.escape || (over_cancel && input.clicked) {
                    Screen::ServerList
                } else {
                    menu.screen
                }
            }
            &&& s.out.action is Nothing
        }),
{
}

/// Joining by address asks for the address that stands in the field, and keeps it
/// for the next time. It happens on a click on Join or on the enter key, if the
/// address names a host, and on nothing else.
pub proof fn direct_joins_ask_for_the_typed_address(
    menu: MenuModel,
    input: MenuInput,
    over_field: bool,
    over_join: bool,
    over_cancel: bool,
    now: u64,
)
    ensures
        ({
            let s = direct_frame(menu, input, over_field, over_join, over_cancel, now);
            let address = s.menu.fields.edit_address;
            let asked = !input.escape && has_host(address) && (input.enter || (over_join
                && input.clicked));
            &&& asked ==> s.out.action == ActionView::Connect {
                server: address,
                username: menu.username,
            } && s.menu.last_mp_ip == address
            &&& !asked ==> s.out.action is Nothing && s.menu.last_mp_ip == menu.last_mp_ip
            &&& s.menu.servers == menu.servers
            &&& s.out.effects.len() == 0
            &&& s.menu.screen == if input.escape || (over_cancel && input.clicked) {
                Screen::ServerList
            } else {
                menu.screen
            }
        }),
{
}

/// In the forms the cursor points where a click does something: at Done and Join
/// only while the address names a host, and at Cancel always. The world behind stays
/// blurred.
pub proof fn the_cursor_points_in_the_forms(
    menu: MenuModel,
    input: MenuInput,
    over_first: bool,
    over_second: bool,
    over_button: bool,
    over_cancel: bool,
    now: u64,
)
    requires
        !input.escape,
    ensures
        ({
            let edit = edit_frame(
                menu,
                input,
                over_first,
                over_second,
                over_button,
                over_cancel,
                now,
            );
            let direct = direct_frame(menu, input, over_first, over_button, over_cancel, now);
            let delete = delete_frame(menu, input, over_button, over_cancel, now);
            &&& edit.out.cursor_pointer == (over_cancel || (over_button && has_host(
                edit.menu.fields.edit_address,
            )))
            &&& direct.out.cursor_pointer == (over_cancel || (over_button && has_host(
                direct.menu.fields.edit_address,
            )))
            &&& menu.screen is ConfirmDelete ==> delete.out.cursor_pointer == (over_cancel
                || over_button)
            &&& edit.out.blur == 2 && direct.out.blur == 2 && delete.out.blur == 2
        }),
{
}

/// A click into a field of a form gives it the focus; without one the focus stays
/// where it is. Clicks alone change no text.
pub proof fn clicks_give_the_focus(
    menu: MenuModel,
    input: MenuInput,
    over_name: bool,
    over_address: bool,
    now: u64,
)
    requires
        is_form(menu.screen),
        !input.escape,
        !input.tab,
        !input.undo,
        !input.cut,
        !input.select_all,
        !input.backspace,
        input.typed_chars@.len() == 0,
        !(over_name && over_address),
    ensures
        ({
            let s = edit_frame(menu, input, over_name, over_address, false, false, now);
            &&& s.menu.fields.focused == if input.clicked && over_name {
                Some(0u8)
            } else if input.clicked && over_address {
                Some(1u8)
            } else {
                menu.fields.focused
            }
            &&& s.menu.fields.edit_name == menu.fields.edit_name
            &&& s.menu.fields.edit_address == menu.fields.edit_address
            &&& s.menu.screen == menu.screen
            &&& s.menu.servers == menu.servers
        }),
{
    typing_goes_to_the_field_with_the_focus(menu.fields, menu.screen, input, 2, now);
}

/// What is typed while the name or the address of a server has the focus is what is
/// saved.
pub proof fn what_is_typed_is_saved(menu: MenuModel, input: MenuInput, now: u64, i: usize)
    requires
        menu.screen == Screen::EditServer(i),
        i < menu.servers.len(),
        menu.fields.focused == Some(1u8),
        !menu.fields.all_selected,
        input.clicked,
        !input.escape,
        !input.tab,
        !input.undo,
        !input.cut,
        !input.select_all,
        !input.backspace,
        has_host(menu.fields.edit_address + input.typed_chars@),
    ensures
        ({
            let s = edit_frame(menu, input, false, false, true, false, now);
            &&& s.menu.servers[i as int].address == menu.fields.edit_address + input.typed_chars@
            &&& menu.fields.edit_name.len() > 0 ==> s.menu.servers[i as int].name
                == menu.fields.edit_name
        }),
{
    typing_goes_to_the_field_with_the_focus(menu.fields, menu.screen, input, 2, now);
    assert(menu.fields.edit_address + Seq::<char>::empty() =~= menu.fields.edit_address);
    if input.typed_chars@.len() == 0 {
        assert(menu.fields.edit_address + input.typed_chars@ =~= menu.fields.edit_address);
    }
}

/// Over the list the cursor points at every row and at every button that can be
/// clicked: those for a chosen server only while one is chosen.
pub proof fn the_cursor_points_in_the_list(
    menu: MenuModel,
    input: MenuInput,
    rows: Seq<RowHit>,
    over: ListButtons,
    now: u64,
)
    requires
        !input.clicked,
        rows.len() <= 1,
    ensures
        ({
            let s = list_frame(menu, input, rows, over, now);
            &&& !input.escape ==> s.out.cursor_pointer == (rows.len() > 0 || over.direct
                || over.add_server || over.refresh || over.back || (menu.selected_server is Some && (
            over.join || over.edit || over.delete)))
            &&& !input.escape ==> s.menu == menu && s.out.blur == 2
            &&& input.escape ==> !s.out.cursor_pointer && s.out.blur == 1
        }),
{
    let refreshed = if input.f5 {
        nothing(2).doing(EffectView::PingAll)
    } else {
        nothing(2)
    };
    let s = Step { menu, out: refreshed };
    if rows.len() == 1 {
        assert(rows =~= seq![rows[0]]);
        lemma_one_row(s, rows[0], false, now);
    } else {
        assert(rows_done(s, rows, false, now, 0) == (s, None::<(usize, usize)>));
    }
}

/// While the cursor is on the icon of a row, the sign to join is there, the arrow up
/// unless it is the first row, and the arrow down unless it is the last; the one
/// under the cursor is lit. Beside the icon there is none.
pub proof fn icons_offer_what_they_do(index: int, count: int, zone: RowZone)
    requires
        0 <= index < count,
    ensures
        ({
            let sprites = icon_sprites(index, count, zone);
            let on_icon = zone != RowZone::Body;
            &&& sprites.contains(SpriteId::ServerJoin) == (on_icon && zone != RowZone::Join)
            &&& sprites.contains(SpriteId::ServerJoinHighlighted) == (zone == RowZone::Join)
            &&& sprites.contains(SpriteId::ServerMoveUp) == (on_icon && index > 0 && zone
                != RowZone::MoveUp)
            &&& sprites.contains(SpriteId::ServerMoveUpHighlighted) == (index > 0 && zone
                == RowZone::MoveUp)
            &&& sprites.contains(SpriteId::ServerMoveDown) == (on_icon && index + 1 < count && zone
                != RowZone::MoveDown)
            &&& sprites.contains(SpriteId::ServerMoveDownHighlighted) == (index + 1 < count && zone
                == RowZone::MoveDown)
        }),
{
    let sprites = icon_sprites(index, count, zone);
    if zone != RowZone::Body {
        let join = sprites[0];
        assert(join == if zone == RowZone::Join {
            SpriteId::ServerJoinHighlighted
        } else {
            SpriteId::ServerJoin
        });
        if index > 0 {
            assert(sprites[1] == if zone == RowZone::MoveUp {
                SpriteId::ServerMoveUpHighlighted
            } else {
                SpriteId::ServerMoveUp
            });
        }
        if index + 1 < count {
            let at: int = if index > 0 {
                2
            } else {
                1
            };
            assert(sprites[at] == if zone == RowZone::MoveDown {
                SpriteId::ServerMoveDownHighlighted
            } else {
                SpriteId::ServerMoveDown
            });
        }
    }
}

} // verus!
