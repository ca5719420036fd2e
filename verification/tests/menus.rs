use pomme_client::friends::{
    FriendAction, FriendLists, FriendStatus, FriendView, FriendsState, UpdateType,
};
use pomme_client::menu::auth::{auth_message, AuthStatus};
use pomme_client::menu::fields::{push_undo, TextFields};
use pomme_client::menu::friends_screen::{FriendHits, RequestButton, RequestHit};
use pomme_client::menu::main_screen::MainHits;
use pomme_client::menu::options::{CellHit, DisplayMode};
use pomme_client::menu::packs::{compat_label, pack_label, visible_packs, PackHits};
use pomme_client::menu::pages::{
    fov_label, mode_label, online_tooltip, options_page, scale_label, PageKind,
};
use pomme_client::menu::servers::{
    loading_dots, row_icons, row_mark, ListButtons, RowHit, RowMark, RowZone,
};
use pomme_client::menu::state::{
    atlas_dirty, AuthPending, Effect, FriendTab, Link, MainMenu, MenuAction, MenuInput, PackCompat,
    PackInfo, PackSource, PanoramaTheme, Screen, Settings, Settling, SliderId,
};
use pomme_client::server_list::{Field, FieldValue, ServerEntry, ServerList};
use pomme_client::sprites::SpriteId;

fn menu() -> MainMenu {
    let mut servers = ServerList { servers: Vec::new() };
    for name in ["one", "two", "three"] {
        servers.add(ServerEntry::named(name.to_string(), format!("{name}.net")));
    }
    MainMenu::new("Steve".to_string(), true, servers, Settings::default(), 0)
}

fn input() -> MenuInput {
    MenuInput {
        clicked: false,
        mouse_held: false,
        typed_chars: vec![],
        backspace: false,
        enter: false,
        escape: false,
        tab: false,
        f5: false,
        select_all: false,
        copy: false,
        cut: false,
        undo: false,
        cut_written: false,
    }
}

fn click() -> MenuInput {
    MenuInput { clicked: true, mouse_held: true, ..input() }
}

fn escape() -> MenuInput {
    MenuInput { escape: true, ..input() }
}

fn typed(text: &str) -> MenuInput {
    MenuInput { typed_chars: text.chars().collect(), ..input() }
}

fn no_hits() -> MainHits {
    MainHits {
        singleplayer: false,
        multiplayer: false,
        quit: false,
        user_icon: false,
        link_icon: false,
        gear_icon: false,
        brush_icon: false,
        website: false,
        discord: false,
        github: false,
        beside_links: false,
        pomme_theme: false,
        default_theme: false,
        beside_themes: false,
    }
}

fn no_buttons() -> ListButtons {
    ListButtons {
        join: false,
        direct: false,
        add_server: false,
        edit: false,
        delete: false,
        refresh: false,
        back: false,
    }
}

fn server_names(m: &MainMenu) -> Vec<&str> {
    m.server_list.servers.iter().map(|s| s.name.as_str()).collect()
}

fn joins(action: &MenuAction, address: &str) -> bool {
    matches!(
        action,
        MenuAction::Connect { server, username } if server == address && username == "Steve"
    )
}

#[test]
fn a_change_is_reported_once_it_has_settled() {
    let mut watch = Settling { last: 0, since: None };
    assert!(!atlas_dirty(3, &mut watch, 1000));
    assert!(!atlas_dirty(3, &mut watch, 1499));
    assert!(atlas_dirty(3, &mut watch, 1500));
    assert!(!atlas_dirty(3, &mut watch, 9999));
    let mut m = menu();
    m.set_screen(Screen::ServerList, 0);
    assert!(!m.favicons_changed(0, 10));
    assert!(m.favicons_changed(0, 510));
    assert!(!m.faces_changed(0, 10));
    assert!(m.faces_changed(0, 600));
}

#[test]
fn first_settings_are_the_usual_ones() {
    let s = Settings::default();
    assert_eq!((s.gui_scale, s.render_distance, s.fov), (0, 12, 70));
    assert!(s.vsync && s.skin_hat);
}

#[test]
fn playing_needs_an_account() {
    let mut m = menu();
    m.signed_in = false;
    let hits = MainHits { multiplayer: true, ..no_hits() };
    let result = m.build_main(&click(), &hits, 5);
    assert!(result.clicked_button && result.cursor_pointer);
    assert!(matches!(m.screen, Screen::AuthPrompt { pending: AuthPending::Multiplayer }));
    let mut m = menu();
    m.build_main(&click(), &hits, 5);
    assert!(m.is_server_list_screen());
    let mut m = menu();
    let quit = MainHits { quit: true, ..no_hits() };
    assert!(matches!(m.build_main(&click(), &quit, 5).action, MenuAction::Quit));
    assert!(matches!(m.build_main(&input(), &quit, 5).action, MenuAction::Nothing));
}

#[test]
fn one_dropdown_is_open_at_a_time() {
    let mut m = menu();
    m.build_main(&click(), &MainHits { link_icon: true, ..no_hits() }, 1);
    assert!(m.links_open && !m.theme_open);
    m.build_main(&click(), &MainHits { brush_icon: true, ..no_hits() }, 2);
    assert!(!m.links_open && m.theme_open);
    let mut m = menu();
    m.links_open = true;
    let result = m.build_main(&click(), &MainHits { discord: true, ..no_hits() }, 3);
    assert!(matches!(result.effects[..], [Effect::OpenLink(Link::Discord)]));
    assert!(!m.links_open);
    m.links_open = true;
    m.build_main(&input(), &MainHits { beside_links: true, ..no_hits() }, 4);
    assert!(m.links_open);
    m.build_main(&click(), &MainHits { beside_links: true, ..no_hits() }, 5);
    assert!(!m.links_open);
}

#[test]
fn a_theme_is_loaded_once_the_old_one_has_closed() {
    let mut m = menu();
    m.theme_open = true;
    m.build_main(&click(), &MainHits { default_theme: true, ..no_hits() }, 1000);
    assert!(!m.theme_open);
    let action = m.build_main(&input(), &no_hits(), 1499).action;
    assert!(matches!(action, MenuAction::Nothing));
    let action = m.build_main(&input(), &no_hits(), 1500).action;
    assert!(matches!(action, MenuAction::ChangeTheme(PanoramaTheme::Default)));
    assert_eq!(m.theme, PanoramaTheme::Default);
    let action = m.build_main(&input(), &no_hits(), 1600).action;
    assert!(matches!(action, MenuAction::Nothing));
    m.start_transition_open(2000);
    m.build_main(&input(), &no_hits(), 2499);
    assert!(m.transition.is_some());
    m.build_main(&input(), &no_hits(), 2500);
    assert!(m.transition.is_none());
}

fn row(index: usize, zone: RowZone) -> Vec<RowHit> {
    vec![RowHit { index, zone }]
}

#[test]
fn servers_are_joined_by_their_icon_or_a_double_click() {
    let mut m = menu();
    let result = m.build_server_list(&click(), &row(1, RowZone::Join), &no_buttons(), 10);
    assert!(joins(&result.action, "two.net"));
    let result = m.build_server_list(&click(), &row(2, RowZone::Body), &no_buttons(), 20);
    assert!(matches!(result.action, MenuAction::Nothing));
    assert_eq!(m.selected_server, Some(2));
    let result = m.build_server_list(&click(), &row(2, RowZone::Body), &no_buttons(), 419);
    assert!(joins(&result.action, "three.net"));
    let over = ListButtons { join: true, ..no_buttons() };
    let result = m.build_server_list(&click(), &vec![], &over, 900);
    assert!(joins(&result.action, "three.net"));
}

#[test]
fn moving_a_server_up_and_down_restores_the_list() {
    let mut m = menu();
    let result = m.build_server_list(&click(), &row(1, RowZone::MoveUp), &no_buttons(), 10);
    assert!(matches!(result.effects[..], [Effect::SaveServers]));
    assert_eq!(server_names(&m), vec!["two", "one", "three"]);
    assert_eq!(m.selected_server, Some(0));
    m.build_server_list(&click(), &row(0, RowZone::MoveDown), &no_buttons(), 20);
    assert_eq!(server_names(&m), vec!["one", "two", "three"]);
    m.build_server_list(&click(), &row(0, RowZone::MoveUp), &no_buttons(), 9000);
    assert_eq!(server_names(&m), vec!["one", "two", "three"]);
}

#[test]
fn the_server_list_is_refreshed_and_left() {
    let mut m = menu();
    m.set_screen(Screen::ServerList, 0);
    let f5 = MenuInput { f5: true, ..input() };
    let result = m.build_server_list(&f5, &vec![], &no_buttons(), 1);
    assert!(matches!(result.effects[..], [Effect::PingAll]));
    let result = m.build_server_list(&escape(), &vec![], &no_buttons(), 1);
    assert!(m.is_main_screen());
    assert_eq!(result.blur, 1);
}

#[test]
fn a_server_is_deleted_after_a_question() {
    let mut m = menu();
    m.selected_server = Some(1);
    let over = ListButtons { delete: true, ..no_buttons() };
    m.build_server_list(&click(), &vec![], &over, 1);
    assert!(matches!(m.screen, Screen::ConfirmDelete(1)));
    assert_eq!(m.delete_warning(1), "'two' will be lost forever! (A long time!)");
    m.build_confirm_delete(&click(), false, true, 2);
    assert_eq!(m.server_list.servers.len(), 3);
    m.set_screen(Screen::ConfirmDelete(1), 3);
    let result = m.build_confirm_delete(&click(), true, false, 4);
    assert_eq!(server_names(&m), vec!["one", "three"]);
    assert!(result.effects.iter().any(|e| matches!(e, Effect::SaveServers)));
    assert!(m.is_server_list_screen());
}

#[test]
fn a_server_can_be_joined_directly() {
    let mut m = menu();
    let over = ListButtons { direct: true, ..no_buttons() };
    m.build_server_list(&click(), &vec![], &over, 1);
    assert!(matches!(m.screen, Screen::DirectConnect));
    m.build_direct_connect(&typed("mc.net"), false, false, false, 2);
    assert_eq!(m.fields.edit_address, "mc.net");
    let result = m.build_direct_connect(&click(), false, true, false, 3);
    assert!(joins(&result.action, "mc.net"));
    assert_eq!(m.last_mp_ip, "mc.net");
}

#[test]
fn an_address_without_a_host_is_not_joined() {
    let mut m = menu();
    m.set_screen(Screen::DirectConnect, 0);
    m.fields.focused = Some(0);
    m.build_direct_connect(&typed(":25565"), false, false, false, 2);
    let result = m.build_direct_connect(&click(), false, true, false, 3);
    assert!(matches!(result.action, MenuAction::Nothing));
}

#[test]
fn a_new_server_gets_a_name_and_is_saved() {
    let mut m = menu();
    let over = ListButtons { add_server: true, ..no_buttons() };
    m.build_server_list(&click(), &vec![], &over, 1);
    assert!(matches!(m.screen, Screen::AddServer));
    let next = MenuInput { tab: true, ..input() };
    m.build_edit_server(&next, false, false, false, false, 2);
    m.build_edit_server(&typed("new.net"), false, false, false, false, 3);
    let result = m.build_edit_server(&click(), false, false, true, false, 4);
    assert!(result.effects.iter().any(|e| matches!(e, Effect::SaveServers)));
    let added = m.server_list.servers.last().unwrap();
    assert_eq!((added.name.as_str(), added.address.as_str()), ("Minecraft Server", "new.net"));
}

#[test]
fn editing_a_server_keeps_what_is_unknown() {
    let mut m = menu();
    m.server_list.servers[0].extra.push(Field {
        key: "category".to_string(),
        value: FieldValue::Text("Modded".to_string()),
    });
    m.selected_server = Some(0);
    let over = ListButtons { edit: true, ..no_buttons() };
    m.build_server_list(&click(), &vec![], &over, 1);
    assert!(matches!(m.screen, Screen::EditServer(0)));
    assert_eq!(m.fields.edit_name, "one");
    m.build_edit_server(&typed("!"), false, false, false, false, 2);
    m.build_edit_server(&click(), false, false, true, false, 3);
    assert_eq!(m.server_list.servers[0].name, "one!");
    assert_eq!(m.server_list.servers[0].extra.len(), 1);
}

#[test]
fn the_end_of_a_connection_leads_back() {
    let mut m = menu();
    m.show_disconnect("kicked".to_string(), 0);
    assert!(matches!(&m.screen, Screen::Disconnected(reason) if reason == "kicked"));
    m.build_disconnected(&input(), true, 1);
    assert!(matches!(m.screen, Screen::Disconnected(_)));
    m.build_disconnected(&click(), true, 2);
    assert!(m.is_main_screen());
}

#[test]
fn typing_is_undone_step_by_step() {
    let mut m = menu();
    m.set_screen(Screen::DirectConnect, 0);
    m.fields.focused = Some(0);
    m.edit_form(&typed("ab"), 1, false, false, 1);
    m.edit_form(&typed("c"), 1, false, false, 2);
    let erase = MenuInput { backspace: true, ..input() };
    m.edit_form(&erase, 1, false, false, 3);
    assert_eq!(m.fields.edit_address, "ab");
    let undo = || MenuInput { undo: true, ..input() };
    m.edit_form(&undo(), 1, false, false, 4);
    assert_eq!(m.fields.edit_address, "abc");
    m.edit_form(&undo(), 1, false, false, 5);
    m.edit_form(&undo(), 1, false, false, 6);
    assert_eq!(m.fields.edit_address, "");
}

#[test]
fn a_selection_is_replaced_copied_and_cut() {
    let mut m = menu();
    m.set_screen(Screen::DirectConnect, 0);
    m.fields.focused = Some(0);
    m.edit_form(&typed("old"), 1, false, false, 1);
    let all = MenuInput { select_all: true, ..input() };
    m.edit_form(&all, 1, false, false, 2);
    assert!(m.fields.all_selected);
    m.edit_form(&typed("new"), 1, false, false, 3);
    assert_eq!(m.fields.edit_address, "new");
    let copy = MenuInput { copy: true, ..input() };
    let asked = m.fields.clipboard_request(&m.screen, &copy, 1);
    assert_eq!(asked.as_deref(), Some("new"));
    let refused = MenuInput { cut: true, ..input() };
    m.edit_form(&refused, 1, false, false, 4);
    assert_eq!(m.fields.edit_address, "new");
    let cut = MenuInput { cut: true, cut_written: true, ..input() };
    m.edit_form(&cut, 1, false, false, 5);
    assert_eq!(m.fields.edit_address, "");
}

#[test]
fn a_double_click_selects_the_text() {
    let mut m = menu();
    m.fields.on_field_click(1, 1000);
    assert!(!m.fields.all_selected);
    m.fields.on_field_click(1, 1399);
    assert!(m.fields.all_selected);
    m.fields.on_field_click(0, 1400);
    assert!(!m.fields.all_selected);
}

#[test]
fn kept_texts_are_bounded() {
    let mut stack = Vec::new();
    for i in 0..60 {
        push_undo(&mut stack, 0, format!("{i}"));
    }
    assert_eq!(stack.len(), 50);
    assert_eq!(stack[0].1, "10");
    assert_eq!(stack[49].1, "59");
}

#[test]
fn rows_show_where_they_can_move() {
    assert_eq!(row_mark(true, true), RowMark::Selected);
    assert_eq!(row_mark(false, true), RowMark::Hovered);
    assert_eq!(row_mark(false, false), RowMark::Plain);
    assert_eq!(
        row_icons(1, 3, RowZone::MoveUp),
        vec![
            SpriteId::ServerJoin,
            SpriteId::ServerMoveUpHighlighted,
            SpriteId::ServerMoveDown
        ]
    );
    assert_eq!(
        row_icons(0, 3, RowZone::MoveDown),
        vec![SpriteId::ServerJoin, SpriteId::ServerMoveDownHighlighted]
    );
    assert_eq!(row_icons(0, 1, RowZone::Join), vec![SpriteId::ServerJoinHighlighted]);
    let dots = [0, 300, 600, 900, 1200].map(loading_dots);
    assert_eq!(dots, ["O o o", "o O o", "o o O", "o O o", "O o o"]);
}

#[test]
fn signing_in_leads_to_what_was_asked_for() {
    let mut m = menu();
    m.signed_in = false;
    m.set_screen(Screen::AuthPrompt { pending: AuthPending::Multiplayer }, 0);
    let result = m.build_auth_prompt(&click(), true, false, 1);
    assert!(matches!(result.effects[..], [Effect::StartAuth]));
    assert!(matches!(m.screen, Screen::Auth { pending: AuthPending::Multiplayer }));
    m.build_auth(&input(), &AuthStatus::WaitingForBrowser, false, 2);
    assert!(!m.signed_in);
    m.build_auth(&input(), &AuthStatus::Success("Alex".to_string()), false, 3);
    assert!(m.signed_in);
    assert_eq!(m.username, "Alex");
    assert!(m.is_server_list_screen());
}

#[test]
fn signing_in_can_be_given_up() {
    let mut m = menu();
    m.set_screen(Screen::Auth { pending: AuthPending::Nothing }, 0);
    let failed = AuthStatus::Failed("denied".to_string());
    assert_eq!(auth_message(&failed), ("denied".to_string(), "Back".to_string()));
    assert_eq!(auth_message(&AuthStatus::Exchanging).0, "Logging in...");
    assert_eq!(auth_message(&AuthStatus::Idle).0, "Opening browser...");
    let result = m.build_auth(&click(), &failed, true, 1);
    assert!(matches!(result.effects[..], [Effect::ResetAuth]));
    assert!(m.is_main_screen());
    m.set_screen(Screen::AuthPrompt { pending: AuthPending::Nothing }, 2);
    m.build_auth_prompt(&escape(), false, false, 3);
    assert!(m.is_main_screen());
}

fn friend(name: &str, uuid: &str) -> FriendView {
    FriendView { name: name.to_string(), uuid: uuid.to_string(), status: FriendStatus::Online }
}

fn loaded() -> FriendsState {
    FriendsState::Loaded(FriendLists {
        friends: vec![friend("Ann", "1"), friend("Bob", "2")],
        incoming: vec![friend("Cid", "3")],
        outgoing: vec![friend("Dot", "4")],
    })
}

fn friend_hits() -> FriendHits {
    FriendHits {
        inside: true,
        friends_tab: false,
        requests_tab: false,
        field: false,
        send: false,
        own_name: false,
        remove: vec![],
        requests: vec![],
        popup_remove: false,
        popup_cancel: false,
    }
}

#[test]
fn a_friend_is_removed_after_a_question() {
    let mut m = menu();
    m.set_screen(Screen::Friends, 0);
    let hits = FriendHits { remove: vec![1], ..friend_hits() };
    m.build_friends(&click(), &loaded(), &hits, 1);
    assert_eq!(m.pending_remove, Some(("2".to_string(), "Bob".to_string())));
    let other = FriendHits { remove: vec![0], ..friend_hits() };
    m.build_friends(&click(), &loaded(), &other, 2);
    assert_eq!(m.pending_remove, Some(("2".to_string(), "Bob".to_string())));
    let sure = FriendHits { popup_remove: true, ..friend_hits() };
    let result = m.build_friends(&click(), &loaded(), &sure, 3);
    assert_eq!(m.pending_remove, None);
    assert!(matches!(
        &result.effects[..],
        [Effect::ChangeFriend(FriendAction::ById(id, UpdateType::Remove))] if id == "2"
    ));
}

#[test]
fn requests_are_answered() {
    let mut m = menu();
    m.set_screen(Screen::Friends, 0);
    let tab = FriendHits { requests_tab: true, ..friend_hits() };
    m.build_friends(&click(), &loaded(), &tab, 1);
    assert_eq!(m.friend_tab, FriendTab::Requests);
    let accept = FriendHits {
        requests: vec![RequestHit { row: 0, button: RequestButton::Accept }],
        ..friend_hits()
    };
    let result = m.build_friends(&click(), &loaded(), &accept, 2);
    assert!(matches!(
        &result.effects[..],
        [Effect::ChangeFriend(FriendAction::ById(id, UpdateType::Add))] if id == "3"
    ));
    let cancel = FriendHits {
        requests: vec![RequestHit { row: 0, button: RequestButton::Cancel }],
        ..friend_hits()
    };
    let result = m.build_friends(&click(), &loaded(), &cancel, 3);
    assert!(matches!(
        &result.effects[..],
        [Effect::ChangeFriend(FriendAction::ById(id, UpdateType::Remove))] if id == "4"
    ));
}

#[test]
fn a_new_friend_is_asked_for_by_name() {
    let mut m = menu();
    m.set_screen(Screen::Friends, 0);
    m.add_friend_name = "  Eve ".to_string();
    let send = FriendHits { send: true, ..friend_hits() };
    let result = m.build_friends(&click(), &loaded(), &send, 1);
    assert!(matches!(
        &result.effects[..],
        [Effect::ChangeFriend(FriendAction::AddByName(name))] if name == "Eve"
    ));
    assert_eq!(m.add_friend_name, "");
    m.build_friends(&escape(), &loaded(), &friend_hits(), 2);
    assert!(m.is_main_screen());
}

#[test]
fn opening_the_friends_starts_over() {
    let mut m = menu();
    m.friend_tab = FriendTab::Requests;
    m.pending_remove = Some(("x".to_string(), "y".to_string()));
    let mut result = m.build_main(&input(), &no_hits(), 0);
    m.open_friends(&mut result, 1);
    assert!(m.is_friends_screen());
    assert_eq!(m.friend_tab, FriendTab::Friends);
    assert_eq!(m.pending_remove, None);
    assert!(result.effects.iter().any(|e| matches!(e, Effect::RefreshFriends)));
}

fn cells(n: usize) -> Vec<CellHit> {
    vec![CellHit { hovered: false, value: 0 }; n]
}

#[test]
fn option_labels_follow_the_settings() {
    assert_eq!(fov_label(70), "FOV: Normal");
    assert_eq!(fov_label(110), "FOV: Quake Pro");
    assert_eq!(fov_label(90), "FOV: 90");
    assert_eq!(scale_label(0), "GUI Scale: Auto");
    assert_eq!(scale_label(3), "GUI Scale: 3");
    assert_eq!(mode_label(DisplayMode::Fullscreen), "Fullscreen: Exclusive");
    let page = options_page(
        PageKind::Video,
        &Settings::default(),
        DisplayMode::Windowed,
        &Screen::Options,
    );
    assert_eq!(page.title, "Video Settings");
    assert_eq!(page.rows[0].0, "Render Distance: 12 chunks");
    assert_eq!(page.rows[0].1, "Simulation Distance: 12 chunks");
    assert_eq!(
        online_tooltip(&"Show Online Status: ON".to_string()),
        Some("Allow friends to see when you're online")
    );
    assert!(online_tooltip(&"Nothing".to_string()).is_none());
}

#[test]
fn options_lead_to_their_screens() {
    let mut m = menu();
    m.open_options(0);
    assert!(m.is_options_screen());
    assert_eq!(m.page_kind(), Some(PageKind::Options));
    let mut hits = cells(12);
    hits[8].hovered = true;
    m.build_options(PageKind::Options, DisplayMode::Windowed, &click(), &hits, false, 4, 1);
    assert!(matches!(m.screen, Screen::OptionsResourcePacks));
    assert!(m.rescan_packs);
    assert_eq!(m.fields.focused, Some(0));
    assert_eq!(m.page_kind(), None);
}

#[test]
fn switches_go_back_when_pressed_twice() {
    let mut m = menu();
    let mut hits = cells(8);
    hits[0].hovered = true;
    let result =
        m.build_options(PageKind::Skin, DisplayMode::Windowed, &click(), &hits, false, 4, 1);
    assert!(!m.settings.skin_cape);
    assert!(matches!(result.effects[..], [Effect::SaveSettings]));
    m.build_options(PageKind::Skin, DisplayMode::Windowed, &click(), &hits, false, 4, 2);
    assert!(m.settings.skin_cape);
}

#[test]
fn the_scale_goes_round() {
    let mut m = menu();
    let mut hits = cells(14);
    hits[7].hovered = true;
    let mut seen = Vec::new();
    for _ in 0..4 {
        m.build_options(PageKind::Video, DisplayMode::Windowed, &click(), &hits, false, 2, 1);
        seen.push(m.settings.gui_scale);
    }
    assert_eq!(seen, vec![1, 2, 0, 1]);
    let mut hits = cells(14);
    hits[11].hovered = true;
    let result =
        m.build_options(PageKind::Video, DisplayMode::Windowed, &click(), &hits, false, 2, 1);
    assert!(matches!(result.effects[..], [Effect::CycleDisplayMode]));
}

#[test]
fn a_slider_is_dragged_until_it_is_let_go() {
    let mut m = menu();
    let mut hits = cells(14);
    hits[0] = CellHit { hovered: true, value: 20 };
    let held = || MenuInput { mouse_held: true, ..input() };
    m.build_options(PageKind::Video, DisplayMode::Windowed, &held(), &hits, false, 2, 1);
    assert_eq!(m.settings.render_distance, 20);
    assert_eq!(m.active_slider, Some(SliderId::RenderDistance));
    hits[0] = CellHit { hovered: false, value: 32 };
    m.build_options(PageKind::Video, DisplayMode::Windowed, &held(), &hits, false, 2, 2);
    assert_eq!(m.settings.render_distance, 32);
    m.build_options(PageKind::Video, DisplayMode::Windowed, &input(), &hits, false, 2, 3);
    assert_eq!(m.active_slider, None);
}

#[test]
fn screens_to_come_lead_back() {
    let mut m = menu();
    m.set_screen(Screen::OptionsKeybinds, 0);
    let (title, back) = m.stub_page().unwrap();
    assert_eq!(title, "Keybinds");
    m.build_options_stub(&click(), back, true, 1);
    assert!(matches!(m.screen, Screen::OptionsControls));
    assert!(m.stub_page().is_none());
}

fn pack(name: &str, enabled: bool, source: PackSource) -> PackInfo {
    PackInfo {
        name: name.to_string(),
        description: "Sharper STONES".to_string(),
        enabled,
        compat: PackCompat::Compatible,
        source,
    }
}

#[test]
fn packs_are_found_without_regard_to_case() {
    let packs = vec![
        pack("Faithful", false, PackSource::Local),
        pack("ÄTHER", false, PackSource::Local),
        pack("Used", true, PackSource::Local),
    ];
    assert_eq!(visible_packs(&packs, &String::new()), vec![0, 1]);
    assert_eq!(visible_packs(&packs, &"FAITH".to_string()), vec![0]);
    assert_eq!(visible_packs(&packs, &"äth".to_string()), vec![1]);
    assert_eq!(visible_packs(&packs, &"stones".to_string()), vec![0, 1]);
    assert_eq!(visible_packs(&packs, &"zzz".to_string()), Vec::<usize>::new());
    assert_eq!(compat_label(PackCompat::TooOld), ("Made for an older version", true));
    assert_eq!(compat_label(PackCompat::TooNew), ("Made for a newer version", true));
    assert_eq!(pack_label(&pack("P", true, PackSource::Server)), "[Server] P");
}

fn pack_hits() -> PackHits {
    PackHits { field: false, available: vec![], selected: vec![], folder: false, done: false }
}

#[test]
fn packs_are_switched_by_a_click() {
    let mut m = menu();
    m.set_screen(Screen::OptionsResourcePacks, 0);
    m.available_packs = vec![pack("A", true, PackSource::Local), pack("B", false, PackSource::Local)];
    m.active_packs = vec![pack("S", true, PackSource::Server), pack("A", true, PackSource::Local)];
    let hits = PackHits { available: vec![0], ..pack_hits() };
    m.build_options_resource_packs(&click(), &hits, 1);
    assert_eq!(m.pack_toggle, Some(("B".to_string(), true)));
    assert!(m.reload_assets);
    m.pack_toggle = None;
    let hits = PackHits { selected: vec![0], ..pack_hits() };
    m.build_options_resource_packs(&click(), &hits, 2);
    assert_eq!(m.pack_toggle, None);
    let hits = PackHits { selected: vec![1], ..pack_hits() };
    m.build_options_resource_packs(&click(), &hits, 3);
    assert_eq!(m.pack_toggle, Some(("A".to_string(), false)));
    let folder = PackHits { folder: true, ..pack_hits() };
    let result = m.build_options_resource_packs(&click(), &folder, 4);
    assert!(matches!(result.effects[..], [Effect::OpenPackFolder]));
    m.build_options_resource_packs(&escape(), &pack_hits(), 5);
    assert!(matches!(m.screen, Screen::Options));
}

#[test]
fn option_screens_are_built() {
    let screens = [
        Screen::Options,
        Screen::OptionsOnline,
        Screen::OptionsVideo,
        Screen::OptionsSkinCustomization,
        Screen::OptionsMusicSounds,
        Screen::OptionsControls,
        Screen::OptionsKeybinds,
        Screen::OptionsLanguage,
        Screen::OptionsChatSettings,
        Screen::OptionsResourcePacks,
        Screen::OptionsAccessibility,
        Screen::OptionsTelemetry,
        Screen::OptionsCredits,
    ];
    let mut m = menu();
    for screen in screens {
        let packs = matches!(screen, Screen::OptionsResourcePacks);
        m.set_screen(screen, 0);
        assert!(m.is_options_screen());
        let built = [m.page_kind().is_some(), m.stub_page().is_some(), packs];
        assert_eq!(built.iter().filter(|b| **b).count(), 1);
    }
    m.set_screen(Screen::ServerList, 0);
    assert!(!m.is_options_screen());
    assert!(m.page_kind().is_none() && m.stub_page().is_none());
}

#[test]
fn the_tab_key_goes_round_all_fields() {
    let mut fields = TextFields::new(0);
    let next = MenuInput { tab: true, ..input() };
    let mut seen = Vec::new();
    for _ in 0..4 {
        fields.handle_text_input(&Screen::Main, &next, 3, 0);
        seen.push(fields.focused);
    }
    assert_eq!(seen, vec![Some(0), Some(1), Some(2), Some(0)]);
}

#[test]
fn language_and_accessibility_lead_back_to_where_they_were_opened() {
    let done = |mut m: MainMenu, kind: PageKind, rows: usize| {
        m.build_options(kind, DisplayMode::Windowed, &click(), &cells(rows), true, 4, 1);
        m.screen
    };
    let page = |kind, back: &Screen| {
        options_page(kind, &Settings::default(), DisplayMode::Windowed, back)
    };
    let rows = page(PageKind::Accessibility, &Screen::Main).rows.len() * 2;
    let at = |back: Screen| {
        let mut m = menu();
        m.screen = Screen::OptionsAccessibility;
        m.settings_back = back;
        m
    };
    assert!(matches!(done(at(Screen::Main), PageKind::Accessibility, rows), Screen::Main));
    assert!(matches!(done(at(Screen::Options), PageKind::Accessibility, rows), Screen::Options));
    assert!(matches!(page(PageKind::Chat, &Screen::Main).back, Screen::Options));
    assert!(matches!(page(PageKind::Options, &Screen::Options).back, Screen::Main));
    let mut m = at(Screen::Main);
    m.screen = Screen::OptionsLanguage;
    assert!(matches!(m.stub_page(), Some(("Language", Screen::Main))));
}

#[test]
fn keeping_a_text_drops_the_oldest_of_fifty() {
    let mut stack: Vec<(u8, String)> = (0..60).map(|i| (0, i.to_string())).collect();
    push_undo(&mut stack, 1, "new".to_string());
    assert_eq!(stack.len(), 60);
    assert_eq!((stack[0].1.as_str(), stack[59].0), ("1", 1));
}
