use azalea_chat::FormattedText;
use pomme_client::friends::{
    action_request, check_status, display_order, faces_to_fetch, fetch, finish_action,
    finish_refresh, friend_action, presence_status, refresh_friends, request_view, status_label,
    without_dashes, Friend, FriendAction, FriendLists, FriendStatus, FriendView, FriendsList,
    FriendsState, PresenceEntry, UpdateType,
};
use pomme_client::server_list::{
    finish_ping, is_valid_address, ping_all_servers, ping_server, with_default_port, Compat, Field,
    FieldValue, PingError, PingResults, PingState, ServerEntry, ServerList, StatusReply,
};
use pomme_client::strings::{
    comes_before, decimal_text, signed_text, starts_with, text_chars, text_contains,
};
use serde_json::Value;

fn fields_of(json: &str) -> Vec<Field> {
    let value: Value = serde_json::from_str(json).unwrap();
    value
        .as_object()
        .unwrap()
        .iter()
        .map(|(key, value)| Field {
            key: key.clone(),
            value: match value {
                Value::Null => FieldValue::Null,
                Value::Number(n) => FieldValue::Integer(n.as_i64().unwrap()),
                Value::String(s) => FieldValue::Text(s.clone()),
                other => FieldValue::Json(serde_json::to_string(other).unwrap()),
            },
        })
        .collect()
}

fn value_of(field: &Field) -> Value {
    match &field.value {
        FieldValue::Null => Value::Null,
        FieldValue::Integer(n) => Value::from(*n),
        FieldValue::Text(s) => Value::from(s.clone()),
        FieldValue::Json(s) => serde_json::from_str(s).unwrap(),
    }
}

fn object_of(fields: &[Field]) -> Value {
    let mut map = serde_json::Map::new();
    for f in fields {
        map.insert(f.key.clone(), value_of(f));
    }
    Value::Object(map)
}

#[test]
fn entry_round_trip_keeps_unknown_fields() {
    let json = r#"{"name":"a","address":"b:25565","protocol":775,"category":"Modded"}"#;
    let entry = ServerEntry::from_fields(&fields_of(json)).unwrap();
    assert_eq!(entry.protocol, Some(775));
    assert_eq!(
        entry.extra.iter().find(|f| f.key == "category").map(value_of).as_ref().and_then(|v| v.as_str()),
        Some("Modded")
    );
    let back: Value = serde_json::from_str(json).unwrap();
    assert_eq!(object_of(&entry.to_fields()), back);
}

#[test]
fn entry_round_trip_minimal() {
    let json = r#"{"name":"a","address":"b"}"#;
    let entry = ServerEntry::from_fields(&fields_of(json)).unwrap();
    assert_eq!(entry.protocol, None);
    let saved: Vec<String> = entry
        .to_fields()
        .iter()
        .map(|f| format!("{:?}:{}", f.key, value_of(f)))
        .collect();
    assert_eq!(format!("{{{}}}", saved.join(",")), json);
}

#[test]
fn entries_need_a_name_and_an_address() {
    assert!(ServerEntry::from_fields(&fields_of(r#"{"name":"a"}"#)).is_none());
    assert!(ServerEntry::from_fields(&fields_of(r#"{"address":"b"}"#)).is_none());
    assert!(ServerEntry::from_fields(&fields_of(r#"{"name":1,"address":"b"}"#)).is_none());
    let null = r#"{"name":"a","address":"b","protocol":null}"#;
    assert_eq!(ServerEntry::from_fields(&fields_of(null)).unwrap().protocol, None);
    let wide = r#"{"name":"a","address":"b","protocol":99999999999}"#;
    assert!(ServerEntry::from_fields(&fields_of(wide)).is_none());
}

fn list() -> ServerList {
    let mut list = ServerList { servers: Vec::new() };
    for name in ["one", "two", "three"] {
        list.add(ServerEntry::named(name.to_string(), format!("{name}.net")));
    }
    list
}

fn names(list: &ServerList) -> Vec<&str> {
    list.servers.iter().map(|s| s.name.as_str()).collect()
}

#[test]
fn servers_are_moved_replaced_and_removed() {
    let mut l = list();
    assert!(l.swap(0, 2));
    assert_eq!(names(&l), vec!["three", "two", "one"]);
    assert!(l.swap(0, 2));
    assert_eq!(names(&l), vec!["one", "two", "three"]);
    assert!(!l.swap(0, 3));
    assert!(l.update(1, ServerEntry::named("new".to_string(), "new.net".to_string())));
    assert!(!l.update(3, ServerEntry::named("x".to_string(), "x".to_string())));
    assert!(l.remove(0));
    assert!(!l.remove(2));
    assert_eq!(names(&l), vec!["new", "three"]);
}

#[test]
fn protocols_are_native_translated_or_neither() {
    assert_eq!(Compat::of(775, 775, true), Compat::Native);
    assert_eq!(Compat::of(760, 775, true), Compat::Translated);
    assert_eq!(Compat::of(47, 775, false), Compat::Incompatible);
}

#[test]
fn addresses_get_the_default_port() {
    assert_eq!(with_default_port(&"mc.net".to_string()), "mc.net:25565");
    assert_eq!(with_default_port(&"mc.net:1".to_string()), "mc.net:1");
    assert!(is_valid_address(&"mc.net".to_string()));
    assert!(is_valid_address(&"127.0.0.1:80".to_string()));
    assert!(!is_valid_address(&String::new()));
    assert!(!is_valid_address(&":25565".to_string()));
}

fn reply() -> StatusReply {
    StatusReply {
        description: FormattedText::from("hello"),
        version: "1.21".to_string(),
        protocol: 775,
        online: 3,
        max: 20,
        favicon: None,
        player_names: vec!["Steve".to_string()],
    }
}

#[test]
fn an_answer_tells_about_the_server() {
    let state = ping_server(&"mc.net".to_string(), Ok((reply(), 12)), 775, true);
    match state.unwrap() {
        PingState::Success { motd, online, max, latency_ms, compat, favicon_rgba, .. } => {
            assert_eq!(motd[0].text, "hello");
            assert_eq!((online, max, latency_ms), (3, 20, 12));
            assert_eq!(compat, Compat::Native);
            assert!(favicon_rgba.is_none());
        }
        _ => panic!("no success"),
    }
}

#[test]
fn an_answer_that_cannot_be_shown_tells_nothing() {
    let description = serde_json::from_str(r#"{"translate":"%0$s"}"#).unwrap();
    let outcome = Ok((StatusReply { description, ..reply() }, 12));
    assert!(ping_server(&"mc.net".to_string(), outcome, 775, true).is_none());
}

#[test]
fn failures_of_a_ping_are_told() {
    let address = "x y".to_string();
    let text = |error: PingError| match ping_server(&address, Err(error), 775, true) {
        Some(PingState::Failed(message)) => message,
        _ => panic!("no failure"),
    };
    assert_eq!(text(PingError::InvalidAddress), "Invalid address: x y");
    assert_eq!(text(PingError::Status("timed out".to_string())), "x y: timed out");
    assert_eq!(text(PingError::Request("closed".to_string())), "Ping request failed: closed");
    assert_eq!(text(PingError::Pong("closed".to_string())), "Pong failed: closed");
    assert_eq!(PingError::InvalidAddress.message(&address), "Invalid address: x y");
}

#[test]
fn only_the_latest_round_of_pings_counts() {
    let mut results = PingResults::new();
    let addresses = ping_all_servers(&list().servers, &mut results);
    assert_eq!(addresses, vec!["one.net", "two.net", "three.net"]);
    assert!(matches!(results.get("two.net"), Some(PingState::Pinging)));
    assert!(results.get("four.net").is_none());
    let failed = |why: &str| PingState::Failed(why.to_string());
    finish_ping(&mut results, "two.net".to_string(), failed("late"), 1, 2);
    assert!(matches!(results.get("two.net"), Some(PingState::Pinging)));
    finish_ping(&mut results, "two.net".to_string(), failed("now"), 2, 2);
    assert!(matches!(results.get("two.net"), Some(PingState::Failed(why)) if why == "now"));
}

fn friend(name: &str, id: &str) -> Friend {
    Friend { profile_id: id.to_string(), name: name.to_string() }
}

fn presence(id: &str, status: &str) -> PresenceEntry {
    PresenceEntry { profile_id: id.to_string(), status: status.to_string() }
}

#[test]
fn words_of_the_service_stand_for_a_status() {
    let status = |word: &str| presence_status(&word.to_string());
    assert_eq!(status("ONLINE"), FriendStatus::Online);
    assert_eq!(status("PLAYING_OFFLINE"), FriendStatus::PlayingOffline);
    assert_eq!(status("PLAYING_REALMS"), FriendStatus::PlayingServer);
    assert_eq!(status("AWAY"), FriendStatus::Offline);
    assert!(FriendStatus::PlayingServer.is_online());
    assert!(!FriendStatus::Offline.is_online());
    assert_eq!(status("PLAYING_SERVER"), FriendStatus::PlayingServer);
    assert_eq!(status_label(&FriendStatus::Online), ("Online", true));
    assert_eq!(status_label(&FriendStatus::PlayingOffline), ("Playing offline", true));
    assert_eq!(status_label(&FriendStatus::PlayingServer), ("Playing on a server", true));
    assert_eq!(status_label(&FriendStatus::Offline), ("Offline", false));
}

#[test]
fn online_friends_come_first_then_the_names() {
    let list = FriendsList {
        friends: vec![
            friend("Zoe", "11"),
            friend("adam", "22"),
            friend("Bea", "33"),
            friend("Carl", "44"),
        ],
        incoming_requests: vec![friend("Dan", "55")],
        outgoing_requests: vec![],
    };
    let entries = vec![presence("1-1", "ONLINE"), presence("4-4", "PLAYING_SERVER")];
    let lists = fetch(&list, &Some(entries));
    let shown: Vec<&str> = lists.friends.iter().map(|f| f.name.as_str()).collect();
    assert_eq!(shown, vec!["Carl", "Zoe", "adam", "Bea"]);
    assert_eq!(lists.friends[0].status, FriendStatus::PlayingServer);
    assert_eq!(lists.incoming[0].name, "Dan");
    assert!(lists.outgoing.is_empty());
    let unknown = fetch(&list, &None);
    assert!(unknown.friends.iter().all(|f| f.status == FriendStatus::Offline));
    assert_eq!(display_order(&unknown.friends), vec![0, 1, 2, 3]);
    assert_eq!(without_dashes(&"a-b-".to_string()), "ab");
    assert_eq!(request_view(&friend("Eve", "66")).uuid, "66");
}

#[test]
fn changes_to_friends_become_requests() {
    let (request, by_name) = action_request(&FriendAction::AddByName("Steve".to_string()));
    assert!(by_name);
    assert_eq!(request.name.as_deref(), Some("Steve"));
    assert!(request.profile_id.is_none());
    assert_eq!(request.update_type, UpdateType::Add.as_str());
    let (request, by_name) =
        action_request(&FriendAction::ById("77".to_string(), UpdateType::Remove));
    assert!(!by_name);
    assert_eq!(request.profile_id.as_deref(), Some("77"));
    assert_eq!(request.update_type, "REMOVE");
}

#[test]
fn answers_of_the_service_are_explained() {
    let told = |status, by_name| check_status(status, by_name).err();
    assert_eq!(told(204, false), None);
    assert_eq!(told(400, true).unwrap(), "Unknown player name");
    assert_eq!(told(400, false).unwrap(), "Friends service returned HTTP 400");
    assert_eq!(told(401, false).unwrap(), "Session expired \u{2014} sign in again");
    assert_eq!(told(403, false).unwrap(), "Account has no active Java profile");
    assert_eq!(told(429, false).unwrap(), "Rate limited \u{2014} try again shortly");
    assert_eq!(told(503, false).unwrap(), "Friends service unavailable, try again later");
    assert_eq!(told(302, false).unwrap(), "Friends service returned HTTP 302");
}

fn row(name: &str, uuid: &str) -> FriendView {
    FriendView { name: name.to_string(), uuid: uuid.to_string(), status: FriendStatus::Offline }
}

fn lists() -> FriendLists {
    FriendLists {
        friends: vec![row("a", "1"), row("b", "2")],
        incoming: vec![row("c", "3")],
        outgoing: vec![row("d", "1")],
    }
}

#[test]
fn friends_are_fetched_and_failures_told() {
    let mut state = FriendsState::Idle;
    refresh_friends(&mut state);
    assert!(matches!(state, FriendsState::Loading));
    finish_refresh(&mut state, Ok(lists()));
    assert!(matches!(&state, FriendsState::Loaded(l) if l.friends.len() == 2));
    refresh_friends(&mut state);
    finish_refresh(&mut state, Err("no route".to_string()));
    assert!(matches!(&state, FriendsState::Failed(why) if why == "no route"));
    let mut error = Some("old".to_string());
    friend_action(&mut error);
    assert_eq!(error, None);
    assert!(finish_action(&mut error, Ok(())));
    assert!(!finish_action(&mut error, Err("refused".to_string())));
    assert_eq!(error.as_deref(), Some("refused"));
}

#[test]
fn unknown_faces_are_fetched() {
    let wanted = faces_to_fetch(&lists(), &vec!["2".to_string()]);
    assert_eq!(wanted, vec!["1", "3", "1"]);
    assert!(faces_to_fetch(&lists(), &vec!["1".to_string(), "2".to_string(), "3".to_string()])
        .is_empty());
}

#[test]
fn texts_are_compared_and_searched() {
    assert_eq!(text_chars("aé"), vec!['a', 'é']);
    assert!(starts_with("PLAYING_X", "PLAYING"));
    assert!(!starts_with("PLAY", "PLAYING"));
    assert!(text_contains("resource", "our"));
    assert!(text_contains("x", ""));
    assert!(!text_contains("", "x"));
    assert!(comes_before(&vec!['a'], &vec!['a', 'a']));
    assert!(!comes_before(&vec!['b'], &vec!['a', 'a']));
    assert_eq!(decimal_text(u64::MAX), "18446744073709551615");
    assert_eq!(signed_text(-40), "-40");
    assert_eq!(signed_text(0), "0");
}
