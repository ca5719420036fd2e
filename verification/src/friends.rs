//! A player's friends: their presence, their order, and what the friends
//! service answers.

use crate::strings::{
    comes_before, decimal, decimal_text, has_prefix, lex_less, lex_order_is_total,
    lex_order_is_transitive, lowered, same_text, starts_with, text_chars, to_lowercase,
};
use vstd::prelude::*;

verus! {

/// Whether a friend is online, and how.
#[derive(Clone, Copy, Debug, PartialEq, Eq, Structural)]
pub enum FriendStatus {
    Offline,
    Online,
    PlayingOffline,
    PlayingServer,
}

impl FriendStatus {
    pub open spec fn spec_is_online(&self) -> bool {
        self !is Offline
    }

    /// Whether a friend is online in any way.
    pub fn is_online(&self) -> (online: bool)
        ensures
            online == self.spec_is_online(),
    {
        match self {
            FriendStatus::Offline => false,
            _ => true,
        }
    }
}

/// A friend or a request, ready to be shown.
pub struct FriendView {
    pub name: String,
    pub uuid: String,
    pub status: FriendStatus,
}

/// A friend or a request, as values.
pub struct FriendRow {
    pub name: Seq<char>,
    pub uuid: Seq<char>,
    pub status: FriendStatus,
}

impl View for FriendView {
    type V = FriendRow;

    open spec fn view(&self) -> FriendRow {
        FriendRow { name: self.name@, uuid: self.uuid@, status: self.status }
    }
}

/// The views of some rows.
pub open spec fn friend_rows(views: Seq<FriendView>) -> Seq<FriendRow> {
    Seq::new(views.len(), |i: int| views[i]@)
}

/// A player's friends, and the requests to and from the player.
pub struct FriendLists {
    pub friends: Vec<FriendView>,
    pub incoming: Vec<FriendView>,
    pub outgoing: Vec<FriendView>,
}

/// What is known of a player's friends.
pub enum FriendsState {
    /// Never fetched.
    Idle,
    Loading,
    Loaded(FriendLists),
    Failed(String),
}

/// What a request does to a friendship.
#[derive(Clone, Copy, Debug, PartialEq, Eq, Structural)]
pub enum UpdateType {
    Add,
    Remove,
}

impl UpdateType {
    /// The service's word for it.
    pub open spec fn word(self) -> Seq<char> {
        match self {
            UpdateType::Add => "ADD"@,
            UpdateType::Remove => "REMOVE"@,
        }
    }

    /// The service's word for it.
    pub fn as_str(self) -> (word: &'static str)
        ensures
            word@ == self.word(),
    {
        match self {
            UpdateType::Add => "ADD",
            UpdateType::Remove => "REMOVE",
        }
    }
}

/// A change that the player asks for.
pub enum FriendAction {
    AddByName(String),
    ById(String, UpdateType),
}

/// A change that the player asks for, as values.
pub enum FriendChange {
    AddByName(Seq<char>),
    ById(Seq<char>, UpdateType),
}

impl View for FriendAction {
    type V = FriendChange;

    open spec fn view(&self) -> FriendChange {
        match self {
            FriendAction::AddByName(name) => FriendChange::AddByName(name@),
            FriendAction::ById(uuid, update) => FriendChange::ById(uuid@, *update),
        }
    }
}

/// The body of a change request; what is not given is left out of it.
pub struct FriendActionRequest {
    pub name: Option<String>,
    pub profile_id: Option<String>,
    pub update_type: &'static str,
}

/// The body of the request for a change, and whether the change names a player.
pub fn action_request(action: &FriendAction) -> (request: (FriendActionRequest, bool))
    ensures
        match action@ {
            FriendChange::AddByName(name) => {
                &&& request.1
                &&& request.0.name matches Some(n) && n@ == name
                &&& request.0.profile_id is None
                &&& request.0.update_type@ == UpdateType::Add.word()
            },
            FriendChange::ById(uuid, update) => {
                &&& !request.1
                &&& request.0.name is None
                &&& request.0.profile_id matches Some(id) && id@ == uuid
                &&& request.0.update_type@ == update.word()
            },
        },
{
    match action {
        FriendAction::AddByName(name) => (
            FriendActionRequest {
                name: Some(name.clone()),
                profile_id: None,
                update_type: UpdateType::Add.as_str(),
            },
            true,
        ),
        FriendAction::ById(uuid, update) => (
            FriendActionRequest {
                name: None,
                profile_id: Some(uuid.clone()),
                update_type: update.as_str(),
            },
            false,
        ),
    }
}

/// What an answer of the service that is no success is reported as.
pub open spec fn status_report(status: u16, by_name: bool) -> Seq<char> {
    if status == 400 && by_name {
        "Unknown player name"@
    } else if status == 401 {
        "Session expired — sign in again"@
    } else if status == 403 {
        "Account has no active Java profile"@
    } else if status == 429 {
        "Rate limited — try again shortly"@
    } else if status >= 500 {
        "Friends service unavailable, try again later"@
    } else {
        "Friends service returned HTTP "@ + decimal(status as nat)
    }
}

/// Checks the status code of an answer: a code from 200 to 299 is a success.
pub fn check_status(status: u16, by_name: bool) -> (checked: Result<(), String>)
    ensures
        checked is Ok <==> 200 <= status < 300,
        checked matches Err(message) ==> message@ == status_report(status, by_name),
{
    if 200 <= status && status < 300 {
        return Ok(());
    }
    Err(
        if status == 400 && by_name {
            "Unknown player name".to_owned()
        } else if status == 401 {
            "Session expired — sign in again".to_owned()
        } else if status == 403 {
            "Account has no active Java profile".to_owned()
        } else if status == 429 {
            "Rate limited — try again shortly".to_owned()
        } else if status >= 500 {
            "Friends service unavailable, try again later".to_owned()
        } else {
            "Friends service returned HTTP ".to_owned().concat(
                decimal_text(status as u64).as_str(),
            )
        },
    )
}

/// A player of one of the service's lists.
pub struct Friend {
    pub profile_id: String,
    pub name: String,
}

/// The service's lists.
pub struct FriendsList {
    pub friends: Vec<Friend>,
    pub incoming_requests: Vec<Friend>,
    pub outgoing_requests: Vec<Friend>,
}

/// A friend's presence, as the service gives it.
pub struct PresenceEntry {
    pub profile_id: String,
    pub status: String,
}

/// The status that the service's word for it stands for.
pub open spec fn status_of(word: Seq<char>) -> FriendStatus {
    if word == "ONLINE"@ {
        FriendStatus::Online
    } else if word == "PLAYING_OFFLINE"@ {
        FriendStatus::PlayingOffline
    } else if has_prefix(word, "PLAYING"@) {
        FriendStatus::PlayingServer
    } else {
        FriendStatus::Offline
    }
}

/// The status that the service's word for it stands for.
pub fn presence_status(word: &String) -> (status: FriendStatus)
    ensures
        status == status_of(word@),
{
    if same_text(word.as_str(), "ONLINE") {
        FriendStatus::Online
    } else if same_text(word.as_str(), "PLAYING_OFFLINE") {
        FriendStatus::PlayingOffline
    } else if starts_with(word.as_str(), "PLAYING") {
        FriendStatus::PlayingServer
    } else {
        FriendStatus::Offline
    }
}

/// An identifier without its dashes.
pub open spec fn undashed(id: Seq<char>) -> Seq<char>
    decreases id.len(),
{
    if id.len() == 0 {
        Seq::empty()
    } else if id.last() == '-' {
        undashed(id.drop_last())
    } else {
        undashed(id.drop_last()).push(id.last())
    }
}

/// An identifier without its dashes.
pub fn without_dashes(id: &String) -> (plain: String)
    ensures
        plain@ == undashed(id@),
{
    let chars = text_chars(id.as_str());
    let mut plain = String::new();
    let mut i: usize = 0;
    assert(chars@.take(0) =~= Seq::<char>::empty());
    while i < chars.len()
        invariant
            i <= chars@.len(),
            chars@ == id@,
            plain@ == undashed(chars@.take(i as int)),
        decreases chars@.len() - i,
    {
        assert(chars@.take(i + 1).drop_last() =~= chars@.take(i as int));
        if chars[i] != '-' {
            plain.push(chars[i]);
        }
        i = i + 1;
    }
    assert(chars@.take(i as int) =~= chars@);
    plain
}

/// The presence that the last of the first `n` entries for `uuid` gives, if
/// there is one. The entries' identifiers hold dashes.
pub open spec fn presence_of(entries: Seq<PresenceEntry>, uuid: Seq<char>, n: nat) -> FriendStatus
    decreases n,
{
    if n == 0 {
        FriendStatus::Offline
    } else if undashed(entries[n - 1].profile_id@) == uuid {
        status_of(entries[n - 1].status@)
    } else {
        presence_of(entries, uuid, (n - 1) as nat)
    }
}

fn find_presence(entries: &Vec<PresenceEntry>, uuid: &String) -> (status: FriendStatus)
    ensures
        status == presence_of(entries@, uuid@, entries@.len()),
{
    let mut i: usize = entries.len();
    while i > 0
        invariant
            i <= entries@.len(),
            presence_of(entries@, uuid@, entries@.len()) == presence_of(
                entries@,
                uuid@,
                i as nat,
            ),
        decreases i,
    {
        i = i - 1;
        if same_text(without_dashes(&entries[i].profile_id).as_str(), uuid.as_str()) {
            return presence_status(&entries[i].status);
        }
    }
    FriendStatus::Offline
}

/// A friend as a row, with the presence that some entries give.
pub open spec fn friend_row(friend: Friend, entries: Seq<PresenceEntry>) -> FriendRow {
    FriendRow {
        name: friend.name@,
        uuid: friend.profile_id@,
        status: presence_of(entries, friend.profile_id@, entries.len()),
    }
}

/// A request as a row. Requests carry no presence.
pub open spec fn request_row(friend: Friend) -> FriendRow {
    FriendRow { name: friend.name@, uuid: friend.profile_id@, status: FriendStatus::Offline }
}

/// A request as a row.
pub fn request_view(friend: &Friend) -> (row: FriendView)
    ensures
        row@ == request_row(*friend),
{
    FriendView {
        name: friend.name.clone(),
        uuid: friend.profile_id.clone(),
        status: FriendStatus::Offline,
    }
}

fn request_views(requests: &Vec<Friend>) -> (rows: Vec<FriendView>)
    ensures
        rows@.len() == requests@.len(),
        forall|i: int|
            0 <= i < rows@.len() ==> (#[trigger] rows@[i])@ == request_row(requests@[i]),
{
    let mut rows: Vec<FriendView> = Vec::new();
    let mut i: usize = 0;
    while i < requests.len()
        invariant
            i <= requests@.len(),
            rows@.len() == i,
            forall|k: int| 0 <= k < i ==> (#[trigger] rows@[k])@ == request_row(requests@[k]),
        decreases requests@.len() - i,
    {
        rows.push(request_view(&requests[i]));
        i = i + 1;
    }
    rows
}

/// Whether row `a` of some rows is shown before row `b`: online friends come
/// first, then the order of the names without regard to case decides, and among
/// equals the order in which they were given.
pub open spec fn shown_before(rows: Seq<FriendRow>, a: int, b: int) -> bool {
    let (x, y) = (rows[a], rows[b]);
    if x.status.spec_is_online() != y.status.spec_is_online() {
        x.status.spec_is_online()
    } else if lowered(x.name) != lowered(y.name) {
        lex_less(lowered(x.name), lowered(y.name))
    } else {
        a < b
    }
}

/// Whether `order` holds each place of some rows once, in the order in which
/// they are shown.
pub open spec fn is_order(rows: Seq<FriendRow>, order: Seq<usize>) -> bool {
    &&& order.len() == rows.len()
    &&& forall|i: int| 0 <= i < order.len() ==> (#[trigger] order[i]) < rows.len()
    &&& forall|i: int, j: int|
        0 <= i < j < order.len() ==> shown_before(
            rows,
            #[trigger] order[i] as int,
            #[trigger] order[j] as int,
        )
}

proof fn lemma_shown_before_transitive(rows: Seq<FriendRow>, a: int, b: int, c: int)
    requires
        shown_before(rows, a, b),
        shown_before(rows, b, c),
    ensures
        shown_before(rows, a, c),
{
    let (x, y, z) = (lowered(rows[a].name), lowered(rows[b].name), lowered(rows[c].name));
    if x != y && y != z && lex_less(x, y) && lex_less(y, z) {
        lex_order_is_transitive(x, y, z);
        lex_order_is_total(x, z);
    }
}

proof fn lemma_shown_before_total(rows: Seq<FriendRow>, a: int, b: int)
    requires
        a != b,
    ensures
        shown_before(rows, a, b) <==> !shown_before(rows, b, a),
{
    lex_order_is_total(lowered(rows[a].name), lowered(rows[b].name));
}

/// The order in which some rows are shown.
pub fn display_order(rows: &Vec<FriendView>) -> (order: Vec<usize>)
    ensures
        is_order(friend_rows(rows@), order@),
{
    let ghost views = friend_rows(rows@);
    let mut names: Vec<Vec<char>> = Vec::new();
    let mut i: usize = 0;
    while i < rows.len()
        invariant
            i <= rows@.len(),
            views == friend_rows(rows@),
            names@.len() == i,
            forall|k: int| 0 <= k < i ==> (#[trigger] names@[k])@ == lowered(views[k].name),
        decreases rows@.len() - i,
    {
        let lower = to_lowercase(rows[i].name.as_str());
        names.push(text_chars(lower.as_str()));
        i = i + 1;
    }
    let mut order: Vec<usize> = Vec::new();
    let mut next: usize = 0;
    while next < rows.len()
        invariant
            next <= rows@.len(),
            views == friend_rows(rows@),
            names@.len() == rows@.len(),
            forall|k: int|
                0 <= k < rows@.len() ==> (#[trigger] names@[k])@ == lowered(views[k].name),
            order@.len() == next,
            forall|k: int| 0 <= k < next ==> (#[trigger] order@[k]) < next,
            forall|a: int, b: int|
                0 <= a < b < next ==> shown_before(
                    views,
                    #[trigger] order@[a] as int,
                    #[trigger] order@[b] as int,
                ),
        decreases rows@.len() - next,
    {
        let mut at: usize = order.len();
        let ghost old_order = order@;
        while at > 0 && row_before(rows, &names, next, order[at - 1])
            invariant
                next < rows@.len(),
                views == friend_rows(rows@),
                names@.len() == rows@.len(),
                forall|k: int|
                    0 <= k < rows@.len() ==> (#[trigger] names@[k])@ == lowered(views[k].name),
                order@ == old_order,
                old_order.len() == next,
                forall|k: int| 0 <= k < next ==> (#[trigger] old_order[k]) < next,
                at <= next,
                forall|k: int|
                    at <= k < next ==> shown_before(
                        views,
                        next as int,
                        #[trigger] old_order[k] as int,
                    ),
            decreases at,
        {
            at = at - 1;
        }
        order.insert(at, next);
        proof {
            assert(order@ =~= old_order.insert(at as int, next));
            assert forall|k: int| 0 <= k < at implies shown_before(
                views,
                #[trigger] old_order[k] as int,
                next as int,
            ) by {
                let last = old_order[at - 1] as int;
                lemma_shown_before_total(views, next as int, last);
                if k < at - 1 {
                    assert(shown_before(views, old_order[k] as int, last));
                    lemma_shown_before_transitive(views, old_order[k] as int, last, next as int);
                }
            }
            assert forall|a: int, b: int| 0 <= a < b < next + 1 implies shown_before(
                views,
                #[trigger] order@[a] as int,
                #[trigger] order@[b] as int,
            ) by {
                if a == at {
                    assert(order@[b] == old_order[b - 1]);
                } else if b == at {
                    assert(order@[a] == old_order[a]);
                } else {
                    let (p, q) = (
                        if a < at { a } else { a - 1 },
                        if b < at { b } else { b - 1 },
                    );
                    assert(order@[a] == old_order[p] && order@[b] == old_order[q]);
                    assert(shown_before(views, old_order[p] as int, old_order[q] as int));
                }
            }
        }
        next = next + 1;
    }
    order
}

/// Whether row `a` is shown before row `b`, given the names in lower case.
fn row_before(rows: &Vec<FriendView>, names: &Vec<Vec<char>>, a: usize, b: usize) -> (before: bool)
    requires
        a < rows@.len(),
        b < rows@.len(),
        names@.len() == rows@.len(),
        forall|k: int|
            0 <= k < rows@.len() ==> (#[trigger] names@[k])@ == lowered(
                friend_rows(rows@)[k].name,
            ),
    ensures
        before == shown_before(friend_rows(rows@), a as int, b as int),
{
    let ghost views = friend_rows(rows@);
    assert(views[a as int].status == rows@[a as int].status);
    assert(views[b as int].status == rows@[b as int].status);
    let (x, y): (bool, bool) = (rows[a].status.is_online(), rows[b].status.is_online());
    proof {
        lex_order_is_total(names@[a as int]@, names@[b as int]@);
        lex_order_is_total(names@[b as int]@, names@[a as int]@);
    }
    if x != y {
        x
    } else if comes_before(&names[a], &names[b]) {
        true
    } else if comes_before(&names[b], &names[a]) {
        false
    } else {
        a < b
    }
}

/// Whether `lists` are the lists to show for the service's answers: the friends
/// with their presence, in the order in which they are shown, and the requests
/// as they came.
pub open spec fn are_lists(
    list: FriendsList,
    presence: Seq<PresenceEntry>,
    lists: FriendLists,
) -> bool {
    let given = Seq::new(list.friends@.len(), |i: int| friend_row(list.friends@[i], presence));
    &&& exists|order: Seq<usize>| #[trigger]
        is_order(given, order) && friend_rows(lists.friends@) == Seq::new(
            order.len(),
            |i: int| given[order[i] as int],
        )
    &&& friend_rows(lists.incoming@) == Seq::new(
        list.incoming_requests@.len(),
        |i: int| request_row(list.incoming_requests@[i]),
    )
    &&& friend_rows(lists.outgoing@) == Seq::new(
        list.outgoing_requests@.len(),
        |i: int| request_row(list.outgoing_requests@[i]),
    )
}

/// The lists to show for the service's answers. Without a presence answer
/// everyone is offline.
pub fn fetch(list: &FriendsList, presence: &Option<Vec<PresenceEntry>>) -> (lists: FriendLists)
    ensures
        are_lists(
            *list,
            match presence {
                Some(entries) => entries@,
                None => Seq::empty(),
            },
            lists,
        ),
{
    let ghost entries: Seq<PresenceEntry> = match presence {
        Some(e) => e@,
        None => Seq::empty(),
    };
    let ghost given = Seq::new(
        list.friends@.len(),
        |i: int| friend_row(list.friends@[i], entries),
    );
    let mut rows: Vec<FriendView> = Vec::new();
    let mut i: usize = 0;
    while i < list.friends.len()
        invariant
            i <= list.friends@.len(),
            given == Seq::new(
                list.friends@.len(),
                |i: int| friend_row(list.friends@[i], entries),
            ),
            entries == (match presence {
                Some(e) => e@,
                None => Seq::empty(),
            }),
            rows@.len() == i,
            forall|k: int| 0 <= k < i ==> (#[trigger] rows@[k])@ == given[k],
        decreases list.friends@.len() - i,
    {
        let friend = &list.friends[i];
        let status = match presence {
            Some(e) => find_presence(e, &friend.profile_id),
            None => FriendStatus::Offline,
        };
        rows.push(
            FriendView { name: friend.name.clone(), uuid: friend.profile_id.clone(), status },
        );
        i = i + 1;
    }
    assert(friend_rows(rows@) =~= given);
    let order = display_order(&rows);
    let mut friends: Vec<FriendView> = Vec::new();
    let mut i: usize = 0;
    while i < order.len()
        invariant
            i <= order@.len(),
            is_order(given, order@),
            friend_rows(rows@) == given,
            friends@.len() == i,
            forall|k: int|
                0 <= k < i ==> (#[trigger] friends@[k])@ == given[order@[k] as int],
        decreases order@.len() - i,
    {
        assert(order@[i as int] < given.len());
        let row = &rows[order[i]];
        assert(friend_rows(rows@)[order@[i as int] as int] == row@);
        friends.push(
            FriendView { name: row.name.clone(), uuid: row.uuid.clone(), status: row.status },
        );
        i = i + 1;
    }
    let lists = FriendLists {
        friends,
        incoming: request_views(&list.incoming_requests),
        outgoing: request_views(&list.outgoing_requests),
    };
    proof {
        assert(friend_rows(lists.friends@) =~= Seq::new(
            order@.len(),
            |i: int| given[order@[i] as int],
        ));
        assert(friend_rows(lists.incoming@) =~= Seq::new(
            list.incoming_requests@.len(),
            |i: int| request_row(list.incoming_requests@[i]),
        ));
        assert(friend_rows(lists.outgoing@) =~= Seq::new(
            list.outgoing_requests@.len(),
            |i: int| request_row(list.outgoing_requests@[i]),
        ));
    }
    lists
}

/// In a shown order no offline friend stands before one who is online, no place
/// occurs twice, and none is missing.
pub proof fn online_friends_come_first(rows: Seq<FriendRow>, order: Seq<usize>, i: int, j: int)
    requires
        is_order(rows, order),
        0 <= i < j < order.len(),
    ensures
        rows[order[j] as int].status.spec_is_online()
            ==> rows[order[i] as int].status.spec_is_online(),
        order[i] != order[j],
{
    assert(shown_before(rows, order[i] as int, order[j] as int));
    lex_order_is_total(lowered(rows[order[i] as int].name), lowered(rows[order[i] as int].name));
}

/// There is only one order in which some rows are shown.
pub proof fn shown_order_is_unique(rows: Seq<FriendRow>, a: Seq<usize>, b: Seq<usize>)
    requires
        is_order(rows, a),
        is_order(rows, b),
    ensures
        a == b,
{
    assert forall|k: int| 0 <= k < rows.len() implies a[k] == b[k] by {
        lemma_rank(rows, a, k);
        lemma_rank(rows, b, k);
        lemma_rank_injective(rows, a, b, k);
    }
    assert(a =~= b);
}

/// The rows that are shown before row `r`.
spec fn earlier(rows: Seq<FriendRow>, r: int) -> Set<int> {
    set_range(rows.len()).filter(|x: int| x != r && shown_before(rows, x, r))
}

spec fn set_range(n: nat) -> Set<int> {
    vstd::set_lib::set_int_range(0, n as int)
}

/// The row at place `k` of a shown order has `k` rows before it.
proof fn lemma_rank(rows: Seq<FriendRow>, order: Seq<usize>, k: int)
    requires
        is_order(rows, order),
        0 <= k < rows.len(),
    ensures
        earlier(rows, order[k] as int).len() == k,
{
    let r = order[k] as int;
    lemma_order_covers(rows, order);
    let front = Seq::new(k as nat, |i: int| order[i] as int);
    assert(front.no_duplicates()) by {
        assert forall|i: int, j: int| 0 <= i < k && 0 <= j < k && i != j implies front[i]
            != front[j] by {
            if i < j {
                online_friends_come_first(rows, order, i, j);
            } else {
                online_friends_come_first(rows, order, j, i);
            }
        }
    }
    front.unique_seq_to_set();
    assert(front.to_set() =~= earlier(rows, r)) by {
        assert forall|x: int| front.to_set().contains(x) <==> earlier(rows, r).contains(x) by {
            if front.to_set().contains(x) {
                let i = choose|i: int| 0 <= i < front.len() && front[i] == x;
                assert(shown_before(rows, order[i] as int, order[k] as int));
                online_friends_come_first(rows, order, i, k);
            }
            if earlier(rows, r).contains(x) {
                assert(has_place(order, x));
                let i = choose|i: int| 0 <= i < order.len() && #[trigger] order[i] as int == x;
                if i > k {
                    assert(shown_before(rows, order[k] as int, order[i] as int));
                    lemma_shown_before_total(rows, x, r);
                }
                assert(i < k);
                assert(front[i] == x);
            }
        }
    }
}

/// Whether row `x` has a place in an order.
spec fn has_place(order: Seq<usize>, x: int) -> bool {
    exists|i: int| 0 <= i < order.len() && #[trigger] order[i] as int == x
}

/// Every row has a place in a shown order.
proof fn lemma_order_covers(rows: Seq<FriendRow>, order: Seq<usize>)
    requires
        is_order(rows, order),
    ensures
        forall|x: int| 0 <= x < rows.len() ==> #[trigger] has_place(order, x),
{
    let all = Seq::new(order.len(), |i: int| order[i] as int);
    assert(all.no_duplicates()) by {
        assert forall|i: int, j: int| 0 <= i < all.len() && 0 <= j < all.len() && i != j implies all[i]
            != all[j] by {
            if i < j {
                online_friends_come_first(rows, order, i, j);
            } else {
                online_friends_come_first(rows, order, j, i);
            }
        }
    }
    all.unique_seq_to_set();
    vstd::set_lib::lemma_int_range(0, rows.len() as int);
    assert(all.to_set().subset_of(set_range(rows.len()))) by {
        assert forall|x: int| all.to_set().contains(x) implies set_range(rows.len()).contains(x) by {
            let i = choose|i: int| 0 <= i < all.len() && all[i] == x;
            assert(order[i] < rows.len());
        }
    }
    vstd::set_lib::lemma_subset_equality(all.to_set(), set_range(rows.len()));
    assert forall|x: int| 0 <= x < rows.len() implies #[trigger] has_place(order, x) by {
        assert(all.to_set().contains(x));
        let i = choose|i: int| 0 <= i < all.len() && all[i] == x;
        assert(order[i] as int == x);
    }
}

/// Two rows with the same number of rows before them are the same row.
proof fn lemma_rank_injective(rows: Seq<FriendRow>, a: Seq<usize>, b: Seq<usize>, k: int)
    requires
        is_order(rows, a),
        is_order(rows, b),
        0 <= k < rows.len(),
        earlier(rows, a[k] as int).len() == k,
        earlier(rows, b[k] as int).len() == k,
    ensures
        a[k] == b[k],
{
    lemma_order_covers(rows, a);
    let r = b[k] as int;
    assert(b[k] < rows.len());
    assert(has_place(a, r));
    let i = choose|i: int| 0 <= i < a.len() && #[trigger] a[i] as int == r;
    lemma_rank(rows, a, i);
    assert(i == k);
}

/// Starts a fetch: what is known is loading.
pub fn refresh_friends(state: &mut FriendsState)
    ensures
        *final(state) == FriendsState::Loading,
{
    *state = FriendsState::Loading;
}

/// Ends a fetch with its outcome.
pub fn finish_refresh(state: &mut FriendsState, outcome: Result<FriendLists, String>)
    ensures
        *final(state) == (match outcome {
            Ok(lists) => FriendsState::Loaded(lists),
            Err(message) => FriendsState::Failed(message),
        }),
{
    *state = match outcome {
        Ok(lists) => FriendsState::Loaded(lists),
        Err(message) => FriendsState::Failed(message),
    };
}

/// Starts a change: the last error is forgotten.
pub fn friend_action(error: &mut Option<String>)
    ensures
        *final(error) is None,
{
    *error = None;
}

/// Ends a change with its outcome: a success is followed by a fetch, a failure
/// is kept to be shown. Returns whether to fetch.
pub fn finish_action(error: &mut Option<String>, outcome: Result<(), String>) -> (fetch: bool)
    ensures
        fetch == (outcome is Ok),
        match outcome {
            Ok(()) => *final(error) == *old(error),
            Err(message) => *final(error) == Some(message),
        },
{
    match outcome {
        Ok(()) => true,
        Err(message) => {
            *error = Some(message);
            false
        },
    }
}

/// Whether a face has to be fetched for `uuid`: not for an empty one, and not
/// for one whose face is known.
pub open spec fn face_wanted(uuid: Seq<char>, known: Seq<String>) -> bool {
    uuid.len() > 0 && forall|i: int| 0 <= i < known.len() ==> (#[trigger] known[i])@ != uuid
}

/// Those of the first `n` rows' identifiers whose faces have to be fetched.
pub open spec fn wanted_faces(rows: Seq<FriendRow>, known: Seq<String>, n: nat) -> Seq<Seq<char>>
    decreases n,
{
    if n == 0 {
        Seq::empty()
    } else if face_wanted(rows[n - 1].uuid, known) {
        wanted_faces(rows, known, (n - 1) as nat).push(rows[n - 1].uuid)
    } else {
        wanted_faces(rows, known, (n - 1) as nat)
    }
}

/// The views of some texts.
pub open spec fn text_views(texts: Seq<String>) -> Seq<Seq<char>> {
    Seq::new(texts.len(), |i: int| texts[i]@)
}

fn push_wanted_faces(wanted: &mut Vec<String>, rows: &Vec<FriendView>, known: &Vec<String>)
    ensures
        text_views(final(wanted)@) == text_views(old(wanted)@) + wanted_faces(
            friend_rows(rows@),
            known@,
            rows@.len(),
        ),
{
    let ghost before = text_views(wanted@);
    let ghost views = friend_rows(rows@);
    let mut i: usize = 0;
    assert(text_views(wanted@) =~= before + wanted_faces(views, known@, 0));
    while i < rows.len()
        invariant
            i <= rows@.len(),
            views == friend_rows(rows@),
            text_views(wanted@) == before + wanted_faces(views, known@, i as nat),
        decreases rows@.len() - i,
    {
        let uuid = &rows[i].uuid;
        let ghost held = wanted@;
        let mut want: bool = !uuid.as_str().is_empty();
        let mut k: usize = 0;
        while k < known.len()
            invariant
                k <= known@.len(),
                want == (uuid@.len() > 0 && forall|j: int|
                    0 <= j < k ==> (#[trigger] known@[j])@ != uuid@),
            decreases known@.len() - k,
        {
            if same_text(known[k].as_str(), uuid.as_str()) {
                want = false;
            }
            k = k + 1;
        }
        assert(views[i as int].uuid == uuid@);
        if want {
            let copy = uuid.clone();
            wanted.push(copy);
            assert(text_views(wanted@) =~= text_views(held).push(copy@));
            assert(text_views(wanted@) =~= before + wanted_faces(views, known@, (i + 1) as nat));
        }
        i = i + 1;
    }
}

/// The identifiers whose faces have to be fetched: of the friends, then of the
/// requests to the player, then of those by the player.
pub fn faces_to_fetch(lists: &FriendLists, known: &Vec<String>) -> (uuids: Vec<String>)
    ensures
        text_views(uuids@) == wanted_faces(
            friend_rows(lists.friends@),
            known@,
            lists.friends@.len(),
        ) + wanted_faces(friend_rows(lists.incoming@), known@, lists.incoming@.len())
            + wanted_faces(friend_rows(lists.outgoing@), known@, lists.outgoing@.len()),
{
    let mut uuids: Vec<String> = Vec::new();
    assert(text_views(uuids@) =~= Seq::<Seq<char>>::empty());
    push_wanted_faces(&mut uuids, &lists.friends, known);
    assert(text_views(uuids@) =~= wanted_faces(
        friend_rows(lists.friends@),
        known@,
        lists.friends@.len(),
    ));
    push_wanted_faces(&mut uuids, &lists.incoming, known);
    push_wanted_faces(&mut uuids, &lists.outgoing, known);
    uuids
}

/// What a friend's status is shown as, and whether in the colour of those who
/// are online.
pub open spec fn shown_status(status: FriendStatus) -> (Seq<char>, bool) {
    match status {
        FriendStatus::Online => ("Online"@, true),
        FriendStatus::PlayingOffline => ("Playing offline"@, true),
        FriendStatus::PlayingServer => ("Playing on a server"@, true),
        FriendStatus::Offline => ("Offline"@, false),
    }
}

/// What a friend's status is shown as, and whether in the colour of those who
/// are online.
pub fn status_label(status: &FriendStatus) -> (label: (&'static str, bool))
    ensures
        (label.0@, label.1) == shown_status(*status),
        label.1 == status.spec_is_online(),
{
    match status {
        FriendStatus::Online => ("Online", true),
        FriendStatus::PlayingOffline => ("Playing offline", true),
        FriendStatus::PlayingServer => ("Playing on a server", true),
        FriendStatus::Offline => ("Offline", false),
    }
}

} // verus!
