//! What holds of the friends screen: whom a click changes, and what changes
//! nobody.

use crate::friends::{FriendChange, FriendLists, FriendsState, UpdateType};
use crate::menu::friends_screen::{
    body_done, friends_frame, friends_left, friends_opened, removal_asked, requests_done, tabs_done,
    FriendHits, RequestButton, RequestHit,
};
use crate::menu::main_screen::transition_done;
use crate::menu::state::{nothing, EffectView, FriendTab, MenuInput, MenuModel, Screen, Step};
use crate::text::trimmed;
use vstd::prelude::*;

verus! {

/// Whether the screen is as it is most of the time: no question is open, nothing of
/// the theme is changing, and the keys that leave or fetch are not pressed.
pub open spec fn is_quiet(menu: MenuModel, input: MenuInput) -> bool {
    &&& menu.pending_remove is None
    &&& menu.transition is None
    &&& !input.escape
    &&& !input.f5
    &&& !input.enter
    &&& !input.tab
}

/// Whether the cursor is over nothing that changes the tab or sends a name.
pub open spec fn is_over_rows(hits: FriendHits) -> bool {
    hits.inside && !hits.friends_tab && !hits.requests_tab && !hits.field && !hits.send
        && !hits.own_name && !hits.popup_remove && !hits.popup_cancel
}

/// A button of a request acts on the player of its own row: Accept adds the one who
/// asked, Decline turns them down, Cancel takes back the player's own request.
pub proof fn request_buttons_act_on_their_row(
    menu: MenuModel,
    input: MenuInput,
    lists: FriendLists,
    hits: FriendHits,
    hit: RequestHit,
    now: u64,
)
    requires
        is_quiet(menu, input),
        menu.friend_tab == FriendTab::Requests,
        menu.signed_in,
        input.clicked,
        is_over_rows(hits),
        hits.requests@ == seq![hit],
    ensures
        ({
            let s = friends_frame(menu, input, FriendsState::Loaded(lists), hits, now);
            &&& match hit.button {
                RequestButton::Accept => hit.row < lists.incoming@.len() ==> s.out.effects == seq![
                    EffectView::ChangeFriend(
                        FriendChange::ById(lists.incoming@[hit.row as int].uuid@, UpdateType::Add),
                    ),
                ],
                RequestButton::Decline => hit.row < lists.incoming@.len() ==> s.out.effects == seq![
                    EffectView::ChangeFriend(
                        FriendChange::ById(
                            lists.incoming@[hit.row as int].uuid@,
                            UpdateType::Remove,
                        ),
                    ),
                ],
                RequestButton::Cancel => hit.row < lists.outgoing@.len() ==> s.out.effects == seq![
                    EffectView::ChangeFriend(
                        FriendChange::ById(
                            lists.outgoing@[hit.row as int].uuid@,
                            UpdateType::Remove,
                        ),
                    ),
                ],
            }
            &&& s.menu == menu
        }),
{
    reveal_with_fuel(requests_done, 2);
    assert(hits.requests@[0] == hit);
}

/// A name that is sent is asked for without the white space around it, and its
/// field is emptied; a name of white space is not sent.
pub proof fn a_name_is_sent_without_white_space(
    menu: MenuModel,
    input: MenuInput,
    lists: FriendLists,
    hits: FriendHits,
    now: u64,
)
    requires
        is_quiet(menu, input),
        menu.friend_tab == FriendTab::Friends,
        menu.screen == Screen::Friends,
        menu.signed_in,
        input.clicked,
        hits.inside,
        !hits.friends_tab,
        !hits.requests_tab,
        !hits.field,
        hits.send,
        !hits.own_name,
        !hits.popup_remove,
        !hits.popup_cancel,
        hits.remove@.len() == 0,
    ensures
        ({
            let s = friends_frame(menu, input, FriendsState::Loaded(lists), hits, now);
            let name = trimmed(menu.add_friend_name);
            if name.len() > 0 {
                s.out.effects == seq![EffectView::ChangeFriend(FriendChange::AddByName(name))]
                    && s.menu.add_friend_name.len() == 0
            } else {
                s.out.effects.len() == 0 && s.menu.add_friend_name == menu.add_friend_name
            }
        }),
{
}

/// A click on the remove button of a friend asks about that friend, and removes
/// nobody yet.
pub proof fn removal_is_asked_about_first(
    menu: MenuModel,
    input: MenuInput,
    lists: FriendLists,
    hits: FriendHits,
    row: usize,
    now: u64,
)
    requires
        is_quiet(menu, input),
        menu.friend_tab == FriendTab::Friends,
        menu.screen == Screen::Friends,
        input.clicked,
        is_over_rows(hits),
        hits.remove@ == seq![row],
        row < lists.friends@.len(),
    ensures
        ({
            let s = friends_frame(menu, input, FriendsState::Loaded(lists), hits, now);
            &&& s.menu.pending_remove == Some(
                (lists.friends@[row as int].uuid@, lists.friends@[row as int].name@),
            )
            &&& s.out.effects.len() == 0
            &&& s.menu.screen == menu.screen
        }),
{
    reveal_with_fuel(removal_asked, 2);
    assert(hits.remove@[0] == row);
}

/// While the question is open, its Remove removes the friend it is about, and
/// nobody else; Cancel and the escape key remove nobody. All three close it.
pub proof fn the_question_is_about_one_friend(
    menu: MenuModel,
    input: MenuInput,
    state: FriendsState,
    hits: FriendHits,
    now: u64,
    uuid: Seq<char>,
    name: Seq<char>,
)
    requires
        menu.pending_remove == Some((uuid, name)),
        menu.friend_tab == FriendTab::Requests,
        menu.transition is None,
        menu.signed_in,
        !input.f5,
    ensures
        ({
            let s = friends_frame(menu, input, state, hits, now);
            &&& s.menu.screen == menu.screen || (input.escape && menu.fields.focused is None)
            &&& if input.escape {
                s.out.effects.len() == 0 && s.menu.pending_remove is None
            } else if input.clicked && hits.popup_remove {
                s.out.effects == seq![
                    EffectView::ChangeFriend(FriendChange::ById(uuid, UpdateType::Remove)),
                ] && s.menu.pending_remove is None
            } else if input.clicked && hits.popup_cancel {
                s.out.effects.len() == 0 && s.menu.pending_remove is None
            } else {
                s.out.effects.len() == 0 && s.menu == menu
            }
        }),
{
}

/// Whether nothing is asked of the friends service.
pub open spec fn asks_nothing(effects: Seq<EffectView>) -> bool {
    forall|i: int|
        0 <= i < effects.len() ==> !((#[trigger] effects[i]) is ChangeFriend) && !(
        effects[i] is RefreshFriends)
}

/// Without an account nothing is asked of the friends service, whatever is clicked.
pub proof fn without_an_account_nothing_is_asked(
    menu: MenuModel,
    input: MenuInput,
    state: FriendsState,
    hits: FriendHits,
    now: u64,
)
    requires
        !menu.signed_in,
    ensures
        asks_nothing(friends_frame(menu, input, state, hits, now).out.effects),
{
    let m1 = if menu.friend_tab == FriendTab::Friends {
        MenuModel { fields: menu.fields.handled(menu.screen, input, 1, now), ..menu }
    } else {
        menu
    };
    let (m2, ended) = friends_left(m1, input, hits.inside, now);
    assert(m2.signed_in == menu.signed_in);
    if !ended {
        let open = m1.pending_remove is Some;
        let s = Step { menu: m2, out: nothing(1) };
        let s2 = Step { menu: transition_done(s, now).menu, ..s };
        assert(!s2.menu.signed_in);
        assert(s.refreshing() == s);
        lemma_tabs_ask_nothing(s2, hits, input.clicked && !open);
        let s3 = tabs_done(s2, hits, input.clicked && !open);
        lemma_body_asks_nothing(s3, state, hits, input, open, now);
    }
}

proof fn lemma_tabs_ask_nothing(s: Step, hits: FriendHits, clicked: bool)
    requires
        asks_nothing(s.out.effects),
    ensures
        asks_nothing(tabs_done(s, hits, clicked).out.effects),
        tabs_done(s, hits, clicked).menu.signed_in == s.menu.signed_in,
{
}

proof fn lemma_body_asks_nothing(
    s: Step,
    state: FriendsState,
    hits: FriendHits,
    input: MenuInput,
    popup_open: bool,
    now: u64,
)
    requires
        !s.menu.signed_in,
        asks_nothing(s.out.effects),
    ensures
        asks_nothing(body_done(s, state, hits, input, popup_open, now).out.effects),
{
    if let FriendsState::Loaded(lists) = state {
        lemma_no_requests(s, lists, hits.requests@, hits.requests@.len());
    }
}

proof fn lemma_no_requests(s: Step, lists: FriendLists, hits: Seq<RequestHit>, n: nat)
    requires
        !s.menu.signed_in,
    ensures
        requests_done(s, lists, hits, n) == s,
    decreases n,
{
    if n > 0 {
        lemma_no_requests(s, lists, hits, (n - 1) as nat);
    }
}

/// The friends screen opens with the friends, an empty name and no question, and
/// with an account the friends are fetched. A tab that is clicked is shown from its
/// start, and a click on the tab that is shown does nothing.
pub proof fn tabs_are_shown_from_their_start(
    menu: MenuModel,
    input: MenuInput,
    hits: FriendHits,
    now: u64,
)
    requires
        is_quiet(menu, input),
        input.clicked,
        hits.inside,
        hits.friends_tab != hits.requests_tab,
    ensures
        ({
            let opened = friends_opened(Step { menu, out: nothing(1) }, now);
            let s = friends_frame(menu, input, FriendsState::Loading, hits, now);
            let wanted = if hits.friends_tab {
                FriendTab::Friends
            } else {
                FriendTab::Requests
            };
            &&& opened.menu.screen == Screen::Friends
            &&& opened.menu.friend_tab == FriendTab::Friends
            &&& opened.menu.add_friend_name.len() == 0
            &&& opened.menu.pending_remove is None
            &&& opened.out.effects.contains(EffectView::RefreshFriends) == menu.signed_in
            &&& s.menu.friend_tab == wanted
            &&& menu.friend_tab != wanted ==> s.out.effects == seq![EffectView::ResetScroll]
                && s.menu.fields.focused is None
            &&& menu.friend_tab == wanted ==> s.out.effects.len() == 0
        }),
{
    let opened = friends_opened(Step { menu, out: nothing(1) }, now);
    if menu.signed_in {
        assert(opened.out.effects[2] == EffectView::RefreshFriends);
    } else {
        assert(opened.out.effects =~= seq![
            EffectView::ResetScroll,
            EffectView::ForgetFriendError,
        ]);
    }
}

/// The escape key takes the focus from the name first, and leaves the screen when
/// there is none to take; a click beside the panel leaves it too. F5 fetches the
/// friends.
pub proof fn the_friends_screen_is_left_in_steps(
    menu: MenuModel,
    input: MenuInput,
    hits: FriendHits,
    now: u64,
)
    requires
        menu.pending_remove is None,
        menu.transition is None,
        menu.friend_tab == FriendTab::Requests,
        menu.signed_in,
        !hits.friends_tab,
        !hits.requests_tab,
    ensures
        ({
            let s = friends_frame(menu, input, FriendsState::Loading, hits, now);
            let left = (input.escape && menu.fields.focused is None) || (input.clicked
                && !hits.inside);
            &&& left ==> s.menu.screen == Screen::Main && s.out.effects.len() == 0
            &&& !left ==> s.menu.screen == menu.screen
            &&& !left && input.escape ==> s.menu.fields.focused is None
            &&& !left && input.f5 ==> s.out.effects == seq![EffectView::RefreshFriends]
            &&& !left && !input.f5 ==> s.out.effects.len() == 0
        }),
{
}

/// A click on the player's own name copies it.
pub proof fn the_own_name_is_copied(
    menu: MenuModel,
    input: MenuInput,
    lists: FriendLists,
    hits: FriendHits,
    now: u64,
)
    requires
        is_quiet(menu, input),
        menu.friend_tab == FriendTab::Friends,
        menu.screen == Screen::Friends,
        input.clicked,
        hits.inside,
        hits.own_name,
        !hits.friends_tab,
        !hits.requests_tab,
        !hits.field,
        !hits.send,
        !hits.popup_remove,
        !hits.popup_cancel,
        hits.remove@.len() == 0,
    ensures
        friends_frame(menu, input, FriendsState::Loaded(lists), hits, now).out.effects == seq![
            EffectView::CopyText(menu.username),
        ],
{
}

/// The enter key sends the name while its field has the focus, and not otherwise; a
/// click into the field gives it the focus.
pub proof fn the_enter_key_sends_the_name(
    menu: MenuModel,
    input: MenuInput,
    lists: FriendLists,
    hits: FriendHits,
    now: u64,
)
    requires
        menu.pending_remove is None,
        menu.transition is None,
        !input.escape,
        !input.f5,
        !input.tab,
        input.enter,
        menu.friend_tab == FriendTab::Friends,
        menu.screen == Screen::Friends,
        menu.signed_in,
        hits.inside,
        !hits.friends_tab,
        !hits.requests_tab,
        !hits.send,
        !hits.own_name,
        !hits.popup_remove,
        !hits.popup_cancel,
        hits.remove@.len() == 0,
    ensures
        ({
            let s = friends_frame(menu, input, FriendsState::Loaded(lists), hits, now);
            let name = trimmed(menu.add_friend_name);
            let focused = (input.clicked && hits.field) || menu.fields.focused == Some(0u8);
            &&& focused && name.len() > 0 ==> s.out.effects == seq![
                EffectView::ChangeFriend(FriendChange::AddByName(name)),
            ] && s.menu.add_friend_name.len() == 0
            &&& !focused || name.len() == 0 ==> s.out.effects.len() == 0 && s.menu.add_friend_name
                == menu.add_friend_name
            &&& input.clicked && hits.field ==> s.menu.fields.focused == Some(0u8)
        }),
{
}

} // verus!
