//! The friends screen.

use crate::friends::{
    friend_rows, FriendAction, FriendChange, FriendLists, FriendRow, FriendView, FriendsState,
    UpdateType,
};
use crate::menu::fields::FieldModel;
use crate::menu::main_screen::transition_done;
use crate::menu::state::{
    nothing, step_of, Effect, EffectView, FriendTab, MainMenu, MainMenuResult,
    MenuInput, MenuModel, Screen, Step,
};
use crate::text::{trimmed, trimmed_text};
use vstd::prelude::*;

verus! {

/// A button of a request's row.
#[derive(Clone, Copy, Debug, PartialEq, Eq, Structural)]
pub enum RequestButton {
    /// Accepts a request to the player.
    Accept,
    /// Declines a request to the player.
    Decline,
    /// Takes back a request by the player.
    Cancel,
}

/// A request's button that the cursor is over: the row among the requests to
/// the player, or by the player for the last kind of button.
#[derive(Clone, Copy, Debug, PartialEq, Eq, Structural)]
pub struct RequestHit {
    pub row: usize,
    pub button: RequestButton,
}

/// What the cursor is over on the friends screen.
pub struct FriendHits {
    /// Whether it is over the panel or its tabs.
    pub inside: bool,
    pub friends_tab: bool,
    pub requests_tab: bool,
    pub field: bool,
    pub send: bool,
    pub own_name: bool,
    /// The friends whose remove buttons it is over.
    pub remove: Vec<usize>,
    pub requests: Vec<RequestHit>,
    pub popup_remove: bool,
    pub popup_cancel: bool,
}

impl Step {
    /// With a change to a friendship asked for, if an account is signed in.
    pub open spec fn changing(self, change: FriendChange) -> Step {
        if self.menu.signed_in {
            self.doing(EffectView::ChangeFriend(change))
        } else {
            self
        }
    }

    /// With the friends fetched anew, if an account is signed in.
    pub open spec fn refreshing(self) -> Step {
        if self.menu.signed_in {
            self.doing(EffectView::RefreshFriends)
        } else {
            self
        }
    }
}

/// The frame with the friends screen opened.
pub open spec fn friends_opened(s: Step, now: u64) -> Step {
    let m = s.menu.entered(Screen::Friends, now);
    Step {
        menu: MenuModel {
            friend_tab: FriendTab::Friends,
            add_friend_name: Seq::empty(),
            pending_remove: None,
            ..m
        },
        ..s
    }.doing(EffectView::ResetScroll).doing(EffectView::ForgetFriendError).refreshing()
}

/// The frame after the tabs: a click on the other one shows it.
pub open spec fn tabs_done(s: Step, hits: FriendHits, clicked: bool) -> Step {
    let s1 = if hits.friends_tab && clicked && s.menu.friend_tab != FriendTab::Friends {
        tab_shown(s, FriendTab::Friends)
    } else {
        s
    };
    if hits.requests_tab && clicked && s1.menu.friend_tab != FriendTab::Requests {
        tab_shown(s1, FriendTab::Requests)
    } else {
        s1
    }
}

/// The frame with a tab shown from its start.
pub open spec fn tab_shown(s: Step, tab: FriendTab) -> Step {
    Step {
        menu: MenuModel {
            friend_tab: tab,
            fields: FieldModel { focused: None, ..s.menu.fields },
            ..s.menu
        },
        ..s
    }.doing(EffectView::ResetScroll)
}

/// The frame after the name of a new friend was sent: a name that is more than
/// white space is asked for, without the white space around it.
pub open spec fn name_sent(s: Step) -> Step {
    let name = trimmed(s.menu.add_friend_name);
    if name.len() > 0 {
        Step {
            menu: MenuModel { add_friend_name: Seq::empty(), ..s.menu },
            ..s
        }.changing(FriendChange::AddByName(name))
    } else {
        s
    }
}

/// The friend whose removal is to be confirmed after clicks on the remove
/// buttons of the first `n` rows that the cursor is over.
pub open spec fn removal_asked(
    pending: Option<(Seq<char>, Seq<char>)>,
    friends: Seq<FriendRow>,
    rows: Seq<usize>,
    n: nat,
) -> Option<(Seq<char>, Seq<char>)>
    decreases n,
{
    if n == 0 {
        pending
    } else if rows[n - 1] < friends.len() {
        let friend = friends[rows[n - 1] as int];
        Some((friend.uuid, friend.name))
    } else {
        removal_asked(pending, friends, rows, (n - 1) as nat)
    }
}

/// The frame after the field for a new friend's name and the button that sends
/// it. The enter key sends the name from its field.
pub open spec fn send_done(
    s: Step,
    hits: FriendHits,
    clicked: bool,
    enter: bool,
    now: u64,
) -> Step {
    let s1 = if clicked && hits.field {
        Step { menu: MenuModel { fields: s.menu.fields.field_clicked(0, now), ..s.menu }, ..s }
    } else {
        s
    };
    if (clicked && hits.send) || (s1.menu.fields.focused == Some(0u8) && enter) {
        name_sent(s1)
    } else {
        s1
    }
}

/// The frame after the friends tab. A click counts only while no question is
/// open; the enter key in any case.
pub open spec fn friends_body_done(
    s: Step,
    lists: FriendLists,
    hits: FriendHits,
    clicked: bool,
    enter: bool,
    now: u64,
) -> Step {
    let s2 = send_done(s, hits, clicked, enter, now);
    let s3 = if clicked && hits.own_name {
        s2.doing(EffectView::CopyText(s2.menu.username))
    } else {
        s2
    };
    if clicked {
        Step {
            menu: MenuModel {
                pending_remove: removal_asked(
                    s3.menu.pending_remove,
                    friend_rows(lists.friends@),
                    hits.remove@,
                    hits.remove@.len(),
                ),
                ..s3.menu
            },
            ..s3
        }
    } else {
        s3
    }
}

/// The change that a request's button asks for, if its row is there.
pub open spec fn request_change(lists: FriendLists, hit: RequestHit) -> Option<FriendChange> {
    let rows = if hit.button == RequestButton::Cancel {
        friend_rows(lists.outgoing@)
    } else {
        friend_rows(lists.incoming@)
    };
    if hit.row < rows.len() {
        Some(
            FriendChange::ById(
                rows[hit.row as int].uuid,
                if hit.button == RequestButton::Accept {
                    UpdateType::Add
                } else {
                    UpdateType::Remove
                },
            ),
        )
    } else {
        None
    }
}

/// The frame after clicks on the first `n` buttons of requests that the cursor
/// is over.
pub open spec fn requests_done(
    s: Step,
    lists: FriendLists,
    hits: Seq<RequestHit>,
    n: nat,
) -> Step
    decreases n,
{
    if n == 0 {
        s
    } else {
        let before = requests_done(s, lists, hits, (n - 1) as nat);
        match request_change(lists, hits[n - 1]) {
            Some(change) => before.changing(change),
            None => before,
        }
    }
}

/// The frame after the question whether to remove a friend, if it is open.
pub open spec fn popup_done(s: Step, hits: FriendHits, clicked: bool) -> Step {
    match s.menu.pending_remove {
        None => s,
        Some((uuid, name)) => {
            let closed = Step { menu: MenuModel { pending_remove: None, ..s.menu }, ..s };
            if hits.popup_remove && clicked {
                closed.changing(FriendChange::ById(uuid, UpdateType::Remove))
            } else if hits.popup_cancel && clicked {
                closed
            } else {
                s
            }
        },
    }
}

/// The frame after what is shown of the friends: the tab's body, and the
/// question over it.
pub open spec fn body_done(
    s: Step,
    state: FriendsState,
    hits: FriendHits,
    input: MenuInput,
    popup_open: bool,
    now: u64,
) -> Step {
    let clicked = input.clicked && !popup_open;
    let s1 = match state {
        FriendsState::Loaded(lists) => if s.menu.friend_tab == FriendTab::Friends {
            friends_body_done(s, lists, hits, clicked, input.enter, now)
        } else if clicked {
            requests_done(s, lists, hits.requests@, hits.requests@.len())
        } else {
            s
        },
        _ => s,
    };
    popup_done(s1, hits, input.clicked)
}

/// A frame of the friends screen. The escape key closes the question, else takes
/// the focus from the field, else leaves; a click beside the panel leaves unless
/// the question is open. Behind the panel the title screen goes on.
pub open spec fn friends_frame(
    menu: MenuModel,
    input: MenuInput,
    state: FriendsState,
    hits: FriendHits,
    now: u64,
) -> Step {
    let m1 = if menu.friend_tab == FriendTab::Friends {
        MenuModel { fields: menu.fields.handled(menu.screen, input, 1, now), ..menu }
    } else {
        menu
    };
    let (m2, ended) = friends_left(m1, input, hits.inside, now);
    if ended {
        Step { menu: m2, out: nothing(2) }
    } else {
        let popup_open = m1.pending_remove is Some;
        panel_done(Step { menu: m2, out: nothing(1) }, input, state, hits, popup_open, now)
    }
}

/// The menu after what may leave the friends screen, and whether the frame ends
/// with it.
pub open spec fn friends_left(
    menu: MenuModel,
    input: MenuInput,
    inside: bool,
    now: u64,
) -> (MenuModel, bool) {
    let popup_open = menu.pending_remove is Some;
    if input.escape && popup_open {
        (MenuModel { pending_remove: None, ..menu }, true)
    } else {
        let m = if input.escape {
            MenuModel { fields: FieldModel { focused: None, ..menu.fields }, ..menu }
        } else {
            menu
        };
        if (input.escape && menu.fields.focused is None) || (!popup_open && input.clicked
            && !inside) {
            (m.entered(Screen::Main, now), true)
        } else {
            (m, false)
        }
    }
}

/// The frame after the panel, while the screen is not left.
pub open spec fn panel_done(
    s: Step,
    input: MenuInput,
    state: FriendsState,
    hits: FriendHits,
    popup_open: bool,
    now: u64,
) -> Step {
    let s1 = if input.f5 {
        s.refreshing()
    } else {
        s
    };
    let s2 = Step { menu: transition_done(s1, now).menu, ..s1 };
    let s3 = tabs_done(s2, hits, input.clicked && !popup_open);
    body_done(s3, state, hits, input, popup_open, now)
}

impl MainMenu {
    /// Asks for a change to a friendship, if an account is signed in.
    fn friend_mutate(&self, result: &mut MainMenuResult, action: FriendAction)
        ensures
            step_of(*self, *final(result)) == step_of(*self, *old(result)).changing(action@),
    {
        if self.signed_in {
            result.add_effect(Effect::ChangeFriend(action));
        }
    }

    /// Fetches the friends anew, if an account is signed in.
    pub fn refresh_friends_now(&self, result: &mut MainMenuResult)
        ensures
            step_of(*self, *final(result)) == step_of(*self, *old(result)).refreshing(),
    {
        if self.signed_in {
            result.add_effect(Effect::RefreshFriends);
        }
    }

    /// Opens the friends screen.
    pub fn open_friends(&mut self, result: &mut MainMenuResult, now: u64)
        requires
            old(self).wf(),
        ensures
            final(self).wf(),
            step_of(*final(self), *final(result)) == friends_opened(
                step_of(*old(self), *old(result)),
                now,
            ),
    {
        self.set_screen(Screen::Friends, now);
        result.add_effect(Effect::ResetScroll);
        self.friend_tab = FriendTab::Friends;
        self.add_friend_name.clear();
        self.pending_remove = None;
        result.add_effect(Effect::ForgetFriendError);
        self.refresh_friends_now(result);
    }

    fn press_tabs(&mut self, result: &mut MainMenuResult, hits: &FriendHits, clicked: bool)
        requires
            old(self).wf(),
        ensures
            final(self).wf(),
            step_of(*final(self), *final(result)) == tabs_done(
                step_of(*old(self), *old(result)),
                *hits,
                clicked,
            ),
    {
        if hits.friends_tab && clicked && self.friend_tab != FriendTab::Friends {
            self.friend_tab = FriendTab::Friends;
            self.fields.focused = None;
            result.add_effect(Effect::ResetScroll);
        }
        if hits.requests_tab && clicked && self.friend_tab != FriendTab::Requests {
            self.friend_tab = FriendTab::Requests;
            self.fields.focused = None;
            result.add_effect(Effect::ResetScroll);
        }
    }

    /// Sends the name of a new friend.
    fn send_name(&mut self, result: &mut MainMenuResult)
        requires
            old(self).wf(),
        ensures
            final(self).wf(),
            step_of(*final(self), *final(result)) == name_sent(step_of(*old(self), *old(result))),
    {
        let name = trimmed_text(&self.add_friend_name);
        if !name.as_str().is_empty() {
            self.add_friend_name.clear();
            self.friend_mutate(result, FriendAction::AddByName(name));
        }
    }

    /// The friends tab.
    fn friends_body(
        &mut self,
        result: &mut MainMenuResult,
        lists: &FriendLists,
        hits: &FriendHits,
        clicked: bool,
        enter: bool,
        now: u64,
    )
        requires
            old(self).wf(),
        ensures
            final(self).wf(),
            step_of(*final(self), *final(result)) == friends_body_done(
                step_of(*old(self), *old(result)),
                *lists,
                *hits,
                clicked,
                enter,
                now,
            ),
    {
        self.press_send(result, hits, clicked, enter, now);
        if clicked && hits.own_name {
            result.add_effect(Effect::CopyText(self.username.clone()));
        }
        if clicked {
            self.ask_removals(&lists.friends, &hits.remove);
        }
    }

    /// The field for a new friend's name and the button that sends it.
    fn press_send(
        &mut self,
        result: &mut MainMenuResult,
        hits: &FriendHits,
        clicked: bool,
        enter: bool,
        now: u64,
    )
        requires
            old(self).wf(),
        ensures
            final(self).wf(),
            step_of(*final(self), *final(result)) == send_done(
                step_of(*old(self), *old(result)),
                *hits,
                clicked,
                enter,
                now,
            ),
    {
        if clicked && hits.field {
            self.fields.on_field_click(0, now);
        }
        let focused: bool = match self.fields.focused {
            Some(f) => f == 0,
            None => false,
        };
        if (clicked && hits.send) || (focused && enter) {
            self.send_name(result);
        }
    }

    /// Clicks on the remove buttons of some rows.
    fn ask_removals(&mut self, friends: &Vec<FriendView>, rows: &Vec<usize>)
        requires
            old(self).wf(),
        ensures
            final(self).wf(),
            final(self)@ == (MenuModel {
                pending_remove: removal_asked(
                    old(self)@.pending_remove,
                    friend_rows(friends@),
                    rows@,
                    rows@.len(),
                ),
                ..old(self)@
            }),
    {
        let ghost before = self@;
        let mut i: usize = 0;
        while i < rows.len()
            invariant
                i <= rows@.len(),
                before.wf(),
                self@ == (MenuModel {
                    pending_remove: removal_asked(
                        before.pending_remove,
                        friend_rows(friends@),
                        rows@,
                        i as nat,
                    ),
                    ..before
                }),
            decreases rows@.len() - i,
        {
            if rows[i] < friends.len() {
                let friend = &friends[rows[i]];
                assert(friend_rows(friends@)[rows@[i as int] as int] == friend@);
                self.pending_remove = Some((friend.uuid.clone(), friend.name.clone()));
            }
            i = i + 1;
        }
    }

    /// The requests tab.
    fn requests_body(
        &self,
        result: &mut MainMenuResult,
        lists: &FriendLists,
        hits: &Vec<RequestHit>,
    )
        ensures
            step_of(*self, *final(result)) == requests_done(
                step_of(*self, *old(result)),
                *lists,
                hits@,
                hits@.len(),
            ),
    {
        let ghost start = step_of(*self, *result);
        let mut i: usize = 0;
        while i < hits.len()
            invariant
                i <= hits@.len(),
                step_of(*self, *result) == requests_done(start, *lists, hits@, i as nat),
            decreases hits@.len() - i,
        {
            let hit: RequestHit = hits[i];
            let rows = if hit.button == RequestButton::Cancel {
                &lists.outgoing
            } else {
                &lists.incoming
            };
            if hit.row < rows.len() {
                assert(friend_rows(rows@)[hit.row as int] == rows@[hit.row as int]@);
                let update = if hit.button == RequestButton::Accept {
                    UpdateType::Add
                } else {
                    UpdateType::Remove
                };
                self.friend_mutate(result, FriendAction::ById(rows[hit.row].uuid.clone(), update));
            }
            i = i + 1;
        }
    }

    /// The question whether to remove a friend, if it is open.
    fn answer_popup(&mut self, result: &mut MainMenuResult, hits: &FriendHits, clicked: bool)
        requires
            old(self).wf(),
        ensures
            final(self).wf(),
            step_of(*final(self), *final(result)) == popup_done(
                step_of(*old(self), *old(result)),
                *hits,
                clicked,
            ),
    {
        if !(clicked && (hits.popup_remove || hits.popup_cancel)) {
            return ;
        }
        let pending = self.pending_remove.take();
        if let Some((uuid, _name)) = pending {
            if hits.popup_remove {
                self.friend_mutate(result, FriendAction::ById(uuid, UpdateType::Remove));
            }
        }
    }

    fn show_body(
        &mut self,
        result: &mut MainMenuResult,
        state: &FriendsState,
        hits: &FriendHits,
        input: &MenuInput,
        popup_open: bool,
        now: u64,
    )
        requires
            old(self).wf(),
        ensures
            final(self).wf(),
            step_of(*final(self), *final(result)) == body_done(
                step_of(*old(self), *old(result)),
                *state,
                *hits,
                *input,
                popup_open,
                now,
            ),
    {
        let clicked: bool = input.clicked && !popup_open;
        if let FriendsState::Loaded(lists) = state {
            if self.friend_tab == FriendTab::Friends {
                self.friends_body(result, lists, hits, clicked, input.enter, now);
            } else if clicked {
                self.requests_body(result, lists, &hits.requests);
            }
        }
        self.answer_popup(result, hits, input.clicked);
    }

    /// A frame of the friends screen, given what is known of the friends and
    /// what the cursor is over.
    pub fn build_friends(
        &mut self,
        input: &MenuInput,
        state: &FriendsState,
        hits: &FriendHits,
        now: u64,
    ) -> (result: MainMenuResult)
        requires
            old(self).wf(),
        ensures
            final(self).wf(),
            step_of(*final(self), result) == friends_frame(
                old(self)@,
                *input,
                *state,
                *hits,
                now,
            ),
    {
        let mut result = MainMenuResult::new(2);
        if self.friend_tab == FriendTab::Friends {
            self.fields.handle_text_input(&self.screen, input, 1, now);
        }
        let popup_open: bool = self.pending_remove.is_some();
        if self.leave_friends(input, hits.inside, now) {
            return result;
        }
        result.blur = 1;
        self.show_panel(&mut result, input, state, hits, popup_open, now);
        result
    }

    /// What may leave the friends screen. Returns whether the frame ends with it.
    fn leave_friends(&mut self, input: &MenuInput, inside: bool, now: u64) -> (ended: bool)
        requires
            old(self).wf(),
        ensures
            final(self).wf(),
            (final(self)@, ended) == friends_left(old(self)@, *input, inside, now),
    {
        let popup_open: bool = self.pending_remove.is_some();
        if input.escape && popup_open {
            self.pending_remove = None;
            return true;
        }
        let focused: bool = self.fields.focused.is_some();
        if input.escape {
            self.fields.focused = None;
        }
        if (input.escape && !focused) || (!popup_open && input.clicked && !inside) {
            self.set_screen(Screen::Main, now);
            return true;
        }
        false
    }

    /// The panel, with the title screen behind it.
    fn show_panel(
        &mut self,
        result: &mut MainMenuResult,
        input: &MenuInput,
        state: &FriendsState,
        hits: &FriendHits,
        popup_open: bool,
        now: u64,
    )
        requires
            old(self).wf(),
        ensures
            final(self).wf(),
            step_of(*final(self), *final(result)) == panel_done(
                step_of(*old(self), *old(result)),
                *input,
                *state,
                *hits,
                popup_open,
                now,
            ),
    {
        if input.f5 {
            self.refresh_friends_now(result);
        }
        let mut backdrop = MainMenuResult::new(1);
        self.advance_transition(&mut backdrop, now);
        self.press_tabs(result, hits, input.clicked && !popup_open);
        self.show_body(result, state, hits, input, popup_open, now);
    }
}

/// While the question whether to remove a friend is open, a click beside the
/// panel does not leave the screen, and the escape key closes the question and
/// nothing else.
pub proof fn question_captures_input(
    menu: MenuModel,
    input: MenuInput,
    state: FriendsState,
    hits: FriendHits,
    now: u64,
)
    requires
        menu.screen is Friends,
        menu.pending_remove is Some,
    ensures
        ({
            let after = friends_frame(menu, input, state, hits, now);
            &&& after.menu.screen is Friends
            &&& input.escape ==> after.menu.pending_remove is None && after.out == nothing(2)
        }),
{
    if !input.escape {
        if let FriendsState::Loaded(lists) = state {
            lemma_requests_keep_menu(
                Step { menu, out: nothing(1) },
                lists,
                hits.requests@,
                hits.requests@.len(),
            );
        }
    }
}

proof fn lemma_requests_keep_menu(s: Step, lists: FriendLists, hits: Seq<RequestHit>, n: nat)
    ensures
        requests_done(s, lists, hits, n).menu == s.menu,
    decreases n,
{
    if n > 0 {
        lemma_requests_keep_menu(s, lists, hits, (n - 1) as nat);
    }
}

} // verus!
