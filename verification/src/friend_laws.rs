//! What holds of the friends that are shown: who is there, with which presence,
//! and in which order.

use crate::friends::{
    are_lists, friend_row, friend_rows, is_order, online_friends_come_first, presence_of,
    request_row, shown_before, status_of, status_report, undashed, wanted_faces, FriendLists,
    FriendRow, FriendStatus, FriendsList, PresenceEntry,
};
use crate::strings::{decimal, lex_less, lex_order_is_total, lowered};
use vstd::prelude::*;

verus! {

/// Whether a text does not come after another: where they first differ its
/// character is the lesser, or it ends there.
pub open spec fn is_not_after(a: Seq<char>, b: Seq<char>) -> bool {
    exists|n: int| #[trigger] agree_up_to(a, b, n) && (n == a.len() || (n < b.len() && a[n] < b[n]))
}

/// Whether two texts have the same first `n` characters.
pub open spec fn agree_up_to(a: Seq<char>, b: Seq<char>, n: int) -> bool {
    0 <= n <= a.len() && n <= b.len() && forall|k: int| 0 <= k < n ==> #[trigger] a[k] == b[k]
}

/// The order of texts is that of their characters, of which the first that differ
/// decide; a text that another begins with comes before it.
pub proof fn first_difference_decides(a: Seq<char>, b: Seq<char>)
    ensures
        lex_less(a, b) ==> is_not_after(a, b) && a != b,
        !lex_less(b, a) ==> is_not_after(a, b),
    decreases a.len(),
{
    if a.len() == 0 {
        assert(agree_up_to(a, b, 0));
        lex_order_is_total(a, b);
    } else if b.len() == 0 {
    } else if a[0] == b[0] {
        let (x, y) = (a.drop_first(), b.drop_first());
        first_difference_decides(x, y);
        if is_not_after(x, y) {
            let n = choose|n: int| #[trigger]
                agree_up_to(x, y, n) && (n == x.len() || (n < y.len() && x[n] < y[n]));
            assert forall|k: int| 0 <= k < n + 1 implies #[trigger] a[k] == b[k] by {
                if k > 0 {
                    assert(x[k - 1] == y[k - 1]);
                }
            }
            assert(agree_up_to(a, b, n + 1));
            if n < x.len() {
                assert(x[n] == a[n + 1] && y[n] == b[n + 1]);
            }
        }
        lex_order_is_total(a, b);
    } else {
        assert(agree_up_to(a, b, 0));
    }
}

/// In the list that is shown nobody who is offline stands before somebody who is
/// online. Among those who are online, and among those who are offline, the names
/// follow the order of texts, without regard to case.
pub proof fn friends_are_in_order(
    list: FriendsList,
    presence: Seq<PresenceEntry>,
    lists: FriendLists,
    i: int,
    j: int,
)
    requires
        are_lists(list, presence, lists),
        0 <= i < j < lists.friends@.len(),
    ensures
        ({
            let (a, b) = (lists.friends@[i], lists.friends@[j]);
            &&& a.status is Offline ==> b.status is Offline
            &&& (a.status is Offline <==> b.status is Offline) ==> is_not_after(
                lowered(a.name@),
                lowered(b.name@),
            ) && !lex_less(lowered(b.name@), lowered(a.name@))
        }),
{
    let given = Seq::new(list.friends@.len(), |i: int| friend_row(list.friends@[i], presence));
    let rows = friend_rows(lists.friends@);
    let order = choose|order: Seq<usize>| #[trigger]
        is_order(given, order) && rows == Seq::new(order.len(), |i: int| given[order[i] as int]);
    assert(rows[i] == lists.friends@[i]@ && rows[j] == lists.friends@[j]@);
    assert(rows.len() == order.len());
    assert(shown_before(given, order[i] as int, order[j] as int));
    let (x, y) = (lowered(rows[i].name), lowered(rows[j].name));
    assert(rows[i] == given[order[i] as int] && rows[j] == given[order[j] as int]);
    lex_order_is_total(x, y);
    lex_order_is_total(y, x);
    first_difference_decides(x, y);
}

/// Whether an order holds every number below a bound once.
pub open spec fn is_permutation(order: Seq<usize>, n: nat) -> bool {
    &&& order.len() == n
    &&& order.no_duplicates()
    &&& forall|i: int| 0 <= i < n ==> (#[trigger] order[i]) < n
}

/// Whether a list shows the friends in an order.
pub open spec fn shows_in_order(
    list: FriendsList,
    presence: Seq<PresenceEntry>,
    lists: FriendLists,
    order: Seq<usize>,
) -> bool {
    &&& is_permutation(order, list.friends@.len())
    &&& lists.friends@.len() == order.len()
    &&& forall|k: int|
        0 <= k < order.len() ==> {
            let friend = list.friends@[#[trigger] order[k] as int];
            &&& lists.friends@[k].name@ == friend.name@
            &&& lists.friends@[k].uuid@ == friend.profile_id@
            &&& lists.friends@[k].status == presence_of(
                presence,
                friend.profile_id@,
                presence.len(),
            )
        }
    &&& forall|i: int, j: int|
        0 <= i < j < order.len() && lists.friends@[i].status is Offline
            == lists.friends@[j].status is Offline && lowered(lists.friends@[i].name@) == lowered(
            lists.friends@[j].name@,
        ) ==> #[trigger] order[i] < #[trigger] order[j]
}

/// Every friend is shown once, under their own name and identifier, with their own
/// presence; friends of the same name stay in the order in which they were given.
pub proof fn every_friend_is_shown_once(
    list: FriendsList,
    presence: Seq<PresenceEntry>,
    lists: FriendLists,
)
    requires
        are_lists(list, presence, lists),
    ensures
        exists|order: Seq<usize>| #[trigger] shows_in_order(list, presence, lists, order),
{
    let given = Seq::new(list.friends@.len(), |i: int| friend_row(list.friends@[i], presence));
    let rows = friend_rows(lists.friends@);
    let order = choose|order: Seq<usize>| #[trigger]
        is_order(given, order) && rows == Seq::new(order.len(), |i: int| given[order[i] as int]);
    assert(rows.len() == lists.friends@.len());
    assert(order.no_duplicates()) by {
        assert forall|i: int, j: int|
            0 <= i < order.len() && 0 <= j < order.len() && i != j implies order[i] != order[j] by {
            if i < j {
                online_friends_come_first(given, order, i, j);
            } else {
                online_friends_come_first(given, order, j, i);
            }
        }
    }
    assert forall|k: int| 0 <= k < order.len() implies {
        let friend = list.friends@[#[trigger] order[k] as int];
        &&& lists.friends@[k].name@ == friend.name@
        &&& lists.friends@[k].uuid@ == friend.profile_id@
        &&& lists.friends@[k].status == presence_of(presence, friend.profile_id@, presence.len())
    } by {
        assert(rows[k] == given[order[k] as int]);
        assert(rows[k] == lists.friends@[k]@);
        assert(order[k] < given.len());
    }
    assert forall|i: int, j: int|
        0 <= i < j < order.len() && lists.friends@[i].status is Offline
            == lists.friends@[j].status is Offline && lowered(lists.friends@[i].name@) == lowered(
            lists.friends@[j].name@,
        ) implies #[trigger] order[i] < #[trigger] order[j] by {
        assert(rows[i] == given[order[i] as int] && rows[j] == given[order[j] as int]);
        assert(rows[i] == lists.friends@[i]@ && rows[j] == lists.friends@[j]@);
        assert(shown_before(given, order[i] as int, order[j] as int));
    }
    assert(shows_in_order(list, presence, lists, order));
}

/// Requests are shown as they came, without a presence.
pub proof fn requests_are_shown_as_they_came(
    list: FriendsList,
    presence: Seq<PresenceEntry>,
    lists: FriendLists,
    k: int,
)
    requires
        are_lists(list, presence, lists),
    ensures
        lists.incoming@.len() == list.incoming_requests@.len(),
        lists.outgoing@.len() == list.outgoing_requests@.len(),
        0 <= k < lists.incoming@.len() ==> lists.incoming@[k].name@
            == list.incoming_requests@[k].name@ && lists.incoming@[k].uuid@
            == list.incoming_requests@[k].profile_id@ && lists.incoming@[k].status is Offline,
        0 <= k < lists.outgoing@.len() ==> lists.outgoing@[k].name@
            == list.outgoing_requests@[k].name@ && lists.outgoing@[k].uuid@
            == list.outgoing_requests@[k].profile_id@ && lists.outgoing@[k].status is Offline,
{
    let (incoming, outgoing) = (friend_rows(lists.incoming@), friend_rows(lists.outgoing@));
    assert(incoming.len() == lists.incoming@.len() && outgoing.len() == lists.outgoing@.len());
    if 0 <= k < incoming.len() {
        assert(incoming[k] == lists.incoming@[k]@);
        assert(incoming[k] == request_row(list.incoming_requests@[k]));
    }
    if 0 <= k < outgoing.len() {
        assert(outgoing[k] == lists.outgoing@[k]@);
        assert(outgoing[k] == request_row(list.outgoing_requests@[k]));
    }
}

/// An identifier without its dashes has all other characters, in their order.
pub proof fn only_dashes_are_left_out(id: Seq<char>)
    ensures
        undashed(id) == id.filter(|c: char| c != '-'),
    decreases id.len(),
{
    reveal(Seq::filter);
    if id.len() > 0 {
        only_dashes_are_left_out(id.drop_last());
    }
}

/// A friend's presence is that of the last entry for them, whose identifier is
/// theirs but for the dashes; without one they are offline.
pub proof fn presence_is_that_of_the_last_entry(entries: Seq<PresenceEntry>, uuid: Seq<char>, k: int)
    requires
        -1 <= k < entries.len(),
        k >= 0 ==> entries[k].profile_id@.filter(|c: char| c != '-') == uuid,
        forall|j: int|
            k < j < entries.len() ==> (#[trigger] entries[j]).profile_id@.filter(|c: char| c != '-')
                != uuid,
    ensures
        ({
            let status = presence_of(entries, uuid, entries.len());
            if k < 0 {
                status is Offline
            } else {
                let word = entries[k].status@;
                &&& status is Online <==> word == "ONLINE"@
                &&& status is PlayingOffline <==> word == "PLAYING_OFFLINE"@
                &&& status is PlayingServer <==> word != "PLAYING_OFFLINE"@ && word.len() >= 7
                    && word.take(7) == "PLAYING"@
            }
        }),
{
    lemma_presence(entries, uuid, k, entries.len());
    if k >= 0 {
        let word = entries[k].status@;
        reveal_strlit("ONLINE");
        reveal_strlit("PLAYING");
        reveal_strlit("PLAYING_OFFLINE");
        assert(word.len() >= 7 ==> word.subrange(0, 7) == word.take(7));
        if word == "ONLINE"@ {
            assert(word[0] == 'O');
        }
        if word == "PLAYING_OFFLINE"@ {
            assert(word[0] == 'P');
        }
    }
}

proof fn lemma_presence(entries: Seq<PresenceEntry>, uuid: Seq<char>, k: int, n: nat)
    requires
        -1 <= k < n <= entries.len() || (k == -1 && n == 0),
        k >= 0 ==> entries[k].profile_id@.filter(|c: char| c != '-') == uuid,
        forall|j: int|
            k < j < n ==> (#[trigger] entries[j]).profile_id@.filter(|c: char| c != '-') != uuid,
    ensures
        presence_of(entries, uuid, n) == if k < 0 {
            FriendStatus::Offline
        } else {
            status_of(entries[k].status@)
        },
    decreases n,
{
    if n > 0 {
        only_dashes_are_left_out(entries[n - 1].profile_id@);
        if k < n - 1 {
            assert(entries[n - 1].profile_id@.filter(|c: char| c != '-') != uuid);
            lemma_presence(entries, uuid, k, (n - 1) as nat);
        }
    }
}

/// Faces are fetched for the identifiers in the rows that are not empty and whose
/// face is not known, and for no others.
pub proof fn faces_are_fetched_for_those_unknown(
    rows: Seq<FriendRow>,
    known: Seq<String>,
    uuid: Seq<char>,
)
    ensures
        wanted_faces(rows, known, rows.len()).contains(uuid) <==> {
            &&& uuid.len() > 0
            &&& exists|r: int| 0 <= r < rows.len() && (#[trigger] rows[r]).uuid == uuid
            &&& forall|k: int| 0 <= k < known.len() ==> (#[trigger] known[k])@ != uuid
        },
{
    lemma_wanted(rows, known, rows.len(), uuid);
}

proof fn lemma_wanted(rows: Seq<FriendRow>, known: Seq<String>, n: nat, uuid: Seq<char>)
    requires
        n <= rows.len(),
    ensures
        wanted_faces(rows, known, n).contains(uuid) <==> {
            &&& uuid.len() > 0
            &&& exists|r: int| 0 <= r < n && (#[trigger] rows[r]).uuid == uuid
            &&& forall|k: int| 0 <= k < known.len() ==> (#[trigger] known[k])@ != uuid
        },
    decreases n,
{
    if n > 0 {
        let m = (n - 1) as nat;
        lemma_wanted(rows, known, m, uuid);
        let (before, after) = (wanted_faces(rows, known, m), wanted_faces(rows, known, n));
        let last = rows[n - 1].uuid;
        if after.contains(uuid) {
            let i = after.index_of(uuid);
            if i < before.len() {
                assert(before[i] == uuid);
            }
        }
        if before.contains(uuid) {
            let i = before.index_of(uuid);
            assert(after[i] == uuid);
        }
        if last == uuid && after.len() > before.len() {
            assert(after[before.len() as int] == uuid);
        }
    }
}

/// What a failed request is reported as. That the name is unknown is reported only
/// of a request by name; a failure that is none of the known ones is reported with
/// its number.
pub proof fn failures_are_reported(status: u16, by_name: bool)
    ensures
        ({
            let report = status_report(status, by_name);
            &&& status != 400 ==> report == status_report(status, !by_name)
            &&& status == 400 && by_name ==> report == "Unknown player name"@
            &&& status == 401 ==> report == "Session expired — sign in again"@
            &&& status == 403 ==> report == "Account has no active Java profile"@
            &&& status == 429 ==> report == "Rate limited — try again shortly"@
            &&& status >= 500 ==> report == "Friends service unavailable, try again later"@
            &&& status < 500 && status != 401 && status != 403 && status != 429 && !(status == 400
                && by_name) ==> report == "Friends service returned HTTP "@ + decimal(
                status as nat,
            )
        }),
{
}

} // verus!
