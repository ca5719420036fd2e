//! What holds of the servers' status: what a reply tells, and which servers are
//! asked.

use crate::components::{component_steps, component_text, component_tree};
use crate::server_list::{
    being_pinged, favicon_payload, is_favicon, ported, tells, EntryView, PingError, PingState,
    StatusReply, FAVICON_PREFIX,
};
use crate::text::{flattened, span_views};
use vstd::prelude::*;

verus! {

/// A reply is told as it came: the runs of its own description, its own counts of
/// players, its own version, protocol and names, and the time that its pong took. It is spoken to natively exactly
/// where its protocol is the newest, and through translation exactly where another
/// one can be translated.
pub proof fn a_reply_is_told_as_it_came(
    address: Seq<char>,
    reply: StatusReply,
    latency: u64,
    latest: i32,
    joinable: bool,
    state: Option<PingState>,
)
    requires
        tells(address, Ok((reply, latency)), latest, joinable, state),
        state is Some,
    ensures
        match state.unwrap() {
            PingState::Success {
                motd,
                online,
                max,
                latency_ms,
                version,
                protocol,
                compat,
                favicon_rgba,
                player_names,
            } => {
                &&& span_views(motd@) == flattened(
                    component_steps(component_tree(reply.description)),
                    component_text(component_tree(reply.description)),
                )
                &&& online == reply.online
                &&& max == reply.max
                &&& latency_ms == latency
                &&& version@ == reply.version@
                &&& protocol == reply.protocol
                &&& player_names@ == reply.player_names@
                &&& compat is Native <==> reply.protocol == latest
                &&& compat is Translated <==> reply.protocol != latest && joinable
                &&& compat is Incompatible <==> reply.protocol != latest && !joinable
                &&& reply.favicon is None ==> favicon_rgba is None
                &&& (reply.favicon matches Some(data) ==> is_favicon(data@, favicon_rgba))
            },
            _ => false,
        },
{
}

/// A failure is told as a failure; its report holds the address, or what the part
/// that failed said.
pub proof fn a_failure_is_told_as_a_failure(
    address: Seq<char>,
    error: PingError,
    latest: i32,
    joinable: bool,
    state: Option<PingState>,
)
    requires
        tells(address, Err(error), latest, joinable, state),
    ensures
        state matches Some(PingState::Failed(message)) && message@ == match error {
            PingError::InvalidAddress => "Invalid address: "@ + address,
            PingError::Status(e) => address + ": "@ + e@,
            PingError::Request(e) => "Ping request failed: "@ + e@,
            PingError::Pong(e) => "Pong failed: "@ + e@,
        },
{
}

/// Every server of the list is being asked, and what is known of others stays.
pub proof fn every_server_is_asked(
    known: Map<Seq<char>, PingState>,
    servers: Seq<EntryView>,
    n: nat,
    address: Seq<char>,
)
    requires
        n <= servers.len(),
    ensures
        ({
            let after = being_pinged(known, servers, n);
            if exists|i: int| 0 <= i < n && (#[trigger] servers[i]).address == address {
                after.contains_key(address) && after[address] is Pinging
            } else {
                &&& after.contains_key(address) == known.contains_key(address)
                &&& known.contains_key(address) ==> after[address] == known[address]
            }
        }),
    decreases n,
{
    if n > 0 {
        let m = (n - 1) as nat;
        every_server_is_asked(known, servers, m, address);
        if exists|i: int| 0 <= i < m && (#[trigger] servers[i]).address == address {
            let i = choose|i: int| 0 <= i < m && (#[trigger] servers[i]).address == address;
            assert(servers[i].address == address);
        }
        assert(servers[n - 1].address == servers[n - 1].address);
    }
}

/// An icon is what follows the start of a data address, and the whole text where it
/// does not begin with one.
pub proof fn icons_follow_their_prefix(payload: Seq<char>, data: Seq<char>)
    requires
        data.len() < FAVICON_PREFIX@.len() || data.take(FAVICON_PREFIX@.len() as int)
            != FAVICON_PREFIX@,
    ensures
        favicon_payload("data:image/png;base64,"@ + payload) == payload,
        favicon_payload(data) == data,
{
    let full = FAVICON_PREFIX@ + payload;
    let n = FAVICON_PREFIX@.len() as int;
    assert(full.subrange(0, n) =~= FAVICON_PREFIX@);
    assert(full.subrange(n, full.len() as int) =~= payload);
    if data.len() >= n {
        assert(data.subrange(0, n) =~= data.take(n));
    }
}

/// An address keeps its port; one without a port gets the usual one.
pub proof fn addresses_get_the_usual_port(address: Seq<char>)
    ensures
        (exists|i: int| 0 <= i < address.len() && #[trigger] address[i] == ':') ==> ported(address)
            == address,
        (forall|i: int| 0 <= i < address.len() ==> #[trigger] address[i] != ':') ==> ported(address)
            == address + ":25565"@,
{
}

} // verus!
