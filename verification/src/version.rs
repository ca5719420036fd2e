//! The protocol versions that the client was launched as and speaks on the
//! wire.

use vstd::prelude::*;

verus! {

/// The protocol ids in force.
pub struct ProtocolState {
    /// The launched version's id, once it is known.
    pub selected: Option<i32>,
    /// The id negotiated for the current connection; 0 outside one.
    pub session: i32,
}

impl ProtocolState {
    /// Before anything is known.
    pub fn new() -> (state: Self)
        ensures
            state.selected is None,
            state.session == 0,
    {
        ProtocolState { selected: None, session: 0 }
    }

    /// The launched version's id: the recorded one, else `native`.
    pub open spec fn launched(&self, native: i32) -> i32 {
        match self.selected {
            Some(p) => p,
            None => native,
        }
    }

    /// The id spoken on the wire: the negotiated one, else the launched one.
    pub open spec fn spoken(&self, native: i32) -> i32 {
        if self.session == 0 {
            self.launched(native)
        } else {
            self.session
        }
    }
}

/// Records the launched version's id. Only the first call has an effect.
pub fn set_selected_protocol(state: &mut ProtocolState, protocol: i32)
    ensures
        final(state).selected == (match old(state).selected {
            Some(p) => Some(p),
            None => Some(protocol),
        }),
        final(state).session == old(state).session,
{
    if state.selected.is_none() {
        state.selected = Some(protocol);
    }
}

/// The id of the version that the client was launched as; `native`, the newest
/// one, where none was recorded.
pub fn selected_protocol(state: &ProtocolState, native: i32) -> (protocol: i32)
    ensures
        protocol == state.launched(native),
{
    match state.selected {
        Some(p) => p,
        None => native,
    }
}

/// Records the version negotiated for a connection.
pub fn set_session_protocol(state: &mut ProtocolState, protocol: i32)
    ensures
        final(state).session == protocol,
        final(state).selected == old(state).selected,
{
    state.session = protocol;
}

/// Forgets the negotiated version at the end of a connection.
pub fn clear_session_protocol(state: &mut ProtocolState)
    ensures
        final(state).session == 0,
        final(state).selected == old(state).selected,
{
    state.session = 0;
}

/// The id spoken on the wire right now.
pub fn session_protocol(state: &ProtocolState, native: i32) -> (protocol: i32)
    ensures
        protocol == state.spoken(native),
{
    if state.session == 0 {
        selected_protocol(state, native)
    } else {
        state.session
    }
}

/// Once a session has ended, nothing of it is left: the wire version is the
/// launched one, whatever was negotiated before.
pub proof fn no_session_leaks(ended: ProtocolState, native: i32)
    requires
        ended.session == 0,
    ensures
        ended.spoken(native) == ended.launched(native),
{
}

/// A recorded launch version is never replaced: after two records the first
/// one stands.
pub proof fn first_selection_stands(
    before: ProtocolState,
    between: ProtocolState,
    after: ProtocolState,
    first: i32,
    second: i32,
    native: i32,
)
    requires
        before.selected is None,
        between.selected == (match before.selected {
            Some(p) => Some(p),
            None => Some(first),
        }),
        after.selected == (match between.selected {
            Some(p) => Some(p),
            None => Some(second),
        }),
    ensures
        after.launched(native) == first,
{
}

} // verus!
