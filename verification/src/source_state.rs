//! The state a source is in, and the events that tell of a change.
use vstd::prelude::*;

#[allow(unused_imports)]
use crate::text::text_of;

verus! {

/// The state of a source.
#[derive(Clone, Copy, Debug, PartialEq, Eq, Structural)]
pub enum StreamSourceState {
    /// Not connected yet.
    Initializing,
    /// Connected to the encoder helper.
    Connected,
    /// The connection is gone, or could not be made.
    Disconnected,
    /// Connecting again.
    Reconnecting,
}

/// Tells that a source went from one state to another, and why.
#[derive(Clone, Debug)]
pub struct StateChangeEvent {
    pub old_state: StreamSourceState,
    pub new_state: StreamSourceState,
    pub error: Option<String>,
}

/// The content of a `StateChangeEvent`.
pub struct ChangeView {
    pub old_state: StreamSourceState,
    pub new_state: StreamSourceState,
    pub error: Option<Seq<char>>,
}

impl View for StateChangeEvent {
    type V = ChangeView;

    open spec fn view(&self) -> ChangeView {
        ChangeView {
            old_state: self.old_state,
            new_state: self.new_state,
            error: text_of(self.error),
        }
    }
}

/// The content of an event, if there is one.
pub open spec fn change_of(event: Option<StateChangeEvent>) -> Option<ChangeView> {
    match event {
        Some(event) => Some(event@),
        None => None,
    }
}

/// The event that a move from `old_state` to `new_state` brings: none where nothing changes.
pub open spec fn change_between(
    old_state: StreamSourceState,
    new_state: StreamSourceState,
    error: Option<Seq<char>>,
) -> Option<ChangeView> {
    if old_state == new_state {
        None
    } else {
        Some(ChangeView { old_state, new_state, error })
    }
}

/// Moves `state` to `new_state`, and gives the event to send if that is a change.
pub fn emit_state_change(
    state: &mut StreamSourceState,
    new_state: StreamSourceState,
    error: Option<String>,
) -> (event: Option<StateChangeEvent>)
    ensures
        *final(state) == new_state,
        change_of(event) == change_between(*old(state), new_state, text_of(error)),
{
    let old_state: StreamSourceState = *state;
    if old_state != new_state {
        *state = new_state;
        Some(StateChangeEvent { old_state, new_state, error })
    } else {
        None
    }
}

} // verus!
