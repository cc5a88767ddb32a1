//! Watching: which changes of the default devices are told.

use vstd::prelude::*;

use crate::app_routing::watch::{accepted, seeded, WatchStateView};

verus! {

/// Has everything been told?
pub open spec fn is_told(state: WatchStateView) -> bool {
    state.current.0 == state.last_notified.0 && state.current.1 == state.last_notified.1
}

/// A new default device is told once, with the default of the other flow as it
/// is; the same device again is not told, nor is an event of another flow.
pub proof fn changes_are_told_once(state: WatchStateView, flow: int, id: Seq<char>)
    requires
        is_told(state),
    ensures
        is_told(accepted(state, flow, id).0),
        flow == 0 ==> accepted(state, flow, id).0.current == (id, state.current.1),
        flow == 1 ==> accepted(state, flow, id).0.current == (state.current.0, id),
        flow == 0 && id != state.current.0 ==> accepted(state, flow, id).1 == Some(
            (id, state.current.1),
        ),
        flow == 1 && id != state.current.1 ==> accepted(state, flow, id).1 == Some(
            (state.current.0, id),
        ),
        flow == 0 && id == state.current.0 ==> accepted(state, flow, id).1 is None,
        flow == 1 && id == state.current.1 ==> accepted(state, flow, id).1 is None,
        flow != 0 && flow != 1 ==> accepted(state, flow, id).1 is None && accepted(
            state,
            flow,
            id,
        ).0.current == state.current,
{
}

/// The devices that are the default when the watch starts are not told.
pub proof fn first_devices_are_not_told(playback: Seq<char>, recording: Seq<char>)
    ensures
        is_told(seeded(playback, recording)),
        seeded(playback, recording).current == (playback, recording),
        accepted(seeded(playback, recording), 0, playback).1 is None,
        accepted(seeded(playback, recording), 1, recording).1 is None,
{
}

} // verus!
