//! Watching the default devices: one notification for each real change.

use crate::app_routing::devices::{device_id, units_before_zero, IdReading};
use crate::app_routing::ffi::{coded_message, guid_is, ComCall, Guid};
use vstd::prelude::*;

use crate::app_routing::devices::{before_zero, read_id};
use crate::app_routing::ffi::coded;
use crate::encoding::utf16_text;

verus! {

// ---------------------------------------------------------------------------
// The notification object
// ---------------------------------------------------------------------------

/// Result code of a request for an interface that an object does not have.
pub const E_NOINTERFACE: i32 = -2147467262;

/// Result code of a call with a null argument.
pub const E_POINTER: i32 = -2147467261;

/// Result code of a call that failed for no particular reason.
pub const E_FAIL: i32 = -2147467259;

/// Is the identifier that of the notification client's interface?
pub open spec fn is_notification_client(iid: Guid) -> bool {
    guid_is(
        iid,
        0x7991eec9,
        0x7e89,
        0x4d85,
        seq![0x83, 0x90, 0x6c, 0x70, 0x3c, 0xec, 0x60, 0xc0],
    )
}

/// Is the identifier that of the interface that every object has?
pub open spec fn is_unknown(iid: Guid) -> bool {
    guid_is(iid, 0, 0, 0, seq![0xc0, 0, 0, 0, 0, 0, 0, 0x46])
}

/// Interface of the notification client.
pub fn iid_imm_notification_client() -> (r: Guid)
    ensures
        is_notification_client(r),
{
    Guid {
        data1: 0x7991eec9,
        data2: 0x7e89,
        data3: 0x4d85,
        data4: [0x83, 0x90, 0x6c, 0x70, 0x3c, 0xec, 0x60, 0xc0],
    }
}

/// Interface that every object has.
pub fn iid_iunknown() -> (r: Guid)
    ensures
        is_unknown(r),
{
    Guid { data1: 0, data2: 0, data3: 0, data4: [0xc0, 0, 0, 0, 0, 0, 0, 0x46] }
}

/// Answer of the notification object to a request for an interface.
#[derive(Debug, Clone, Copy, PartialEq, Eq, Structural)]
pub enum InterfaceAnswer {
    /// An argument is null; nothing is handed out.
    NullArgument,
    /// The object itself is handed out, with one more reference.
    HandOut,
    /// A null object is handed out.
    Refuse,
}

impl InterfaceAnswer {
    /// The result code of the answer.
    pub fn code(self) -> (r: i32)
        ensures
            r == (match self {
                InterfaceAnswer::NullArgument => E_POINTER,
                InterfaceAnswer::HandOut => 0i32,
                InterfaceAnswer::Refuse => E_NOINTERFACE,
            }),
    {
        match self {
            InterfaceAnswer::NullArgument => E_POINTER,
            InterfaceAnswer::HandOut => 0,
            InterfaceAnswer::Refuse => E_NOINTERFACE,
        }
    }
}

/// Answers a request for an interface; `iid` is none where it is null, and
/// `out_present` false where there is no place for the answer.
pub fn answer_interface(iid: Option<Guid>, out_present: bool) -> (r: InterfaceAnswer)
    ensures
        r == (if iid is None || !out_present {
            InterfaceAnswer::NullArgument
        } else if is_notification_client(iid->Some_0) || is_unknown(iid->Some_0) {
            InterfaceAnswer::HandOut
        } else {
            InterfaceAnswer::Refuse
        }),
{
    match iid {
        None => InterfaceAnswer::NullArgument,
        Some(iid) => {
            if !out_present {
                InterfaceAnswer::NullArgument
            } else if iid.same_as(&iid_imm_notification_client()) || iid.same_as(&iid_iunknown()) {
                InterfaceAnswer::HandOut
            } else {
                InterfaceAnswer::Refuse
            }
        },
    }
}

/// The reference count after one reference is given back: never below zero, as
/// the object is never freed.
pub fn released(count: u32) -> (r: u32)
    ensures
        r == (if count == 0 {
            0int
        } else {
            count - 1
        }),
{
    if count == 0 {
        0
    } else {
        count - 1
    }
}

/// Longest identifier that a notification is looked through for.
pub const NOTIFIED_LIMIT: usize = 4096;

/// The identifier in a notification, from the units found at its address: up
/// to the first zero, and no more than 4096 units; empty for a null address.
pub open spec fn notified_text(units: Option<Seq<u16>>) -> Seq<char> {
    match units {
        None => Seq::empty(),
        Some(units) => {
            let seen = if units.len() > NOTIFIED_LIMIT {
                units.take(NOTIFIED_LIMIT as int)
            } else {
                units
            };
            utf16_text(seen.take(before_zero(seen) as int))
        },
    }
}

/// The identifier in a notification, from the units found at its address.
pub fn wide_to_string(units: Option<&[u16]>) -> (r: String)
    ensures
        r@ == notified_text(units.deep_view()),
{
    match units {
        None => String::new(),
        Some(units) => {
            assert(units.deep_view() =~= units@);
            let limit: usize = if units.len() > NOTIFIED_LIMIT {
                NOTIFIED_LIMIT
            } else {
                units.len()
            };
            let seen = vstd::slice::slice_subrange(units, 0, limit);
            assert(units@.subrange(0, limit as int) == units@.take(limit as int));
            assert(units@.take(units@.len() as int) == units@);
            let n: usize = units_before_zero(seen);
            let head = vstd::slice::slice_subrange(seen, 0, n);
            assert(head@ == seen@.take(n as int));
            String::from_utf16_lossy(head)
        },
    }
}

// ---------------------------------------------------------------------------
// The watch
// ---------------------------------------------------------------------------

/// The default devices as the watch knows them: playback and recording, as last
/// seen and as last told.
#[derive(Debug)]
pub struct WatchState {
    pub current: (String, String),
    pub last_notified: (String, String),
}

/// A watch state, as contracts speak of it.
pub struct WatchStateView {
    pub current: (Seq<char>, Seq<char>),
    pub last_notified: (Seq<char>, Seq<char>),
}

impl DeepView for WatchState {
    type V = WatchStateView;

    open spec fn deep_view(&self) -> WatchStateView {
        WatchStateView {
            current: self.current.deep_view(),
            last_notified: self.last_notified.deep_view(),
        }
    }
}

/// The state before anything changed.
pub open spec fn seeded(playback: Seq<char>, recording: Seq<char>) -> WatchStateView {
    WatchStateView { current: (playback, recording), last_notified: (playback, recording) }
}

/// The devices after a change of one flow; a flow that is not known changes
/// nothing.
pub open spec fn changed(
    current: (Seq<char>, Seq<char>),
    flow: int,
    id: Seq<char>,
) -> (Seq<char>, Seq<char>) {
    if flow == 0 {
        (id, current.1)
    } else if flow == 1 {
        (current.0, id)
    } else {
        current
    }
}

/// Is the flow playback or recording?
pub open spec fn known_flow(flow: int) -> bool {
    flow == 0 || flow == 1
}

/// The state after an event, and what is told of it.
pub open spec fn accepted(state: WatchStateView, flow: int, id: Seq<char>) -> (
    WatchStateView,
    Option<(Seq<char>, Seq<char>)>,
) {
    let current = changed(state.current, flow, id);
    if known_flow(flow) && current != state.last_notified {
        (WatchStateView { current, last_notified: current }, Some(current))
    } else {
        (WatchStateView { current, last_notified: state.last_notified }, None)
    }
}

impl WatchState {
    /// Starts from the devices that are the default now; they are not told.
    pub fn seed(playback: String, recording: String) -> (r: WatchState)
        ensures
            r.deep_view() == seeded(playback@, recording@),
    {
        let last_notified = (playback.clone(), recording.clone());
        WatchState { current: (playback, recording), last_notified }
    }

    /// Takes in that the default device of a flow is now `id`; gives the
    /// devices where they differ from those last told.
    pub fn accept(&mut self, flow: i32, id: String) -> (r: Option<(String, String)>)
        ensures
            (final(self).deep_view(), r.deep_view()) == accepted(
                old(self).deep_view(),
                flow as int,
                id@,
            ),
    {
        if flow == 0 {
            self.current.0 = id;
        } else if flow == 1 {
            self.current.1 = id;
        } else {
            return None;
        }
        if self.current.0 != self.last_notified.0 || self.current.1 != self.last_notified.1 {
            self.last_notified = (self.current.0.clone(), self.current.1.clone());
            Some((self.current.0.clone(), self.current.1.clone()))
        } else {
            None
        }
    }
}

/// What is told of some events, in order.
pub open spec fn told(
    state: WatchStateView,
    events: Seq<(int, Seq<char>)>,
) -> Seq<(Seq<char>, Seq<char>)>
    decreases events.len(),
{
    if events.len() == 0 {
        Seq::empty()
    } else {
        let (next, news) = accepted(state, events[0].0, events[0].1);
        let rest = told(next, events.skip(1));
        match news {
            Some(devices) => seq![devices] + rest,
            None => rest,
        }
    }
}

/// Is everything seen also told? This holds from the start and after every
/// event.
pub open spec fn up_to_date(state: WatchStateView) -> bool {
    state.current == state.last_notified
}

/// The state after some events.
pub open spec fn after_events(state: WatchStateView, events: Seq<(int, Seq<char>)>) -> WatchStateView
    decreases events.len(),
{
    if events.len() == 0 {
        state
    } else {
        after_events(accepted(state, events[0].0, events[0].1).0, events.skip(1))
    }
}

proof fn events_keep_up_to_date(state: WatchStateView, events: Seq<(int, Seq<char>)>)
    requires
        up_to_date(state),
    ensures
        up_to_date(after_events(state, events)),
    decreases events.len(),
{
    if events.len() > 0 {
        events_keep_up_to_date(accepted(state, events[0].0, events[0].1).0, events.skip(1));
    }
}

/// A watch starts up to date and stays so whatever happens.
pub proof fn watch_stays_up_to_date(
    playback: Seq<char>,
    recording: Seq<char>,
    events: Seq<(int, Seq<char>)>,
)
    ensures
        up_to_date(seeded(playback, recording)),
        up_to_date(after_events(seeded(playback, recording), events)),
{
    events_keep_up_to_date(seeded(playback, recording), events);
}

/// An event is told exactly when it changes the default device of a known flow.
pub proof fn only_changes_are_told(state: WatchStateView, flow: int, id: Seq<char>)
    requires
        up_to_date(state),
    ensures
        accepted(state, flow, id).1 is Some <==> changed(state.current, flow, id)
            != state.current,
        accepted(state, flow, id).1 is Some ==> accepted(state, flow, id).1 == Some(
            changed(state.current, flow, id),
        ),
        !known_flow(flow) ==> accepted(state, flow, id) == (state, None::<(Seq<char>, Seq<char>)>),
{
}

/// However often an event is repeated, as Windows does for each role, it is
/// told at most once.
pub proof fn repeated_events_are_told_once(
    state: WatchStateView,
    flow: int,
    id: Seq<char>,
    times: nat,
)
    requires
        up_to_date(state),
    ensures
        told(accepted(state, flow, id).0, Seq::new(times, |i: int| (flow, id))).len() == 0,
    decreases times,
{
    let next = accepted(state, flow, id).0;
    let events = Seq::new(times, |i: int| (flow, id));
    if times > 0 {
        assert(accepted(next, flow, id) == (next, None::<(Seq<char>, Seq<char>)>));
        assert(events.skip(1) == Seq::new((times - 1) as nat, |i: int| (flow, id)));
        repeated_events_are_told_once(state, flow, id, (times - 1) as nat);
    }
}

/// Two devices told one after the other are never the same, and the first is
/// not the one that the watch started from.
pub proof fn told_devices_differ(state: WatchStateView, events: Seq<(int, Seq<char>)>)
    requires
        up_to_date(state),
    ensures
        ({
            let news = told(state, events);
            &&& news.len() > 0 ==> news[0] != state.current
            &&& forall|i: int| 0 < i < news.len() ==> #[trigger] news[i] != news[i - 1]
        }),
    decreases events.len(),
{
    if events.len() > 0 {
        let (next, first) = accepted(state, events[0].0, events[0].1);
        told_devices_differ(next, events.skip(1));
        let rest = told(next, events.skip(1));
        let news = told(state, events);
        if first is Some {
            assert forall|i: int| 0 < i < news.len() implies #[trigger] news[i] != news[i - 1] by {
                if i == 1 {
                    assert(news[1] == rest[0]);
                } else {
                    assert(news[i] == rest[i - 1] && news[i - 1] == rest[i - 2]);
                }
            }
        }
    }
}

/// The default device of a flow, from the call that gets it and the reading of
/// its identifier; empty where there is none.
pub fn default_device_id(device: ComCall, id: &IdReading) -> (r: String)
    ensures
        r@ == (if device.succeeded() && read_id(*id) is Some {
            read_id(*id)->Some_0
        } else {
            Seq::empty()
        }),
{
    if device.ok() {
        match device_id(id) {
            Some(id) => id,
            None => String::new(),
        }
    } else {
        String::new()
    }
}

/// Outcome of subscribing to notifications: the watch runs, or the warning to
/// log.
pub fn watch_registered(hr: i32) -> (r: Result<(), String>)
    ensures
        match r {
            Ok(_) => hr >= 0,
            Err(warning) => hr < 0 && warning@ == coded(
                "abonnement notifications audio impossible"@,
                hr,
            ),
        },
{
    if hr < 0 {
        Err(coded_message("abonnement notifications audio impossible", hr))
    } else {
        Ok(())
    }
}

} // verus!
