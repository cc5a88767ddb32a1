//! Audio sessions: which processes play or record, read device by device.

use crate::app_routing::ffi::ComCall;
use crate::text;
use vstd::prelude::*;

verus! {

/// State of a session that plays or records at this moment.
pub const SESSION_STATE_ACTIVE: i32 = 1;

/// What the calls on one session of a device returned: getting it, asking it
/// for the interface that tells its process, and reading process and state.
#[derive(Debug, Clone, Copy)]
pub struct SessionReading {
    pub control: ComCall,
    pub control2: ComCall,
    pub pid_hr: i32,
    pub pid: u32,
    pub state_hr: i32,
    pub state: i32,
}

/// What the calls on one device of a flow returned: getting it, activating its
/// session manager, getting the list of sessions, counting them, and one
/// reading for each.
#[derive(Debug)]
pub struct DeviceSessions {
    pub item: ComCall,
    pub manager: ComCall,
    pub enumerator: ComCall,
    pub count_hr: i32,
    pub sessions: Vec<SessionReading>,
}

/// The process of a session and whether it plays; a session whose process
/// cannot be told, or is none, is left out.
pub open spec fn session_entry(s: SessionReading) -> Option<(u32, bool)> {
    if s.control.succeeded() && s.control2.succeeded() && s.pid_hr >= 0 && s.pid != 0 {
        Some((s.pid, s.state_hr >= 0 && s.state == SESSION_STATE_ACTIVE))
    } else {
        None
    }
}

/// The sessions of one device, in order; none where they cannot be gone
/// through.
pub open spec fn device_entries(d: DeviceSessions) -> Seq<(u32, bool)> {
    if d.item.succeeded() && d.manager.succeeded() && d.enumerator.succeeded() && d.count_hr >= 0 {
        d.sessions@.filter_map(|s: SessionReading| session_entry(s))
    } else {
        Seq::empty()
    }
}

/// The sessions of all the devices, one device after the other.
pub open spec fn all_entries(devices: Seq<DeviceSessions>) -> Seq<(u32, bool)>
    decreases devices.len(),
{
    if devices.len() == 0 {
        Seq::empty()
    } else {
        all_entries(devices.drop_last()) + device_entries(devices.last())
    }
}

/// The sessions that going through the devices of a flow gave.
pub open spec fn read_sessions(
    collection: Result<Option<Vec<DeviceSessions>>, String>,
) -> Result<Seq<(u32, bool)>, Seq<char>> {
    match collection {
        Ok(Some(devices)) => Ok(all_entries(devices@)),
        Ok(None) => Ok(Seq::empty()),
        Err(message) => Err(message@),
    }
}

fn entry_of(session: &SessionReading) -> (r: Option<(u32, bool)>)
    ensures
        r == session_entry(*session),
{
    if !session.control.ok() || !session.control2.ok() {
        return None;
    }
    if session.pid_hr < 0 || session.pid == 0 {
        return None;
    }
    let playing = session.state_hr >= 0 && session.state == SESSION_STATE_ACTIVE;
    Some((session.pid, playing))
}

fn entries_of_device(device: &DeviceSessions) -> (r: Vec<(u32, bool)>)
    ensures
        r@ == device_entries(*device),
{
    let mut out: Vec<(u32, bool)> = Vec::new();
    if !device.item.ok() || !device.manager.ok() || !device.enumerator.ok() {
        return out;
    }
    if device.count_hr < 0 {
        return out;
    }
    let ghost f = |s: SessionReading| session_entry(s);
    let mut i: usize = 0;
    while i < device.sessions.len()
        invariant
            i <= device.sessions@.len(),
            f == (|s: SessionReading| session_entry(s)),
            out@ == device.sessions@.take(i as int).filter_map(f),
        decreases device.sessions@.len() - i,
    {
        proof {
            device.sessions@.lemma_filter_map_take_succ(f, i as int);
        }
        match entry_of(&device.sessions[i]) {
            Some(entry) => out.push(entry),
            None => {},
        }
        i += 1;
    }
    assert(device.sessions@.take(i as int) == device.sessions@);
    out
}

/// Sessions of a flow: the process of each and whether it plays, one entry for
/// each session. `collection` is what going through the devices gave: the
/// reason why that was not possible, no collection, or a reading for each
/// device.
pub fn list_sessions_noinit(collection: &Result<Option<Vec<DeviceSessions>>, String>) -> (r: Result<
    Vec<(u32, bool)>,
    String,
>)
    ensures
        match (r, read_sessions(*collection)) {
            (Ok(entries), Ok(expected)) => entries@ == expected,
            (Err(message), Err(expected)) => message@ == expected,
            _ => false,
        },
{
    let mut entries: Vec<(u32, bool)> = Vec::new();
    match collection {
        Err(message) => Err(text::owned(message.as_str())),
        Ok(None) => Ok(entries),
        Ok(Some(devices)) => {
            let mut i: usize = 0;
            while i < devices.len()
                invariant
                    i <= devices@.len(),
                    entries@ == all_entries(devices@.take(i as int)),
                decreases devices@.len() - i,
            {
                let mut more = entries_of_device(&devices[i]);
                entries.append(&mut more);
                proof {
                    assert(devices@.take(i + 1).drop_last() == devices@.take(i as int));
                    assert(devices@.take(i + 1).last() == devices@[i as int]);
                }
                i += 1;
            }
            assert(devices@.take(i as int) == devices@);
            Ok(entries)
        },
    }
}

/// The processes of some sessions, each once, in the order of its first
/// session.
pub open spec fn distinct_pids(entries: Seq<(u32, bool)>) -> Seq<u32>
    decreases entries.len(),
{
    if entries.len() == 0 {
        Seq::empty()
    } else {
        let before = distinct_pids(entries.drop_last());
        if before.contains(entries.last().0) {
            before
        } else {
            before.push(entries.last().0)
        }
    }
}

/// The processes of some sessions are listed once each, and no other is.
pub proof fn distinct_pids_are_the_pids(entries: Seq<(u32, bool)>)
    ensures
        distinct_pids(entries).no_duplicates(),
        forall|pid: u32| #[trigger]
            distinct_pids(entries).contains(pid) <==> exists|i: int|
                0 <= i < entries.len() && (#[trigger] entries[i]).0 == pid,
    decreases entries.len(),
{
    if entries.len() > 0 {
        let init = entries.drop_last();
        distinct_pids_are_the_pids(init);
        let before = distinct_pids(init);
        let last = entries.last().0;
        assert forall|pid: u32| #[trigger] distinct_pids(entries).contains(pid) implies exists|
            i: int,
        |
            0 <= i < entries.len() && (#[trigger] entries[i]).0 == pid by {
            if pid == last {
                assert(entries[entries.len() - 1].0 == pid);
            } else {
                if !before.contains(last) {
                    let k = choose|k: int|
                        0 <= k < before.push(last).len() && before.push(last)[k] == pid;
                    assert(before[k] == pid);
                }
                assert(before.contains(pid));
                let i = choose|i: int| 0 <= i < init.len() && (#[trigger] init[i]).0 == pid;
                assert(entries[i].0 == pid);
            }
        }
        assert forall|pid: u32|
            (exists|i: int| 0 <= i < entries.len() && (#[trigger] entries[i]).0 == pid) implies
            #[trigger] distinct_pids(entries).contains(pid) by {
            let i = choose|i: int| 0 <= i < entries.len() && (#[trigger] entries[i]).0 == pid;
            if i < init.len() {
                assert(init[i].0 == pid);
                assert(before.contains(pid));
                let k = choose|k: int| 0 <= k < before.len() && before[k] == pid;
                if !before.contains(last) {
                    assert(before.push(last)[k] == pid);
                }
            } else if !before.contains(last) {
                assert(before.push(last)[before.len() as int] == pid);
            }
        }
    }
}

/// Does the list hold the process?
pub fn pid_listed(pids: &Vec<u32>, pid: u32) -> (r: bool)
    ensures
        r == pids@.contains(pid),
{
    let mut i: usize = 0;
    while i < pids.len()
        invariant
            i <= pids@.len(),
            forall|j: int| 0 <= j < i ==> pids@[j] != pid,
        decreases pids@.len() - i,
    {
        if pids[i] == pid {
            return true;
        }
        i += 1;
    }
    false
}

/// The processes of some sessions, each once, in the order of its first
/// session.
pub fn session_pids(entries: &Vec<(u32, bool)>) -> (r: Vec<u32>)
    ensures
        r@ == distinct_pids(entries@),
{
    let mut pids: Vec<u32> = Vec::new();
    let mut i: usize = 0;
    while i < entries.len()
        invariant
            i <= entries@.len(),
            pids@ == distinct_pids(entries@.take(i as int)),
        decreases entries@.len() - i,
    {
        proof {
            assert(entries@.take(i + 1).drop_last() == entries@.take(i as int));
            assert(entries@.take(i + 1).last() == entries@[i as int]);
        }
        let pid: u32 = entries[i].0;
        if !pid_listed(&pids, pid) {
            pids.push(pid);
        }
        i += 1;
    }
    assert(entries@.take(i as int) == entries@);
    pids
}

/// Processes that have a session in a flow, each once.
pub fn list_session_pids_noinit(collection: &Result<Option<Vec<DeviceSessions>>, String>) -> (r:
    Result<Vec<u32>, String>)
    ensures
        match (r, read_sessions(*collection)) {
            (Ok(pids), Ok(entries)) => pids@ == distinct_pids(entries),
            (Err(message), Err(expected)) => message@ == expected,
            _ => false,
        },
{
    match list_sessions_noinit(collection) {
        Ok(entries) => Ok(session_pids(&entries)),
        Err(message) => Err(message),
    }
}

} // verus!
