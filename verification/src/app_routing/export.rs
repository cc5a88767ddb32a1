//! Reading the routes that are in force: the entries of a profile, and the
//! list of applications with audio.

use crate::app_routing::profile_apps::{
    copy_option, device_name, position_of_pid, AppSessionRow, AppSessionRowView, ApplicationEntry,
    ApplicationEntryView, ProcInfo, ProcInfoView, RouteTarget, RouteTargetView,
};
use crate::app_routing::sessions::session_pids;
use crate::app_routing::{DeviceList, DeviceListView, Flow};
use crate::encoding;
use crate::order::{stable_sort, Ranked};
use crate::text;
use vstd::prelude::*;

use crate::app_routing::flow_label;
use crate::app_routing::profile_apps::{name_of_device, process_with_pid};
use crate::app_routing::sessions::distinct_pids;
use crate::encoding::lowercase;
use crate::order::stably_ordered;
use crate::text::{decimal, text_le};

verus! {

// ---------------------------------------------------------------------------
// What was read
// ---------------------------------------------------------------------------

/// What reading the persisted route of a process gave.
#[derive(Debug)]
pub struct RouteReading {
    pub pid: u32,
    pub flow: Flow,
    pub route: Result<Option<String>, String>,
}

/// A route reading, as contracts speak of it.
pub struct RouteReadingView {
    pub pid: u32,
    pub flow: Flow,
    pub route: Result<Option<Seq<char>>, Seq<char>>,
}

/// A route or the reason why it could not be read, as contracts speak of it.
pub open spec fn route_view(route: Result<Option<String>, String>) -> Result<
    Option<Seq<char>>,
    Seq<char>,
> {
    match route {
        Ok(id) => Ok(id.deep_view()),
        Err(message) => Err(message@),
    }
}

impl DeepView for RouteReading {
    type V = RouteReadingView;

    open spec fn deep_view(&self) -> RouteReadingView {
        RouteReadingView { pid: self.pid, flow: self.flow, route: route_view(self.route) }
    }
}

/// The first reading for a process and a flow; a route that was not read counts
/// as none.
pub open spec fn route_of(routes: Seq<RouteReadingView>, pid: u32, flow: Flow) -> Result<
    Option<Seq<char>>,
    Seq<char>,
>
    decreases routes.len(),
{
    if routes.len() == 0 {
        Ok(None)
    } else if routes[0].pid == pid && routes[0].flow == flow {
        routes[0].route
    } else {
        route_of(routes.skip(1), pid, flow)
    }
}

fn read_route(routes: &Vec<RouteReading>, pid: u32, flow: Flow) -> (r: Result<
    Option<String>,
    String,
>)
    ensures
        route_view(r) == route_of(routes.deep_view(), pid, flow),
{
    let mut i: usize = 0;
    assert(routes.deep_view().skip(0) == routes.deep_view());
    while i < routes.len()
        invariant
            i <= routes@.len(),
            route_of(routes.deep_view(), pid, flow) == route_of(
                routes.deep_view().skip(i as int),
                pid,
                flow,
            ),
        decreases routes@.len() - i,
    {
        if routes[i].pid == pid && routes[i].flow == flow {
            return match &routes[i].route {
                Ok(id) => Ok(copy_option(id)),
                Err(message) => Err(message.clone()),
            };
        }
        assert(routes.deep_view().skip(i as int).skip(1) == routes.deep_view().skip(i + 1));
        i += 1;
    }
    Ok(None)
}

/// A running process with the lower-case forms of its path and its name.
#[derive(Debug)]
pub struct Identified {
    pub info: ProcInfo,
    pub exe_lower: String,
    pub name_lower: String,
}

/// An identified process, as contracts speak of it.
pub struct IdentifiedView {
    pub info: ProcInfoView,
    pub exe_lower: Seq<char>,
    pub name_lower: Seq<char>,
}

impl DeepView for Identified {
    type V = IdentifiedView;

    open spec fn deep_view(&self) -> IdentifiedView {
        IdentifiedView {
            info: self.info.deep_view(),
            exe_lower: self.exe_lower@,
            name_lower: self.name_lower@,
        }
    }
}

/// A process with the lower-case forms of its path (empty where it has none)
/// and its name.
pub open spec fn identified(info: ProcInfoView) -> IdentifiedView {
    IdentifiedView {
        info,
        exe_lower: lowercase(
            match info.exe {
                Some(exe) => exe,
                None => Seq::empty(),
            },
        ),
        name_lower: lowercase(info.name),
    }
}

/// Processes with the lower-case forms of their paths and names.
pub open spec fn all_identified(running: Seq<ProcInfoView>) -> Seq<IdentifiedView> {
    running.map_values(|info: ProcInfoView| identified(info))
}

/// Processes with the lower-case forms of their paths and names.
pub fn identify(running: &Vec<ProcInfo>) -> (r: Vec<Identified>)
    ensures
        r.deep_view() == all_identified(running.deep_view()),
{
    let mut out: Vec<Identified> = Vec::new();
    let mut i: usize = 0;
    while i < running.len()
        invariant
            i <= running@.len(),
            out@.len() == i,
            forall|j: int|
                0 <= j < i ==> (#[trigger] out@[j]).deep_view() == identified(
                    running@[j].deep_view(),
                ),
        decreases running@.len() - i,
    {
        let exe_lower = match &running[i].exe {
            Some(exe) => encoding::to_lowercase(exe.as_str()),
            None => encoding::to_lowercase(""),
        };
        proof {
            reveal_strlit("");
            assert(""@ =~= Seq::<char>::empty());
        }
        let name_lower = encoding::to_lowercase(running[i].name.as_str());
        out.push(Identified { info: running[i].clone(), exe_lower, name_lower });
        i += 1;
    }
    assert(out.deep_view() =~= all_identified(running.deep_view()));
    out
}

/// The first process with a given number.
pub open spec fn identified_with_pid(procs: Seq<IdentifiedView>, pid: u32) -> Option<IdentifiedView>
    decreases procs.len(),
{
    if procs.len() == 0 {
        None
    } else if procs[0].info.pid == pid {
        Some(procs[0])
    } else {
        identified_with_pid(procs.skip(1), pid)
    }
}

fn position_of_identified(procs: &Vec<Identified>, pid: u32) -> (r: Option<usize>)
    ensures
        match r {
            Some(at) => at < procs@.len() && identified_with_pid(procs.deep_view(), pid) == Some(
                procs@[at as int].deep_view(),
            ),
            None => identified_with_pid(procs.deep_view(), pid) is None,
        },
{
    let mut i: usize = 0;
    assert(procs.deep_view().skip(0) == procs.deep_view());
    while i < procs.len()
        invariant
            i <= procs@.len(),
            identified_with_pid(procs.deep_view(), pid) == identified_with_pid(
                procs.deep_view().skip(i as int),
                pid,
            ),
        decreases procs@.len() - i,
    {
        if procs[i].info.pid == pid {
            return Some(i);
        }
        assert(procs.deep_view().skip(i as int).skip(1) == procs.deep_view().skip(i + 1));
        i += 1;
    }
    None
}

// ---------------------------------------------------------------------------
// Records
// ---------------------------------------------------------------------------

/// An entry under the identity of its process: lower-case path, lower-case
/// name.
pub type RecordView = (Seq<char>, Seq<char>, ApplicationEntryView);

/// Position of the first record with a given identity.
pub open spec fn position_of_identity(
    records: Seq<RecordView>,
    identity: (Seq<char>, Seq<char>),
) -> Option<int>
    decreases records.len(),
{
    if records.len() == 0 {
        None
    } else if records[0].0 == identity.0 && records[0].1 == identity.1 {
        Some(0)
    } else {
        match position_of_identity(records.skip(1), identity) {
            Some(i) => Some(i + 1),
            None => None,
        }
    }
}

/// The records with one for an identity: as they are where there is one, else
/// with a new entry without routes at the end.
pub open spec fn recorded(
    records: Seq<RecordView>,
    identity: (Seq<char>, Seq<char>),
    process_name: Seq<char>,
    executable: Option<Seq<char>>,
) -> Seq<RecordView> {
    match position_of_identity(records, identity) {
        Some(_) => records,
        None => records.push(
            (
                identity.0,
                identity.1,
                ApplicationEntryView {
                    process_name,
                    executable_path: executable,
                    output: None,
                    input: None,
                },
            ),
        ),
    }
}

/// Place of an identity among the records once it is recorded.
pub open spec fn record_place(
    records: Seq<RecordView>,
    identity: (Seq<char>, Seq<char>),
) -> int {
    match position_of_identity(records, identity) {
        Some(i) => i,
        None => records.len() as int,
    }
}

/// The position of an identity is that of a record which has it; without one no
/// record has it.
pub proof fn position_in_range(records: Seq<RecordView>, identity: (Seq<char>, Seq<char>))
    ensures
        position_of_identity(records, identity) matches Some(i) ==> 0 <= i < records.len()
            && records[i].0 == identity.0 && records[i].1 == identity.1,
        position_of_identity(records, identity) is None ==> forall|j: int|
            0 <= j < records.len() ==> !((#[trigger] records[j]).0 == identity.0 && records[j].1
                == identity.1),
    decreases records.len(),
{
    if records.len() > 0 && !(records[0].0 == identity.0 && records[0].1 == identity.1) {
        let rest = records.skip(1);
        position_in_range(rest, identity);
        if position_of_identity(rest, identity) is None {
            assert forall|j: int| 0 <= j < records.len() implies !((#[trigger] records[j]).0
                == identity.0 && records[j].1 == identity.1) by {
                if j > 0 {
                    assert(rest[j - 1] == records[j]);
                }
            }
        }
    }
}

/// Place of the record of a process, made where there is none yet.
pub fn record_index(
    records: &mut Vec<(String, String, ApplicationEntry)>,
    identity: &(String, String),
    process_name: String,
    executable: Option<String>,
) -> (r: usize)
    ensures
        final(records).deep_view() == recorded(
            old(records).deep_view(),
            identity.deep_view(),
            process_name@,
            executable.deep_view(),
        ),
        r == record_place(old(records).deep_view(), identity.deep_view()),
        r < final(records)@.len(),
{
    let ghost all = records.deep_view();
    let mut i: usize = 0;
    assert(all.skip(0) == all);
    while i < records.len()
        invariant
            i <= records@.len(),
            all == records.deep_view(),
            *records == *old(records),
            position_of_identity(all, identity.deep_view()) == (match position_of_identity(
                all.skip(i as int),
                identity.deep_view(),
            ) {
                Some(k) => Some(k + i),
                None => None,
            }),
        decreases records@.len() - i,
    {
        assert(all[i as int] == records@[i as int].deep_view());
        if records[i].0 == identity.0 && records[i].1 == identity.1 {
            return i;
        }
        assert(all.skip(i as int).skip(1) == all.skip(i + 1));
        i += 1;
    }
    records.push(
        (
            identity.0.clone(),
            identity.1.clone(),
            ApplicationEntry {
                process_name,
                executable_path: executable,
                output: None,
                input: None,
            },
        ),
    );
    assert(records.deep_view() =~= recorded(
        all,
        identity.deep_view(),
        process_name@,
        executable.deep_view(),
    ));
    records.len() - 1
}

/// An entry with the target of one flow set.
pub open spec fn with_target(
    entry: ApplicationEntryView,
    flow: Flow,
    target: RouteTargetView,
) -> ApplicationEntryView {
    match flow {
        Flow::Output => ApplicationEntryView { output: Some(target), ..entry },
        Flow::Input => ApplicationEntryView { input: Some(target), ..entry },
    }
}

/// The records after a route of a process was added.
pub open spec fn with_route(
    records: Seq<RecordView>,
    process: IdentifiedView,
    flow: Flow,
    target: RouteTargetView,
) -> Seq<RecordView> {
    let identity = (process.exe_lower, process.name_lower);
    let made = recorded(records, identity, process.info.name, process.info.exe);
    let at = record_place(records, identity);
    made.update(at, (made[at].0, made[at].1, with_target(made[at].2, flow, target)))
}

fn add_route(
    records: &mut Vec<(String, String, ApplicationEntry)>,
    process: &Identified,
    flow: Flow,
    target: RouteTarget,
)
    ensures
        final(records).deep_view() == with_route(
            old(records).deep_view(),
            process.deep_view(),
            flow,
            target.deep_view(),
        ),
{
    let identity = (process.exe_lower.clone(), process.name_lower.clone());
    let index: usize = record_index(
        records,
        &identity,
        process.info.name.clone(),
        copy_option(&process.info.exe),
    );
    let ghost made = records.deep_view();
    match flow {
        Flow::Output => {
            records[index].2.output = Some(target);
        },
        Flow::Input => {
            records[index].2.input = Some(target);
        },
    }
    assert(records.deep_view() =~= made.update(
        index as int,
        (
            made[index as int].0,
            made[index as int].1,
            with_target(made[index as int].2, flow, target.deep_view()),
        ),
    ));
}

// ---------------------------------------------------------------------------
// Export
// ---------------------------------------------------------------------------

/// What was read of the machine to tell which routes are in force: running
/// processes, the outcome of activating the engine, the sessions of each flow,
/// and the persisted routes.
#[derive(Debug)]
pub struct RoutingReading {
    pub processes: Vec<ProcInfo>,
    pub activation: Result<(), String>,
    pub output_sessions: Result<Vec<(u32, bool)>, String>,
    pub input_sessions: Result<Vec<(u32, bool)>, String>,
    pub routes: Vec<RouteReading>,
}

/// Sessions or the reason why they could not be read, as contracts speak of
/// them.
pub open spec fn sessions_view(sessions: Result<Vec<(u32, bool)>, String>) -> Result<
    Seq<(u32, bool)>,
    Seq<char>,
> {
    match sessions {
        Ok(entries) => Ok(entries@),
        Err(message) => Err(message@),
    }
}

/// Records and warnings while routes are exported.
pub struct ExportView {
    pub records: Seq<RecordView>,
    pub warnings: Seq<Seq<char>>,
}

/// Target of a route, with the name of its device where it is in the list.
pub open spec fn target_for(devices: DeviceListView, id: Seq<char>) -> RouteTargetView {
    RouteTargetView { device_id: id, device_name: name_of_device(devices, id) }
}

/// Warning for a route that could not be read.
pub open spec fn unread_route_warning(flow: Flow, pid: u32, reason: Seq<char>) -> Seq<char> {
    "Route "@ + flow_label(flow) + " non lue pour "@ + decimal(pid as nat) + " : "@ + reason
}

/// Warning for sessions that could not be enumerated.
pub open spec fn unread_sessions_warning(flow: Flow, reason: Seq<char>) -> Seq<char> {
    "Sessions "@ + flow_label(flow) + " non énumérées : "@ + reason
}

/// Exporting the route of one process: a process that does not run or has no
/// route of its own adds nothing, a route that cannot be read a warning.
pub open spec fn export_one(
    state: ExportView,
    flow: Flow,
    devices: DeviceListView,
    procs: Seq<IdentifiedView>,
    routes: Seq<RouteReadingView>,
    pid: u32,
) -> ExportView {
    match identified_with_pid(procs, pid) {
        None => state,
        Some(process) => match route_of(routes, pid, flow) {
            Err(reason) => ExportView {
                records: state.records,
                warnings: state.warnings.push(unread_route_warning(flow, pid, reason)),
            },
            Ok(None) => state,
            Ok(Some(id)) => ExportView {
                records: with_route(state.records, process, flow, target_for(devices, id)),
                warnings: state.warnings,
            },
        },
    }
}

/// Exporting the routes of some processes, one after the other.
pub open spec fn export_pids(
    state: ExportView,
    flow: Flow,
    devices: DeviceListView,
    procs: Seq<IdentifiedView>,
    routes: Seq<RouteReadingView>,
    pids: Seq<u32>,
) -> ExportView
    decreases pids.len(),
{
    if pids.len() == 0 {
        state
    } else {
        export_one(
            export_pids(state, flow, devices, procs, routes, pids.drop_last()),
            flow,
            devices,
            procs,
            routes,
            pids.last(),
        )
    }
}

/// Exporting the routes of one flow: those of its distinct processes, or a
/// warning where its sessions could not be enumerated.
pub open spec fn export_flow(
    state: ExportView,
    flow: Flow,
    devices: DeviceListView,
    procs: Seq<IdentifiedView>,
    routes: Seq<RouteReadingView>,
    sessions: Result<Seq<(u32, bool)>, Seq<char>>,
) -> ExportView {
    match sessions {
        Ok(entries) => export_pids(state, flow, devices, procs, routes, distinct_pids(entries)),
        Err(reason) => ExportView {
            records: state.records,
            warnings: state.warnings.push(unread_sessions_warning(flow, reason)),
        },
    }
}

/// Exporting the routes of both flows.
pub open spec fn export_both(
    playback: DeviceListView,
    recording: DeviceListView,
    procs: Seq<IdentifiedView>,
    routes: Seq<RouteReadingView>,
    output_sessions: Result<Seq<(u32, bool)>, Seq<char>>,
    input_sessions: Result<Seq<(u32, bool)>, Seq<char>>,
) -> ExportView {
    let start = ExportView { records: Seq::empty(), warnings: Seq::empty() };
    let played = export_flow(start, Flow::Output, playback, procs, routes, output_sessions);
    export_flow(played, Flow::Input, recording, procs, routes, input_sessions)
}

/// Order of records: by lower-case name, then by lower-case path.
pub open spec fn record_le(a: RecordView, b: RecordView) -> bool {
    if a.1 == b.1 {
        text_le(a.0, b.0)
    } else {
        text_le(a.1, b.1)
    }
}

/// `sorted` holds the records in their order.
pub open spec fn records_in_order(records: Seq<RecordView>, sorted: Seq<RecordView>) -> bool {
    stably_ordered(records, sorted, |a: RecordView, b: RecordView| record_le(a, b))
}

/// `entries` are the entries of `records`, in their order.
pub open spec fn entries_in_order(
    records: Seq<RecordView>,
    entries: Seq<ApplicationEntryView>,
) -> bool {
    exists|sorted: Seq<RecordView>| #[trigger]
        records_in_order(records, sorted) && entries == sorted.map_values(
            |record: RecordView| record.2,
        )
}

impl Ranked for (String, String, ApplicationEntry) {
    open spec fn le(a: RecordView, b: RecordView) -> bool {
        record_le(a, b)
    }

    proof fn le_total(a: RecordView, b: RecordView) {
        text::text_le_total(a.0, b.0);
        text::text_le_total(a.1, b.1);
    }

    proof fn le_transitive(a: RecordView, b: RecordView, c: RecordView) {
        if a.1 == b.1 && b.1 == c.1 {
            text::text_le_transitive(a.0, b.0, c.0);
        } else if a.1 != b.1 && b.1 != c.1 {
            text::text_le_transitive(a.1, b.1, c.1);
            if a.1 == c.1 {
                text::text_le_antisymmetric(a.1, b.1);
            }
        }
    }

    fn ranks_at_most(&self, other: &Self) -> (r: bool) {
        if self.1 == other.1 {
            text::at_most(self.0.as_str(), other.0.as_str())
        } else {
            text::at_most(self.1.as_str(), other.1.as_str())
        }
    }
}

/// Records and warnings while routes are exported.
pub struct ExportState {
    pub records: Vec<(String, String, ApplicationEntry)>,
    pub warnings: Vec<String>,
}

impl DeepView for ExportState {
    type V = ExportView;

    open spec fn deep_view(&self) -> ExportView {
        ExportView { records: self.records.deep_view(), warnings: self.warnings.deep_view() }
    }
}

fn export_process(
    state: &mut ExportState,
    flow: Flow,
    devices: &DeviceList,
    procs: &Vec<Identified>,
    routes: &Vec<RouteReading>,
    pid: u32,
)
    ensures
        final(state).deep_view() == export_one(
            old(state).deep_view(),
            flow,
            devices.deep_view(),
            procs.deep_view(),
            routes.deep_view(),
            pid,
        ),
{
    let at: usize = match position_of_identified(procs, pid) {
        Some(at) => at,
        None => return ,
    };
    match read_route(routes, pid, flow) {
        Err(reason) => {
            let mut warning = text::owned("Route ");
            warning.append(flow.label());
            warning.append(" non lue pour ");
            warning.append(text::decimal_text(pid as u64).as_str());
            warning.append(" : ");
            warning.append(reason.as_str());
            let ghost before = state.warnings.deep_view();
            state.warnings.push(warning);
            assert(state.warnings.deep_view() =~= before.push(warning@));
        },
        Ok(None) => {},
        Ok(Some(id)) => {
            let device_name = device_name(devices, id.as_str());
            let target = RouteTarget { device_id: id, device_name };
            add_route(&mut state.records, &procs[at], flow, target);
        },
    }
}

fn export_sessions(
    state: &mut ExportState,
    flow: Flow,
    devices: &DeviceList,
    procs: &Vec<Identified>,
    routes: &Vec<RouteReading>,
    sessions: &Result<Vec<(u32, bool)>, String>,
)
    ensures
        final(state).deep_view() == export_flow(
            old(state).deep_view(),
            flow,
            devices.deep_view(),
            procs.deep_view(),
            routes.deep_view(),
            sessions_view(*sessions),
        ),
{
    match sessions {
        Err(reason) => {
            let mut warning = text::owned("Sessions ");
            warning.append(flow.label());
            warning.append(" non énumérées : ");
            warning.append(reason.as_str());
            let ghost before = state.warnings.deep_view();
            state.warnings.push(warning);
            assert(state.warnings.deep_view() =~= before.push(warning@));
        },
        Ok(entries) => {
            let pids = session_pids(entries);
            let ghost start = state.deep_view();
            let mut i: usize = 0;
            while i < pids.len()
                invariant
                    i <= pids@.len(),
                    state.deep_view() == export_pids(
                        start,
                        flow,
                        devices.deep_view(),
                        procs.deep_view(),
                        routes.deep_view(),
                        pids@.take(i as int),
                    ),
                decreases pids@.len() - i,
            {
                export_process(state, flow, devices, procs, routes, pids[i]);
                proof {
                    assert(pids@.take(i + 1).drop_last() == pids@.take(i as int));
                    assert(pids@.take(i + 1).last() == pids@[i as int]);
                }
                i += 1;
            }
            assert(pids@.take(i as int) == pids@);
        },
    }
}

/// The entries of the routes in force and the warnings met on the way, from
/// processes whose lower-case paths and names are known.
pub fn export_identified(
    playback_devices: &DeviceList,
    recording_devices: &DeviceList,
    procs: &Vec<Identified>,
    routes: &Vec<RouteReading>,
    output_sessions: &Result<Vec<(u32, bool)>, String>,
    input_sessions: &Result<Vec<(u32, bool)>, String>,
) -> (r: (Vec<ApplicationEntry>, Vec<String>))
    ensures
        ({
            let exported = export_both(
                playback_devices.deep_view(),
                recording_devices.deep_view(),
                procs.deep_view(),
                routes.deep_view(),
                sessions_view(*output_sessions),
                sessions_view(*input_sessions),
            );
            entries_in_order(exported.records, r.0.deep_view()) && r.1.deep_view()
                == exported.warnings
        }),
{
    let mut state = ExportState { records: Vec::new(), warnings: Vec::new() };
    assert(state.records.deep_view() =~= Seq::<RecordView>::empty());
    assert(state.warnings.deep_view() =~= Seq::<Seq<char>>::empty());
    export_sessions(&mut state, Flow::Output, playback_devices, procs, routes, output_sessions);
    export_sessions(&mut state, Flow::Input, recording_devices, procs, routes, input_sessions);
    let ghost records = state.records.deep_view();
    let sorted = stable_sort(state.records);
    proof {
        assert((|a: RecordView, b: RecordView| record_le(a, b)) =~= (|
            a: RecordView,
            b: RecordView,
        | <(String, String, ApplicationEntry) as Ranked>::le(a, b)));
    }
    let mut entries: Vec<ApplicationEntry> = Vec::new();
    let mut i: usize = 0;
    while i < sorted.len()
        invariant
            i <= sorted@.len(),
            entries@.len() == i,
            forall|j: int|
                0 <= j < i ==> (#[trigger] entries@[j]).deep_view() == sorted@[j].2.deep_view(),
        decreases sorted@.len() - i,
    {
        entries.push(sorted[i].2.clone());
        i += 1;
    }
    proof {
        assert(entries.deep_view() =~= sorted.deep_view().map_values(
            |record: RecordView| record.2,
        ));
        assert(records_in_order(records, sorted.deep_view()));
    }
    (entries, state.warnings)
}

/// What exporting a reading gives: the entries of the routes in force and the
/// warnings met on the way.
pub open spec fn is_export(
    playback: DeviceListView,
    recording: DeviceListView,
    reading: RoutingReading,
    entries: Seq<ApplicationEntryView>,
    warnings: Seq<Seq<char>>,
) -> bool {
    match reading.activation {
        Err(reason) => entries.len() == 0 && warnings == seq![reason@],
        Ok(_) => {
            let exported = export_both(
                playback,
                recording,
                all_identified(reading.processes.deep_view()),
                reading.routes.deep_view(),
                sessions_view(reading.output_sessions),
                sessions_view(reading.input_sessions),
            );
            entries_in_order(exported.records, entries) && warnings == exported.warnings
        },
    }
}

/// Exports the routes in force to the form of a profile. `reading` is what was
/// read on the engine's thread, or why that thread could not be reached.
pub fn export_app_routes(
    playback_devices: &DeviceList,
    recording_devices: &DeviceList,
    reading: &Result<RoutingReading, String>,
) -> (r: Result<(Vec<ApplicationEntry>, Vec<String>), String>)
    ensures
        match (*reading, r) {
            (Err(reason), Err(message)) => message@ == reason@,
            (Ok(reading), Ok(exported)) => is_export(
                playback_devices.deep_view(),
                recording_devices.deep_view(),
                reading,
                exported.0.deep_view(),
                exported.1.deep_view(),
            ),
            _ => false,
        },
{
    match reading {
        Err(reason) => Err(reason.clone()),
        Ok(reading) => match &reading.activation {
            Err(reason) => {
                let entries: Vec<ApplicationEntry> = Vec::new();
                let mut warnings: Vec<String> = Vec::new();
                warnings.push(reason.clone());
                assert(entries.deep_view().len() == 0);
                assert(warnings.deep_view() =~= seq![reason@]);
                Ok((entries, warnings))
            },
            Ok(_) => {
                let procs = identify(&reading.processes);
                Ok(
                    export_identified(
                        playback_devices,
                        recording_devices,
                        &procs,
                        &reading.routes,
                        &reading.output_sessions,
                        &reading.input_sessions,
                    ),
                )
            },
        },
    }
}

// ---------------------------------------------------------------------------
// What every export keeps
// ---------------------------------------------------------------------------

/// Every record has a route, and no two records have the same identity.
pub open spec fn sound_records(records: Seq<RecordView>) -> bool {
    &&& forall|i: int|
        0 <= i < records.len() ==> (#[trigger] records[i]).2.output is Some
            || records[i].2.input is Some
    &&& forall|i: int, j: int|
        0 <= i < j < records.len() ==> !((#[trigger] records[i]).0 == (#[trigger] records[j]).0
            && records[i].1 == records[j].1)
}

proof fn with_route_keeps_records_sound(
    records: Seq<RecordView>,
    process: IdentifiedView,
    flow: Flow,
    target: RouteTargetView,
)
    requires
        sound_records(records),
    ensures
        sound_records(with_route(records, process, flow, target)),
{
    let identity = (process.exe_lower, process.name_lower);
    position_in_range(records, identity);
    let made = recorded(records, identity, process.info.name, process.info.exe);
    let at = record_place(records, identity);
    let result = with_route(records, process, flow, target);
    assert(0 <= at < made.len());
    assert forall|i: int| 0 <= i < result.len() implies (#[trigger] result[i]).2.output is Some
        || result[i].2.input is Some by {
        if i != at {
            assert(result[i] == records[i]);
        }
    }
    assert forall|i: int, j: int| 0 <= i < j < result.len() implies !((#[trigger] result[i]).0 == (
    #[trigger] result[j]).0 && result[i].1 == result[j].1) by {
        assert(result[i].0 == made[i].0 && result[i].1 == made[i].1);
        assert(result[j].0 == made[j].0 && result[j].1 == made[j].1);
        assert(made[i] == records[i]);
        if j < records.len() {
            assert(made[j] == records[j]);
        }
    }
}

/// Exporting the routes of some processes keeps the records sound.
pub proof fn export_pids_keeps_records_sound(
    state: ExportView,
    flow: Flow,
    devices: DeviceListView,
    procs: Seq<IdentifiedView>,
    routes: Seq<RouteReadingView>,
    pids: Seq<u32>,
)
    requires
        sound_records(state.records),
    ensures
        sound_records(export_pids(state, flow, devices, procs, routes, pids).records),
    decreases pids.len(),
{
    if pids.len() > 0 {
        let init = pids.drop_last();
        export_pids_keeps_records_sound(state, flow, devices, procs, routes, init);
        let before = export_pids(state, flow, devices, procs, routes, init);
        match identified_with_pid(procs, pids.last()) {
            Some(process) => {
                match route_of(routes, pids.last(), flow) {
                    Ok(Some(id)) => {
                        with_route_keeps_records_sound(
                            before.records,
                            process,
                            flow,
                            target_for(devices, id),
                        );
                    },
                    _ => {},
                }
            },
            None => {},
        }
    }
}

/// The records of an export are sound.
pub proof fn export_both_is_sound(
    playback: DeviceListView,
    recording: DeviceListView,
    procs: Seq<IdentifiedView>,
    routes: Seq<RouteReadingView>,
    output_sessions: Result<Seq<(u32, bool)>, Seq<char>>,
    input_sessions: Result<Seq<(u32, bool)>, Seq<char>>,
)
    ensures
        sound_records(
            export_both(
                playback,
                recording,
                procs,
                routes,
                output_sessions,
                input_sessions,
            ).records,
        ),
{
    let start = ExportView { records: Seq::empty(), warnings: Seq::empty() };
    if let Ok(entries) = output_sessions {
        export_pids_keeps_records_sound(
            start,
            Flow::Output,
            playback,
            procs,
            routes,
            distinct_pids(entries),
        );
    }
    let played = export_flow(start, Flow::Output, playback, procs, routes, output_sessions);
    if let Ok(entries) = input_sessions {
        export_pids_keeps_records_sound(
            played,
            Flow::Input,
            recording,
            procs,
            routes,
            distinct_pids(entries),
        );
    }
}

/// Every exported entry has a route of its own for at least one flow.
pub proof fn exported_entries_have_a_route(
    playback: DeviceListView,
    recording: DeviceListView,
    reading: RoutingReading,
    entries: Seq<ApplicationEntryView>,
    warnings: Seq<Seq<char>>,
)
    requires
        is_export(playback, recording, reading, entries, warnings),
    ensures
        forall|i: int|
            0 <= i < entries.len() ==> (#[trigger] entries[i]).output is Some
                || entries[i].input is Some,
{
    if reading.activation is Ok {
        let procs = all_identified(reading.processes.deep_view());
        let routes = reading.routes.deep_view();
        let played = sessions_view(reading.output_sessions);
        let recorded = sessions_view(reading.input_sessions);
        let records = export_both(playback, recording, procs, routes, played, recorded).records;
        export_both_is_sound(playback, recording, procs, routes, played, recorded);
        let sorted = choose|sorted: Seq<RecordView>| #[trigger]
            records_in_order(records, sorted) && entries == sorted.map_values(
                |record: RecordView| record.2,
            );
        crate::order::ordering_keeps_items(
            records,
            sorted,
            |a: RecordView, b: RecordView| record_le(a, b),
        );
        assert forall|i: int| 0 <= i < entries.len() implies (#[trigger] entries[i]).output is Some
            || entries[i].input is Some by {
            assert(sorted.contains(sorted[i]));
            assert(records.contains(sorted[i]));
            let k = choose|k: int| 0 <= k < records.len() && records[k] == sorted[i];
            assert(records[k].2 == entries[i]);
        }
    }
}

/// An application is exported once: no two records have the same lower-case
/// path and name, whatever was read.
pub proof fn exported_identities_are_distinct(
    playback: DeviceListView,
    recording: DeviceListView,
    procs: Seq<IdentifiedView>,
    routes: Seq<RouteReadingView>,
    output_sessions: Result<Seq<(u32, bool)>, Seq<char>>,
    input_sessions: Result<Seq<(u32, bool)>, Seq<char>>,
)
    ensures
        ({
            let records = export_both(
                playback,
                recording,
                procs,
                routes,
                output_sessions,
                input_sessions,
            ).records;
            forall|i: int, j: int|
                0 <= i < j < records.len() ==> !((#[trigger] records[i]).0 == (
                #[trigger] records[j]).0 && records[i].1 == records[j].1)
        }),
{
    export_both_is_sound(playback, recording, procs, routes, output_sessions, input_sessions);
}

// ---------------------------------------------------------------------------
// Applications with audio
// ---------------------------------------------------------------------------

/// The processes of some sessions that run, each once: those whose routes are
/// read.
pub open spec fn running_pids(
    running: Seq<ProcInfoView>,
    sessions: Seq<(u32, bool)>,
) -> Seq<u32> {
    distinct_pids(sessions).filter(|pid: u32| process_with_pid(running, pid) is Some)
}

/// The processes of some sessions that run, each once: those whose routes are
/// read.
pub fn pids_to_read(running: &Vec<ProcInfo>, sessions: &Vec<(u32, bool)>) -> (r: Vec<u32>)
    ensures
        r@ == running_pids(running.deep_view(), sessions@),
{
    let pids = session_pids(sessions);
    let ghost f = |pid: u32| process_with_pid(running.deep_view(), pid) is Some;
    let mut out: Vec<u32> = Vec::new();
    let mut i: usize = 0;
    proof {
        reveal(Seq::filter);
        assert(out@ =~= pids@.take(0).filter(f));
    }
    while i < pids.len()
        invariant
            i <= pids@.len(),
            f == (|pid: u32| process_with_pid(running.deep_view(), pid) is Some),
            out@ == pids@.take(i as int).filter(f),
        decreases pids@.len() - i,
    {
        proof {
            assert(pids@.take(i + 1) == pids@.take(i as int).push(pids@[i as int]));
            pids@.take(i as int).lemma_filter_push(pids@[i as int], f);
        }
        let pid: u32 = pids[i];
        if position_of_pid(running, pid).is_some() {
            out.push(pid);
        }
        i += 1;
    }
    assert(pids@.take(i as int) == pids@);
    out
}

/// The sessions that were read; none where they could not be.
pub open spec fn heard(sessions: Result<Seq<(u32, bool)>, Seq<char>>) -> Seq<(u32, bool)> {
    match sessions {
        Ok(entries) => entries,
        Err(_) => Seq::empty(),
    }
}

/// Does one of the sessions of the process play?
pub open spec fn plays(sessions: Seq<(u32, bool)>, pid: u32) -> bool {
    exists|i: int| 0 <= i < sessions.len() && (#[trigger] sessions[i]).0 == pid && sessions[i].1
}

/// The route of a process as the list shows it; one that cannot be read is
/// shown as none.
pub open spec fn shown_route(
    devices: DeviceListView,
    routes: Seq<RouteReadingView>,
    pid: u32,
    flow: Flow,
) -> Option<RouteTargetView> {
    match route_of(routes, pid, flow) {
        Ok(Some(id)) => Some(target_for(devices, id)),
        _ => None,
    }
}

/// A row of the list under the lower-case name of its process.
pub type KeyedRowView = (Seq<char>, AppSessionRowView);

/// The row of a process that runs.
pub open spec fn row_of(
    playback: DeviceListView,
    recording: DeviceListView,
    procs: Seq<IdentifiedView>,
    routes: Seq<RouteReadingView>,
    sessions: Seq<(u32, bool)>,
    pid: u32,
) -> Option<KeyedRowView> {
    match identified_with_pid(procs, pid) {
        None => None,
        Some(process) => Some(
            (
                process.name_lower,
                AppSessionRowView {
                    pid,
                    process_name: process.info.name,
                    executable_path: process.info.exe,
                    playing: plays(sessions, pid),
                    output: shown_route(playback, routes, pid, Flow::Output),
                    input: shown_route(recording, routes, pid, Flow::Input),
                },
            ),
        ),
    }
}

/// The rows of the processes that have a session and run, in the order of
/// their first session.
pub open spec fn unsorted_rows(
    playback: DeviceListView,
    recording: DeviceListView,
    procs: Seq<IdentifiedView>,
    routes: Seq<RouteReadingView>,
    sessions: Seq<(u32, bool)>,
) -> Seq<KeyedRowView> {
    distinct_pids(sessions).filter_map(
        |pid: u32| row_of(playback, recording, procs, routes, sessions, pid),
    )
}

/// Order of the rows: by lower-case name, then by process number.
pub open spec fn row_le(a: KeyedRowView, b: KeyedRowView) -> bool {
    if a.0 == b.0 {
        a.1.pid <= b.1.pid
    } else {
        text_le(a.0, b.0)
    }
}

/// `sorted` holds the rows in their order.
pub open spec fn rows_in_order(rows: Seq<KeyedRowView>, sorted: Seq<KeyedRowView>) -> bool {
    stably_ordered(rows, sorted, |a: KeyedRowView, b: KeyedRowView| row_le(a, b))
}

/// `listed` are the rows in their order.
pub open spec fn is_row_list(rows: Seq<KeyedRowView>, listed: Seq<AppSessionRowView>) -> bool {
    exists|sorted: Seq<KeyedRowView>| #[trigger]
        rows_in_order(rows, sorted) && listed == sorted.map_values(|row: KeyedRowView| row.1)
}

impl Ranked for (String, AppSessionRow) {
    open spec fn le(a: KeyedRowView, b: KeyedRowView) -> bool {
        row_le(a, b)
    }

    proof fn le_total(a: KeyedRowView, b: KeyedRowView) {
        text::text_le_total(a.0, b.0);
    }

    proof fn le_transitive(a: KeyedRowView, b: KeyedRowView, c: KeyedRowView) {
        if a.0 != b.0 && b.0 != c.0 {
            text::text_le_transitive(a.0, b.0, c.0);
            if a.0 == c.0 {
                text::text_le_antisymmetric(a.0, b.0);
            }
        }
    }

    fn ranks_at_most(&self, other: &Self) -> (r: bool) {
        if self.0 == other.0 {
            self.1.pid <= other.1.pid
        } else {
            text::at_most(self.0.as_str(), other.0.as_str())
        }
    }
}

fn is_playing(sessions: &Vec<(u32, bool)>, pid: u32) -> (r: bool)
    ensures
        r == plays(sessions@, pid),
{
    let mut i: usize = 0;
    while i < sessions.len()
        invariant
            i <= sessions@.len(),
            forall|j: int| 0 <= j < i ==> !((#[trigger] sessions@[j]).0 == pid && sessions@[j].1),
        decreases sessions@.len() - i,
    {
        if sessions[i].0 == pid && sessions[i].1 {
            return true;
        }
        i += 1;
    }
    false
}

fn route_to_show(
    devices: &DeviceList,
    routes: &Vec<RouteReading>,
    pid: u32,
    flow: Flow,
) -> (r: Option<RouteTarget>)
    ensures
        r.deep_view() == shown_route(devices.deep_view(), routes.deep_view(), pid, flow),
{
    match read_route(routes, pid, flow) {
        Ok(Some(id)) => {
            let device_name = device_name(devices, id.as_str());
            Some(RouteTarget { device_id: id, device_name })
        },
        _ => None,
    }
}

/// The applications with audio, from processes whose lower-case paths and
/// names are known.
pub fn list_identified(
    playback_devices: &DeviceList,
    recording_devices: &DeviceList,
    procs: &Vec<Identified>,
    routes: &Vec<RouteReading>,
    sessions: &Vec<(u32, bool)>,
) -> (r: Vec<AppSessionRow>)
    ensures
        is_row_list(
            unsorted_rows(
                playback_devices.deep_view(),
                recording_devices.deep_view(),
                procs.deep_view(),
                routes.deep_view(),
                sessions@,
            ),
            r.deep_view(),
        ),
{
    let pids = session_pids(sessions);
    let ghost f = |pid: u32|
        row_of(
            playback_devices.deep_view(),
            recording_devices.deep_view(),
            procs.deep_view(),
            routes.deep_view(),
            sessions@,
            pid,
        );
    let mut rows: Vec<(String, AppSessionRow)> = Vec::new();
    assert(rows.deep_view() =~= Seq::<KeyedRowView>::empty());
    let mut i: usize = 0;
    while i < pids.len()
        invariant
            i <= pids@.len(),
            f == (|pid: u32|
                row_of(
                    playback_devices.deep_view(),
                    recording_devices.deep_view(),
                    procs.deep_view(),
                    routes.deep_view(),
                    sessions@,
                    pid,
                )),
            rows.deep_view() == pids@.take(i as int).filter_map(f),
        decreases pids@.len() - i,
    {
        let pid: u32 = pids[i];
        let ghost before = rows.deep_view();
        proof {
            pids@.lemma_filter_map_take_succ(f, i as int);
        }
        match position_of_identified(procs, pid) {
            None => {},
            Some(at) => {
                let process = &procs[at];
                let row = AppSessionRow {
                    pid,
                    process_name: process.info.name.clone(),
                    executable_path: copy_option(&process.info.exe),
                    playing: is_playing(sessions, pid),
                    output: route_to_show(playback_devices, routes, pid, Flow::Output),
                    input: route_to_show(recording_devices, routes, pid, Flow::Input),
                };
                rows.push((process.name_lower.clone(), row));
                assert(rows.deep_view() =~= before.push(f(pid)->Some_0));
            },
        }
        i += 1;
    }
    assert(pids@.take(i as int) == pids@);
    let ghost unsorted = rows.deep_view();
    let sorted = stable_sort(rows);
    proof {
        assert((|a: KeyedRowView, b: KeyedRowView| row_le(a, b)) =~= (|
            a: KeyedRowView,
            b: KeyedRowView,
        | <(String, AppSessionRow) as Ranked>::le(a, b)));
        assert(rows_in_order(unsorted, sorted.deep_view()));
    }
    let ghost all = sorted@;
    let mut listed: Vec<AppSessionRow> = Vec::new();
    for row in it: sorted
        invariant
            it.seq() == all,
            listed@.len() == it.index(),
            forall|j: int| 0 <= j < it.index() ==> #[trigger] listed@[j] == all[j].1,
    {
        listed.push(row.1);
    }
    assert(listed.deep_view() =~= sorted.deep_view().map_values(|row: KeyedRowView| row.1));
    listed
}

/// `listed` are the rows of the applications that have audio, in their order.
pub open spec fn is_listing(
    playback: DeviceListView,
    recording: DeviceListView,
    reading: RoutingReading,
    listed: Seq<AppSessionRowView>,
) -> bool {
    is_row_list(
        unsorted_rows(
            playback,
            recording,
            all_identified(reading.processes.deep_view()),
            reading.routes.deep_view(),
            heard(sessions_view(reading.output_sessions)) + heard(
                sessions_view(reading.input_sessions),
            ),
        ),
        listed,
    )
}

/// Lists the applications that have audio, with their routes. `reading` is what
/// was read on the engine's thread, or why that thread could not be reached.
pub fn list_active_app_routes(
    playback_devices: &DeviceList,
    recording_devices: &DeviceList,
    reading: &Result<RoutingReading, String>,
) -> (r: Result<Vec<AppSessionRow>, String>)
    ensures
        match (*reading, r) {
            (Err(reason), Err(message)) => message@ == reason@,
            (Ok(reading), Err(message)) => reading.activation is Err && message@
                == reading.activation->Err_0@,
            (Ok(reading), Ok(listed)) => reading.activation is Ok && is_listing(
                playback_devices.deep_view(),
                recording_devices.deep_view(),
                reading,
                listed.deep_view(),
            ),
            (Err(_), Ok(_)) => false,
        },
{
    match reading {
        Err(reason) => Err(reason.clone()),
        Ok(reading) => match &reading.activation {
            Err(reason) => Err(reason.clone()),
            Ok(_) => {
                let procs = identify(&reading.processes);
                let sessions = all_sessions(&reading.output_sessions, &reading.input_sessions);
                Ok(
                    list_identified(
                        playback_devices,
                        recording_devices,
                        &procs,
                        &reading.routes,
                        &sessions,
                    ),
                )
            },
        },
    }
}

proof fn row_pids_follow(
    playback: DeviceListView,
    recording: DeviceListView,
    procs: Seq<IdentifiedView>,
    routes: Seq<RouteReadingView>,
    sessions: Seq<(u32, bool)>,
    pids: Seq<u32>,
)
    requires
        pids.no_duplicates(),
    ensures
        ({
            let rows = pids.filter_map(
                |pid: u32| row_of(playback, recording, procs, routes, sessions, pid),
            );
            &&& forall|i: int|
                0 <= i < rows.len() ==> pids.contains((#[trigger] rows[i]).1.pid)
            &&& forall|i: int, j: int|
                0 <= i < j < rows.len() ==> (#[trigger] rows[i]).1.pid != (
                #[trigger] rows[j]).1.pid
        }),
    decreases pids.len(),
{
    let f = |pid: u32| row_of(playback, recording, procs, routes, sessions, pid);
    if pids.len() > 0 {
        let init = pids.drop_last();
        row_pids_follow(playback, recording, procs, routes, sessions, init);
        assert(pids.take(pids.len() as int) == pids);
        assert(pids.take(pids.len() - 1) == init);
        pids.lemma_filter_map_take_succ(f, pids.len() - 1);
        let before = init.filter_map(f);
        let rows = pids.filter_map(f);
        assert forall|i: int| 0 <= i < rows.len() implies pids.contains(
            (#[trigger] rows[i]).1.pid,
        ) by {
            if i < before.len() {
                assert(rows[i] == before[i]);
                let k = choose|k: int| 0 <= k < init.len() && init[k] == before[i].1.pid;
                assert(pids[k] == rows[i].1.pid);
            } else {
                assert(pids[pids.len() - 1] == rows[i].1.pid);
            }
        }
        assert forall|i: int, j: int| 0 <= i < j < rows.len() implies (#[trigger] rows[i]).1.pid
            != (#[trigger] rows[j]).1.pid by {
            assert(rows[i] == before[i]);
            if j < before.len() {
                assert(rows[j] == before[j]);
            } else {
                assert(rows[j].1.pid == pids.last());
                let k = choose|k: int| 0 <= k < init.len() && init[k] == before[i].1.pid;
                assert(pids[k] == rows[i].1.pid);
            }
        }
    }
}

/// A process is listed at most once, and only where it has a session.
pub proof fn listed_processes_are_distinct(
    playback: DeviceListView,
    recording: DeviceListView,
    procs: Seq<IdentifiedView>,
    routes: Seq<RouteReadingView>,
    sessions: Seq<(u32, bool)>,
)
    ensures
        ({
            let rows = unsorted_rows(playback, recording, procs, routes, sessions);
            &&& forall|i: int|
                0 <= i < rows.len() ==> exists|k: int|
                    0 <= k < sessions.len() && (#[trigger] sessions[k]).0 == (
                    #[trigger] rows[i]).1.pid
            &&& forall|i: int, j: int|
                0 <= i < j < rows.len() ==> (#[trigger] rows[i]).1.pid != (
                #[trigger] rows[j]).1.pid
        }),
{
    let pids = distinct_pids(sessions);
    crate::app_routing::sessions::distinct_pids_are_the_pids(sessions);
    row_pids_follow(playback, recording, procs, routes, sessions, pids);
    let rows = unsorted_rows(playback, recording, procs, routes, sessions);
    assert forall|i: int| 0 <= i < rows.len() implies exists|k: int|
        0 <= k < sessions.len() && (#[trigger] sessions[k]).0 == (#[trigger] rows[i]).1.pid by {
        assert(pids.contains(rows[i].1.pid));
    }
}

/// The sessions of both flows, those that could not be read left out.
pub fn all_sessions(
    output_sessions: &Result<Vec<(u32, bool)>, String>,
    input_sessions: &Result<Vec<(u32, bool)>, String>,
) -> (r: Vec<(u32, bool)>)
    ensures
        r@ == heard(sessions_view(*output_sessions)) + heard(sessions_view(*input_sessions)),
{
    let mut out: Vec<(u32, bool)> = Vec::new();
    match output_sessions {
        Ok(entries) => {
            let mut i: usize = 0;
            while i < entries.len()
                invariant
                    i <= entries@.len(),
                    out@ == entries@.take(i as int),
                decreases entries@.len() - i,
            {
                out.push(entries[i]);
                i += 1;
                assert(entries@.take(i as int) == entries@.take(i - 1).push(entries@[i - 1]));
            }
            assert(entries@.take(i as int) == entries@);
        },
        Err(_) => {},
    }
    let ghost first = out@;
    match input_sessions {
        Ok(entries) => {
            let mut i: usize = 0;
            assert(out@ == first + entries@.take(0));
            while i < entries.len()
                invariant
                    i <= entries@.len(),
                    out@ == first + entries@.take(i as int),
                decreases entries@.len() - i,
            {
                out.push(entries[i]);
                i += 1;
                assert(first + entries@.take(i as int) == (first + entries@.take(i - 1)).push(
                    entries@[i - 1],
                ));
            }
            assert(entries@.take(i as int) == entries@);
        },
        Err(_) => {
            assert(first + Seq::<(u32, bool)>::empty() == first);
        },
    }
    out
}

} // verus!
