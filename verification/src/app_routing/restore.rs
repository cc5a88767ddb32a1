//! Previewing and restoring the routes that a profile stores.

use crate::app_routing::profile_apps::{
    copy_option, device_known, match_processes, AppPreviewRow, AppPreviewRowView, ApplicationEntry,
    ApplicationEntryView, ProcInfo, ProcInfoView, ProcessMatch, RestoreReport, RestoreReportView,
    RouteTarget, RouteTargetView, TargetPreview, TargetPreviewView,
};
use crate::app_routing::{DeviceList, DeviceListView, Flow};
use crate::text;
use vstd::prelude::*;

use crate::app_routing::flow_label;
use crate::app_routing::profile_apps::{matched_processes, target_known};
use crate::text::decimal;

verus! {

// ---------------------------------------------------------------------------
// Preview
// ---------------------------------------------------------------------------

/// What previewing shows of one route.
pub open spec fn target_preview(target: Option<RouteTargetView>, devices: DeviceListView) -> Option<
    TargetPreviewView,
> {
    match target {
        Some(target) => Some(
            TargetPreviewView {
                device_id: target.device_id,
                device_name: target.device_name,
                present: target_known(devices, target),
            },
        ),
        None => None,
    }
}

/// What previewing shows of one application.
pub open spec fn preview_row(
    entry: ApplicationEntryView,
    running: Seq<ProcInfoView>,
    playback: DeviceListView,
    recording: DeviceListView,
) -> AppPreviewRowView {
    AppPreviewRowView {
        process_name: entry.process_name,
        executable_path: entry.executable_path,
        running: matched_processes(entry, running).0.len() > 0,
        output: target_preview(entry.output, playback),
        input: target_preview(entry.input, recording),
    }
}

/// What previewing shows of the entries of a profile.
pub open spec fn preview_rows(
    entries: Seq<ApplicationEntryView>,
    running: Seq<ProcInfoView>,
    playback: DeviceListView,
    recording: DeviceListView,
) -> Seq<AppPreviewRowView> {
    entries.map_values(|e: ApplicationEntryView| preview_row(e, running, playback, recording))
}

fn preview_target(target: &Option<RouteTarget>, devices: &DeviceList) -> (r: Option<TargetPreview>)
    ensures
        r.deep_view() == target_preview(target.deep_view(), devices.deep_view()),
{
    match target {
        Some(target) => Some(
            TargetPreview {
                present: device_known(devices, target),
                device_id: target.device_id.clone(),
                device_name: copy_option(&target.device_name),
            },
        ),
        None => None,
    }
}

/// Previews the entries of a profile: which applications run and which devices
/// are there.
pub fn preview_entries(
    entries: &Vec<ApplicationEntry>,
    running: &Vec<ProcInfo>,
    playback_devices: &DeviceList,
    recording_devices: &DeviceList,
) -> (r: Vec<AppPreviewRow>)
    ensures
        r.deep_view() == preview_rows(
            entries.deep_view(),
            running.deep_view(),
            playback_devices.deep_view(),
            recording_devices.deep_view(),
        ),
{
    let mut rows: Vec<AppPreviewRow> = Vec::new();
    let mut i: usize = 0;
    while i < entries.len()
        invariant
            i <= entries@.len(),
            rows@.len() == i,
            forall|j: int|
                0 <= j < i ==> (#[trigger] rows@[j]).deep_view() == preview_row(
                    entries@[j].deep_view(),
                    running.deep_view(),
                    playback_devices.deep_view(),
                    recording_devices.deep_view(),
                ),
        decreases entries@.len() - i,
    {
        let entry = &entries[i];
        let (processes, _) = match_processes(entry, running);
        assert(processes.deep_view().len() == processes@.len());
        rows.push(
            AppPreviewRow {
                process_name: entry.process_name.clone(),
                executable_path: copy_option(&entry.executable_path),
                running: processes.len() > 0,
                output: preview_target(&entry.output, playback_devices),
                input: preview_target(&entry.input, recording_devices),
            },
        );
        i += 1;
    }
    assert(rows.deep_view() =~= preview_rows(
        entries.deep_view(),
        running.deep_view(),
        playback_devices.deep_view(),
        recording_devices.deep_view(),
    ));
    rows
}

// ---------------------------------------------------------------------------
// Restoring: which routes to write
// ---------------------------------------------------------------------------

/// A route to write.
#[derive(Debug)]
pub struct RouteWrite {
    pub pid: u32,
    pub flow: Flow,
    pub device_id: String,
}

/// A route to write, as contracts speak of it.
pub struct RouteWriteView {
    pub pid: u32,
    pub flow: Flow,
    pub device_id: Seq<char>,
}

impl DeepView for RouteWrite {
    type V = RouteWriteView;

    open spec fn deep_view(&self) -> RouteWriteView {
        RouteWriteView { pid: self.pid, flow: self.flow, device_id: self.device_id@ }
    }
}

/// What is known of the machine when routes are restored.
pub struct RestoreContext {
    pub running: Seq<ProcInfoView>,
    pub playback: DeviceListView,
    pub recording: DeviceListView,
}

/// The stored target of one flow.
pub open spec fn target_of(entry: ApplicationEntryView, flow: Flow) -> Option<RouteTargetView> {
    match flow {
        Flow::Output => entry.output,
        Flow::Input => entry.input,
    }
}

/// The devices of one flow.
pub open spec fn devices_of(context: RestoreContext, flow: Flow) -> DeviceListView {
    match flow {
        Flow::Output => context.playback,
        Flow::Input => context.recording,
    }
}

/// The writes that restore one flow of an application: one for each of its
/// processes, where a target is stored and its device is there.
pub open spec fn flow_writes(
    context: RestoreContext,
    entry: ApplicationEntryView,
    flow: Flow,
) -> Seq<RouteWriteView> {
    match target_of(entry, flow) {
        Some(target) => if target_known(devices_of(context, flow), target) {
            matched_processes(entry, context.running).0.map_values(
                |p: ProcInfoView|
                    RouteWriteView { pid: p.pid, flow, device_id: target.device_id },
            )
        } else {
            Seq::empty()
        },
        None => Seq::empty(),
    }
}

/// The writes that restore an application: its output, then its input.
pub open spec fn entry_writes(
    context: RestoreContext,
    entry: ApplicationEntryView,
) -> Seq<RouteWriteView> {
    flow_writes(context, entry, Flow::Output) + flow_writes(context, entry, Flow::Input)
}

/// The writes that restore the entries of a profile, in order.
pub open spec fn all_writes(
    context: RestoreContext,
    entries: Seq<ApplicationEntryView>,
) -> Seq<RouteWriteView>
    decreases entries.len(),
{
    if entries.len() == 0 {
        Seq::empty()
    } else {
        all_writes(context, entries.drop_last()) + entry_writes(context, entries.last())
    }
}

fn push_flow_writes(
    writes: &mut Vec<RouteWrite>,
    processes: &Vec<ProcInfo>,
    flow: Flow,
    target: &Option<RouteTarget>,
    devices: &DeviceList,
)
    ensures
        final(writes).deep_view() == old(writes).deep_view() + (match target.deep_view() {
            Some(target) => if target_known(devices.deep_view(), target) {
                processes.deep_view().map_values(
                    |p: ProcInfoView|
                        RouteWriteView { pid: p.pid, flow, device_id: target.device_id },
                )
            } else {
                Seq::empty()
            },
            None => Seq::empty(),
        }),
{
    let ghost start = writes.deep_view();
    assert(start + Seq::<RouteWriteView>::empty() == start);
    match target {
        None => {},
        Some(target) => {
            if device_known(devices, target) {
                let ghost wanted = processes.deep_view().map_values(
                    |p: ProcInfoView|
                        RouteWriteView { pid: p.pid, flow, device_id: target.device_id@ },
                );
                let mut i: usize = 0;
                assert(start + wanted.take(0) == start);
                while i < processes.len()
                    invariant
                        i <= processes@.len(),
                        wanted == processes.deep_view().map_values(
                            |p: ProcInfoView|
                                RouteWriteView { pid: p.pid, flow, device_id: target.device_id@ },
                        ),
                        writes.deep_view() == start + wanted.take(i as int),
                    decreases processes@.len() - i,
                {
                    let ghost before = writes.deep_view();
                    writes.push(
                        RouteWrite {
                            pid: processes[i].pid,
                            flow,
                            device_id: target.device_id.clone(),
                        },
                    );
                    i += 1;
                    assert(writes.deep_view() =~= before.push(wanted[i - 1]));
                    assert(start + wanted.take(i as int) =~= (start + wanted.take(i - 1)).push(
                        wanted[i - 1],
                    ));
                }
                assert(wanted.take(i as int) == wanted);
            }
        },
    }
}

/// The routes to write to restore the entries of a profile, in order.
pub fn route_writes(
    entries: &Vec<ApplicationEntry>,
    running: &Vec<ProcInfo>,
    playback_devices: &DeviceList,
    recording_devices: &DeviceList,
) -> (r: Vec<RouteWrite>)
    ensures
        r.deep_view() == all_writes(
            (RestoreContext {
                running: running.deep_view(),
                playback: playback_devices.deep_view(),
                recording: recording_devices.deep_view(),
            }),
            entries.deep_view(),
        ),
{
    let ghost context = RestoreContext {
        running: running.deep_view(),
        playback: playback_devices.deep_view(),
        recording: recording_devices.deep_view(),
    };
    let mut writes: Vec<RouteWrite> = Vec::new();
    let mut i: usize = 0;
    assert(writes.deep_view() =~= Seq::<RouteWriteView>::empty());
    while i < entries.len()
        invariant
            i <= entries@.len(),
            context == (RestoreContext {
                running: running.deep_view(),
                playback: playback_devices.deep_view(),
                recording: recording_devices.deep_view(),
            }),
            writes.deep_view() == all_writes(context, entries.deep_view().take(i as int)),
        decreases entries@.len() - i,
    {
        let ghost before = writes.deep_view();
        let entry = &entries[i];
        let (processes, _) = match_processes(entry, running);
        push_flow_writes(&mut writes, &processes, Flow::Output, &entry.output, playback_devices);
        push_flow_writes(&mut writes, &processes, Flow::Input, &entry.input, recording_devices);
        proof {
            let done = entries.deep_view().take(i + 1);
            assert(done.drop_last() == entries.deep_view().take(i as int));
            assert(done.last() == entries@[i as int].deep_view());
            assert(writes.deep_view() =~= before + entry_writes(context, entry.deep_view()));
        }
        i += 1;
    }
    assert(entries.deep_view().take(i as int) == entries.deep_view());
    writes
}

// ---------------------------------------------------------------------------
// Restoring: what is reported
// ---------------------------------------------------------------------------

/// Outcome of a write, as contracts speak of it.
pub open spec fn outcome_view(outcome: Result<(), String>) -> Result<(), Seq<char>> {
    match outcome {
        Ok(_) => Ok(()),
        Err(reason) => Err(reason@),
    }
}

/// Outcomes of writes, as contracts speak of them.
pub open spec fn outcomes_view(outcomes: Seq<Result<(), String>>) -> Seq<Result<(), Seq<char>>> {
    outcomes.map_values(|outcome: Result<(), String>| outcome_view(outcome))
}

/// What a report calls an application: its name, or its path where it has no
/// name.
pub open spec fn entry_label(entry: ApplicationEntryView) -> Seq<char> {
    if entry.process_name.len() > 0 {
        entry.process_name
    } else {
        match entry.executable_path {
            Some(path) => path,
            None => "application inconnue"@,
        }
    }
}

/// Report of an application that does not run.
pub open spec fn not_running(label: Seq<char>) -> Seq<char> {
    "Application non active : "@ + label
}

/// Report of an application that was found by its name only.
pub open spec fn found_by_name(label: Seq<char>) -> Seq<char> {
    label + " : chemin différent, correspondance par nom utilisée."@
}

/// Report of a device that is not there.
pub open spec fn device_missing(
    label: Seq<char>,
    flow: Flow,
    target: RouteTargetView,
) -> Seq<char> {
    label + " — "@ + flow_label(flow) + " introuvable : "@ + (match target.device_name {
        Some(name) => name,
        None => target.device_id,
    })
}

/// Report of a write that failed.
pub open spec fn not_restored(
    label: Seq<char>,
    pid: u32,
    flow: Flow,
    reason: Seq<char>,
) -> Seq<char> {
    label + " (PID "@ + decimal(pid as nat) + ") — "@ + flow_label(flow) + " non restaurée : "@
        + reason
}

/// Reports of the writes that failed, in order.
pub open spec fn write_errors(
    label: Seq<char>,
    flow: Flow,
    processes: Seq<ProcInfoView>,
    outcomes: Seq<Result<(), Seq<char>>>,
) -> Seq<Seq<char>>
    decreases processes.len(),
{
    if processes.len() == 0 {
        Seq::empty()
    } else {
        let before = write_errors(label, flow, processes.drop_last(), outcomes);
        match outcomes[processes.len() - 1] {
            Ok(_) => before,
            Err(reason) => before.push(not_restored(label, processes.last().pid, flow, reason)),
        }
    }
}

/// The report after one flow of an application; `outcomes` are those of its
/// writes. The flow counts as applied where none of them failed.
pub open spec fn flow_report(
    context: RestoreContext,
    report: RestoreReportView,
    entry: ApplicationEntryView,
    flow: Flow,
    outcomes: Seq<Result<(), Seq<char>>>,
) -> RestoreReportView {
    let label = entry_label(entry);
    match target_of(entry, flow) {
        None => report,
        Some(target) => if !target_known(devices_of(context, flow), target) {
            RestoreReportView {
                missing: report.missing.push(device_missing(label, flow, target)),
                ..report
            }
        } else {
            let failed = write_errors(
                label,
                flow,
                matched_processes(entry, context.running).0,
                outcomes,
            );
            RestoreReportView {
                errors: report.errors + failed,
                applied: report.applied + (if failed.len() == 0 {
                    1int
                } else {
                    0int
                }),
                ..report
            }
        },
    }
}

/// The report after one application; `outcomes` are those of its writes.
pub open spec fn entry_report(
    context: RestoreContext,
    report: RestoreReportView,
    entry: ApplicationEntryView,
    outcomes: Seq<Result<(), Seq<char>>>,
) -> RestoreReportView {
    let label = entry_label(entry);
    let (processes, how) = matched_processes(entry, context.running);
    if processes.len() == 0 {
        RestoreReportView { missing: report.missing.push(not_running(label)), ..report }
    } else {
        let warned = if how == ProcessMatch::Name && entry.executable_path is Some {
            RestoreReportView { warnings: report.warnings.push(found_by_name(label)), ..report }
        } else {
            report
        };
        let split = flow_writes(context, entry, Flow::Output).len() as int;
        let played = flow_report(context, warned, entry, Flow::Output, outcomes.take(split));
        flow_report(context, played, entry, Flow::Input, outcomes.skip(split))
    }
}

/// The report of restoring some entries; `outcomes` are those of all their
/// writes, in order.
pub open spec fn full_report(
    context: RestoreContext,
    entries: Seq<ApplicationEntryView>,
    outcomes: Seq<Result<(), Seq<char>>>,
) -> RestoreReportView
    decreases entries.len(),
{
    if entries.len() == 0 {
        RestoreReportView {
            applied: 0,
            missing: Seq::empty(),
            warnings: Seq::empty(),
            errors: Seq::empty(),
        }
    } else {
        let split = all_writes(context, entries.drop_last()).len() as int;
        entry_report(
            context,
            full_report(context, entries.drop_last(), outcomes.take(split)),
            entries.last(),
            outcomes.skip(split),
        )
    }
}

fn label_of(entry: &ApplicationEntry) -> (r: String)
    ensures
        r@ == entry_label(entry.deep_view()),
{
    if !entry.process_name.as_str().is_empty() {
        entry.process_name.clone()
    } else {
        match &entry.executable_path {
            Some(path) => path.clone(),
            None => text::owned("application inconnue"),
        }
    }
}

fn push_text(list: &mut Vec<String>, item: String)
    ensures
        final(list).deep_view() == old(list).deep_view().push(item@),
{
    let ghost before = list.deep_view();
    list.push(item);
    assert(list.deep_view() =~= before.push(item@));
}

fn report_flow(
    report: &mut RestoreReport,
    label: &str,
    processes: &Vec<ProcInfo>,
    flow: Flow,
    outcomes: &Vec<Result<(), String>>,
    start: usize,
)
    requires
        old(report).applied < u32::MAX,
        start + processes@.len() <= outcomes@.len(),
    ensures
        ({
            let failed = write_errors(
                label@,
                flow,
                processes.deep_view(),
                outcomes_view(outcomes@).skip(start as int),
            );
            final(report).deep_view() == (RestoreReportView {
                errors: old(report).deep_view().errors + failed,
                applied: old(report).deep_view().applied + (if failed.len() == 0 {
                    1int
                } else {
                    0int
                }),
                ..old(report).deep_view()
            })
        }),
{
    let ghost initial = report.deep_view();
    let ghost wanted = outcomes_view(outcomes@).skip(start as int);
    let total: usize = outcomes.len();
    let mut ok = true;
    let mut i: usize = 0;
    assert(initial.errors + Seq::<Seq<char>>::empty() == initial.errors);
    while i < processes.len()
        invariant
            i <= processes@.len(),
            total == outcomes@.len(),
            start + processes@.len() <= total,
            wanted == outcomes_view(outcomes@).skip(start as int),
            report.deep_view() == (RestoreReportView {
                errors: initial.errors + write_errors(
                    label@,
                    flow,
                    processes.deep_view().take(i as int),
                    wanted,
                ),
                ..initial
            }),
            report.applied < u32::MAX,
            ok == (write_errors(
                label@,
                flow,
                processes.deep_view().take(i as int),
                wanted,
            ).len() == 0),
        decreases processes@.len() - i,
    {
        proof {
            let done = processes.deep_view().take(i + 1);
            assert(done.drop_last() == processes.deep_view().take(i as int));
            assert(done.last() == processes@[i as int].deep_view());
            assert(wanted[i as int] == outcome_view(outcomes@[start + i]));
        }
        match &outcomes[start + i] {
            Ok(_) => {},
            Err(reason) => {
                let mut message = text::owned(label);
                message.append(" (PID ");
                message.append(text::decimal_text(processes[i].pid as u64).as_str());
                message.append(") — ");
                message.append(flow.label());
                message.append(" non restaurée : ");
                message.append(reason.as_str());
                push_text(&mut report.errors, message);
                ok = false;
            },
        }
        i += 1;
    }
    assert(processes.deep_view().take(i as int) == processes.deep_view());
    if ok {
        report.applied = report.applied + 1;
    }
}

proof fn write_errors_looks_at_its_outcomes(
    label: Seq<char>,
    flow: Flow,
    processes: Seq<ProcInfoView>,
    a: Seq<Result<(), Seq<char>>>,
    b: Seq<Result<(), Seq<char>>>,
)
    requires
        processes.len() <= a.len(),
        processes.len() <= b.len(),
        forall|i: int| 0 <= i < processes.len() ==> a[i] == b[i],
    ensures
        write_errors(label, flow, processes, a) == write_errors(label, flow, processes, b),
    decreases processes.len(),
{
    if processes.len() > 0 {
        write_errors_looks_at_its_outcomes(label, flow, processes.drop_last(), a, b);
    }
}

/// What was read and done on the engine's thread to restore routes: running
/// processes, the outcome of activating the engine, and the outcome of each
/// write of `route_writes`.
#[derive(Debug)]
pub struct RestoreReading {
    pub running: Vec<ProcInfo>,
    pub activation: Result<(), String>,
    pub outcomes: Vec<Result<(), String>>,
}

fn report_target(
    report: &mut RestoreReport,
    entry: &ApplicationEntry,
    processes: &Vec<ProcInfo>,
    flow: Flow,
    devices: &DeviceList,
    outcomes: &Vec<Result<(), String>>,
    start: usize,
    Ghost(context): Ghost<RestoreContext>,
) -> (r: usize)
    requires
        old(report).applied < u32::MAX,
        devices.deep_view() == devices_of(context, flow),
        processes.deep_view() == matched_processes(entry.deep_view(), context.running).0,
        start + flow_writes(context, entry.deep_view(), flow).len() <= outcomes@.len(),
    ensures
        final(report).deep_view() == flow_report(
            context,
            old(report).deep_view(),
            entry.deep_view(),
            flow,
            outcomes_view(outcomes@).skip(start as int),
        ),
        final(report).applied <= old(report).applied + 1,
        r == start + flow_writes(context, entry.deep_view(), flow).len(),
{
    let target = match flow {
        Flow::Output => &entry.output,
        Flow::Input => &entry.input,
    };
    match target {
        None => start,
        Some(target) => {
            let label = label_of(entry);
            if !device_known(devices, target) {
                let mut message = label;
                message.append(" — ");
                message.append(flow.label());
                message.append(" introuvable : ");
                match &target.device_name {
                    Some(name) => message.append(name.as_str()),
                    None => message.append(target.device_id.as_str()),
                }
                push_text(&mut report.missing, message);
                start
            } else {
                let total: usize = outcomes.len();
                report_flow(report, label.as_str(), processes, flow, outcomes, start);
                assert(start + processes@.len() <= total);
                start + processes.len()
            }
        },
    }
}

proof fn flow_report_looks_at_its_outcomes(
    context: RestoreContext,
    report: RestoreReportView,
    entry: ApplicationEntryView,
    flow: Flow,
    a: Seq<Result<(), Seq<char>>>,
    b: Seq<Result<(), Seq<char>>>,
)
    requires
        flow_writes(context, entry, flow).len() <= a.len(),
        flow_writes(context, entry, flow).len() <= b.len(),
        forall|i: int| 0 <= i < flow_writes(context, entry, flow).len() ==> a[i] == b[i],
    ensures
        flow_report(context, report, entry, flow, a) == flow_report(
            context,
            report,
            entry,
            flow,
            b,
        ),
{
    write_errors_looks_at_its_outcomes(
        entry_label(entry),
        flow,
        if flow_writes(context, entry, flow).len() > 0 {
            matched_processes(entry, context.running).0
        } else {
            Seq::empty()
        },
        a,
        b,
    );
}

fn report_entry(
    report: &mut RestoreReport,
    entry: &ApplicationEntry,
    running: &Vec<ProcInfo>,
    playback_devices: &DeviceList,
    recording_devices: &DeviceList,
    outcomes: &Vec<Result<(), String>>,
    start: usize,
    Ghost(context): Ghost<RestoreContext>,
) -> (r: usize)
    requires
        old(report).applied + 2 <= u32::MAX,
        context == (RestoreContext {
            running: running.deep_view(),
            playback: playback_devices.deep_view(),
            recording: recording_devices.deep_view(),
        }),
        start + entry_writes(context, entry.deep_view()).len() <= outcomes@.len(),
    ensures
        final(report).deep_view() == entry_report(
            context,
            old(report).deep_view(),
            entry.deep_view(),
            outcomes_view(outcomes@).skip(start as int),
        ),
        final(report).applied <= old(report).applied + 2,
        r == start + entry_writes(context, entry.deep_view()).len(),
{
    let (processes, how) = match_processes(entry, running);
    let ghost view = entry.deep_view();
    assert(processes.deep_view().len() == processes@.len());
    if processes.len() == 0 {
        let mut message = text::owned("Application non active : ");
        message.append(label_of(entry).as_str());
        push_text(&mut report.missing, message);
        return start;
    }
    match how {
        ProcessMatch::Name => {
            if entry.executable_path.is_some() {
                let mut message = label_of(entry);
                message.append(" : chemin différent, correspondance par nom utilisée.");
                push_text(&mut report.warnings, message);
            }
        },
        _ => {},
    }
    let ghost warned = report.deep_view();
    let ghost rest = outcomes_view(outcomes@).skip(start as int);
    let middle: usize = report_target(
        report,
        entry,
        &processes,
        Flow::Output,
        playback_devices,
        outcomes,
        start,
        Ghost(context),
    );
    proof {
        let split = flow_writes(context, view, Flow::Output).len() as int;
        flow_report_looks_at_its_outcomes(
            context,
            warned,
            view,
            Flow::Output,
            rest,
            rest.take(split),
        );
        assert(rest.skip(split) == outcomes_view(outcomes@).skip(middle as int));
    }
    report_target(
        report,
        entry,
        &processes,
        Flow::Input,
        recording_devices,
        outcomes,
        middle,
        Ghost(context),
    )
}

proof fn entry_report_looks_at_its_outcomes(
    context: RestoreContext,
    report: RestoreReportView,
    entry: ApplicationEntryView,
    a: Seq<Result<(), Seq<char>>>,
    b: Seq<Result<(), Seq<char>>>,
)
    requires
        entry_writes(context, entry).len() <= a.len(),
        entry_writes(context, entry).len() <= b.len(),
        forall|i: int| 0 <= i < entry_writes(context, entry).len() ==> a[i] == b[i],
    ensures
        entry_report(context, report, entry, a) == entry_report(context, report, entry, b),
{
    let label = entry_label(entry);
    let (processes, how) = matched_processes(entry, context.running);
    let warned = if how == ProcessMatch::Name && entry.executable_path is Some {
        RestoreReportView { warnings: report.warnings.push(found_by_name(label)), ..report }
    } else {
        report
    };
    let split = flow_writes(context, entry, Flow::Output).len() as int;
    flow_report_looks_at_its_outcomes(
        context,
        warned,
        entry,
        Flow::Output,
        a.take(split),
        b.take(split),
    );
    let played = flow_report(context, warned, entry, Flow::Output, a.take(split));
    flow_report_looks_at_its_outcomes(
        context,
        played,
        entry,
        Flow::Input,
        a.skip(split),
        b.skip(split),
    );
}

/// Reports on restoring the entries of a profile, once their routes were
/// written; `outcomes` has one outcome for each write of `route_writes`.
pub fn restore_report(
    entries: &Vec<ApplicationEntry>,
    running: &Vec<ProcInfo>,
    playback_devices: &DeviceList,
    recording_devices: &DeviceList,
    outcomes: &Vec<Result<(), String>>,
) -> (r: RestoreReport)
    requires
        2 * entries@.len() <= u32::MAX,
        outcomes@.len() == all_writes(
            (RestoreContext {
                running: running.deep_view(),
                playback: playback_devices.deep_view(),
                recording: recording_devices.deep_view(),
            }),
            entries.deep_view(),
        ).len(),
    ensures
        r.deep_view() == full_report(
            (RestoreContext {
                running: running.deep_view(),
                playback: playback_devices.deep_view(),
                recording: recording_devices.deep_view(),
            }),
            entries.deep_view(),
            outcomes_view(outcomes@),
        ),
{
    let ghost context = RestoreContext {
        running: running.deep_view(),
        playback: playback_devices.deep_view(),
        recording: recording_devices.deep_view(),
    };
    let ghost all = entries.deep_view();
    let ghost results = outcomes_view(outcomes@);
    let mut report = RestoreReport::default();
    assert(report.missing.deep_view() =~= Seq::<Seq<char>>::empty());
    assert(report.warnings.deep_view() =~= Seq::<Seq<char>>::empty());
    assert(report.errors.deep_view() =~= Seq::<Seq<char>>::empty());
    let mut start: usize = 0;
    let mut i: usize = 0;
    while i < entries.len()
        invariant
            i <= entries@.len(),
            2 * entries@.len() <= u32::MAX,
            report.applied <= 2 * i,
            context == (RestoreContext {
                running: running.deep_view(),
                playback: playback_devices.deep_view(),
                recording: recording_devices.deep_view(),
            }),
            all == entries.deep_view(),
            results == outcomes_view(outcomes@),
            outcomes@.len() == all_writes(context, all).len(),
            start == all_writes(context, all.take(i as int)).len(),
            start <= outcomes@.len(),
            report.deep_view() == full_report(
                context,
                all.take(i as int),
                results.take(start as int),
            ),
        decreases entries@.len() - i,
    {
        let ghost before = report.deep_view();
        let ghost done = all.take(i + 1);
        proof {
            assert(done.drop_last() == all.take(i as int));
            assert(done.last() == entries@[i as int].deep_view());
            writes_of_prefix_are_fewer(context, all, i + 1);
        }
        let next: usize = report_entry(
            &mut report,
            &entries[i],
            running,
            playback_devices,
            recording_devices,
            outcomes,
            start,
            Ghost(context),
        );
        proof {
            let mine = results.take(next as int);
            assert(mine.take(start as int) == results.take(start as int));
            entry_report_looks_at_its_outcomes(
                context,
                before,
                done.last(),
                results.skip(start as int),
                mine.skip(start as int),
            );
        }
        start = next;
        i += 1;
    }
    assert(all.take(i as int) == all);
    assert(results.take(start as int) == results);
    report
}

proof fn writes_of_prefix_are_fewer(
    context: RestoreContext,
    entries: Seq<ApplicationEntryView>,
    n: int,
)
    requires
        0 <= n <= entries.len(),
    ensures
        all_writes(context, entries.take(n)).len() <= all_writes(context, entries).len(),
    decreases entries.len(),
{
    if n == entries.len() {
        assert(entries.take(n) == entries);
    } else {
        assert(entries.take(n) == entries.drop_last().take(n));
        writes_of_prefix_are_fewer(context, entries.drop_last(), n);
    }
}

/// The outcomes that a reading must have to be reported on: one for each write.
pub open spec fn has_all_outcomes(
    entries: Seq<ApplicationEntryView>,
    playback: DeviceListView,
    recording: DeviceListView,
    reading: RestoreReading,
) -> bool {
    reading.activation is Ok ==> reading.outcomes@.len() == all_writes(
        RestoreContext { running: reading.running.deep_view(), playback, recording },
        entries,
    ).len()
}

/// The report of restoring entries on an engine that could be reached.
pub open spec fn engine_report(
    entries: Seq<ApplicationEntryView>,
    playback: DeviceListView,
    recording: DeviceListView,
    reading: RestoreReading,
) -> RestoreReportView {
    match reading.activation {
        Err(reason) => RestoreReportView {
            applied: 0,
            missing: seq![reason@],
            warnings: Seq::empty(),
            errors: Seq::empty(),
        },
        Ok(_) => full_report(
            RestoreContext { running: reading.running.deep_view(), playback, recording },
            entries,
            outcomes_view(reading.outcomes@),
        ),
    }
}

/// Reports on restoring the entries of a profile. `reading` is what was read
/// and done on the engine's thread, or why that thread could not be reached.
/// Without entries there is nothing to do and nothing to report.
pub fn restore_applications(
    entries: &Vec<ApplicationEntry>,
    playback_devices: &DeviceList,
    recording_devices: &DeviceList,
    reading: &Result<RestoreReading, String>,
) -> (r: Result<RestoreReport, String>)
    requires
        2 * entries@.len() <= u32::MAX,
        *reading matches Ok(done) ==> has_all_outcomes(
            entries.deep_view(),
            playback_devices.deep_view(),
            recording_devices.deep_view(),
            done,
        ),
    ensures
        match (r, *reading) {
            (Ok(report), Ok(done)) => report.deep_view() == (if entries@.len() == 0 {
                empty_report()
            } else {
                engine_report(
                    entries.deep_view(),
                    playback_devices.deep_view(),
                    recording_devices.deep_view(),
                    done,
                )
            }),
            (Ok(report), Err(_)) => entries@.len() == 0 && report.deep_view() == empty_report(),
            (Err(message), Err(reason)) => entries@.len() > 0 && message@ == reason@,
            (Err(_), Ok(_)) => false,
        },
{
    if entries.len() == 0 {
        let report = RestoreReport::default();
        assert(report.missing.deep_view() =~= Seq::<Seq<char>>::empty());
        assert(report.warnings.deep_view() =~= Seq::<Seq<char>>::empty());
        assert(report.errors.deep_view() =~= Seq::<Seq<char>>::empty());
        return Ok(report);
    }
    match reading {
        Err(reason) => Err(reason.clone()),
        Ok(done) => match &done.activation {
            Err(reason) => {
                let mut report = RestoreReport::default();
                assert(report.missing.deep_view() =~= Seq::<Seq<char>>::empty());
                assert(report.warnings.deep_view() =~= Seq::<Seq<char>>::empty());
                assert(report.errors.deep_view() =~= Seq::<Seq<char>>::empty());
                push_text(&mut report.missing, reason.clone());
                assert(report.missing.deep_view() =~= seq![reason@]);
                Ok(report)
            },
            Ok(_) => Ok(
                restore_report(
                    entries,
                    &done.running,
                    playback_devices,
                    recording_devices,
                    &done.outcomes,
                ),
            ),
        },
    }
}

/// A report with nothing in it.
pub open spec fn empty_report() -> RestoreReportView {
    RestoreReportView {
        applied: 0,
        missing: Seq::empty(),
        warnings: Seq::empty(),
        errors: Seq::empty(),
    }
}

// ---------------------------------------------------------------------------
// What preview and restore promise of each other
// ---------------------------------------------------------------------------

/// An application that a preview shows as not running is reported missing when
/// it is restored, and no route is written for it.
pub proof fn stopped_applications_are_left_alone(
    context: RestoreContext,
    entry: ApplicationEntryView,
    report: RestoreReportView,
    outcomes: Seq<Result<(), Seq<char>>>,
)
    requires
        !preview_row(entry, context.running, context.playback, context.recording).running,
    ensures
        entry_writes(context, entry).len() == 0,
        entry_report(context, report, entry, outcomes) == (RestoreReportView {
            missing: report.missing.push(not_running(entry_label(entry))),
            ..report
        }),
{
}

/// For an application that runs, a route that a preview shows as present is
/// written for every process of it, and one that it shows as absent is reported
/// missing and not written.
pub proof fn preview_tells_what_restore_does(
    context: RestoreContext,
    entry: ApplicationEntryView,
    flow: Flow,
    report: RestoreReportView,
    outcomes: Seq<Result<(), Seq<char>>>,
)
    requires
        preview_row(entry, context.running, context.playback, context.recording).running,
        target_of(entry, flow) is Some,
    ensures
        ({
            let shown = target_preview(target_of(entry, flow), devices_of(context, flow))->Some_0;
            let processes = matched_processes(entry, context.running).0;
            let writes = flow_writes(context, entry, flow);
            &&& shown.present ==> writes.len() == processes.len() && forall|i: int|
                0 <= i < writes.len() ==> #[trigger] writes[i] == (RouteWriteView {
                    pid: processes[i].pid,
                    flow,
                    device_id: shown.device_id,
                })
            &&& !shown.present ==> writes.len() == 0 && flow_report(
                context,
                report,
                entry,
                flow,
                outcomes,
            ) == (RestoreReportView {
                missing: report.missing.push(
                    device_missing(entry_label(entry), flow, target_of(entry, flow)->Some_0),
                ),
                ..report
            })
        }),
{
}

/// Number of things that a row of a preview announces as missing: the
/// application where it does not run, else each of its devices that is absent.
pub open spec fn announced_by_row(row: AppPreviewRowView) -> nat {
    if row.running {
        announced_target(row.output) + announced_target(row.input)
    } else {
        1
    }
}

/// Number of devices, one or none, that a route of a preview announces as
/// missing.
pub open spec fn announced_target(target: Option<TargetPreviewView>) -> nat {
    match target {
        Some(target) => if target.present {
            0
        } else {
            1
        },
        None => 0,
    }
}

/// Number of things that a preview announces as missing.
pub open spec fn announced_missing(rows: Seq<AppPreviewRowView>) -> nat
    decreases rows.len(),
{
    if rows.len() == 0 {
        0
    } else {
        announced_missing(rows.drop_last()) + announced_by_row(rows.last())
    }
}

proof fn preview_announces_missing(
    context: RestoreContext,
    entries: Seq<ApplicationEntryView>,
    outcomes: Seq<Result<(), Seq<char>>>,
)
    ensures
        full_report(context, entries, outcomes).missing.len() == announced_missing(
            preview_rows(entries, context.running, context.playback, context.recording),
        ),
    decreases entries.len(),
{
    let rows = preview_rows(entries, context.running, context.playback, context.recording);
    if entries.len() > 0 {
        let split = all_writes(context, entries.drop_last()).len() as int;
        preview_announces_missing(context, entries.drop_last(), outcomes.take(split));
        assert(rows.drop_last() == preview_rows(
            entries.drop_last(),
            context.running,
            context.playback,
            context.recording,
        ));
        assert(rows.last() == preview_row(
            entries.last(),
            context.running,
            context.playback,
            context.recording,
        ));
    }
}

/// A preview announces exactly what a restore then reports as missing: where
/// the processes and the devices are the same and the engine can be activated,
/// both count the same number of things.
pub proof fn preview_counts_what_restore_misses(
    entries: Seq<ApplicationEntryView>,
    playback: DeviceListView,
    recording: DeviceListView,
    reading: RestoreReading,
)
    requires
        reading.activation is Ok,
    ensures
        engine_report(entries, playback, recording, reading).missing.len() == announced_missing(
            preview_rows(entries, reading.running.deep_view(), playback, recording),
        ),
        entries.len() == 0 ==> empty_report().missing.len() == announced_missing(
            preview_rows(entries, reading.running.deep_view(), playback, recording),
        ),
{
    preview_announces_missing(
        RestoreContext { running: reading.running.deep_view(), playback, recording },
        entries,
        outcomes_view(reading.outcomes@),
    );
}

proof fn no_failure_no_error(
    label: Seq<char>,
    flow: Flow,
    processes: Seq<ProcInfoView>,
    outcomes: Seq<Result<(), Seq<char>>>,
)
    requires
        processes.len() <= outcomes.len(),
        forall|i: int| 0 <= i < outcomes.len() ==> #[trigger] outcomes[i] is Ok,
    ensures
        write_errors(label, flow, processes, outcomes).len() == 0,
    decreases processes.len(),
{
    if processes.len() > 0 {
        assert(outcomes[processes.len() - 1] is Ok);
        no_failure_no_error(label, flow, processes.drop_last(), outcomes);
    }
}

/// Number of flows of an entry whose route is written.
pub open spec fn written_flows(context: RestoreContext, entry: ApplicationEntryView) -> int {
    (if flow_writes(context, entry, Flow::Output).len() > 0 {
        1int
    } else {
        0
    }) + (if flow_writes(context, entry, Flow::Input).len() > 0 {
        1int
    } else {
        0
    })
}

/// Number of flows of some entries whose route is written.
pub open spec fn all_written_flows(
    context: RestoreContext,
    entries: Seq<ApplicationEntryView>,
) -> int
    decreases entries.len(),
{
    if entries.len() == 0 {
        0
    } else {
        all_written_flows(context, entries.drop_last()) + written_flows(context, entries.last())
    }
}

proof fn clean_flow(
    context: RestoreContext,
    report: RestoreReportView,
    entry: ApplicationEntryView,
    flow: Flow,
    outcomes: Seq<Result<(), Seq<char>>>,
)
    requires
        flow_writes(context, entry, flow).len() <= outcomes.len(),
        matched_processes(entry, context.running).0.len() > 0,
        forall|i: int| 0 <= i < outcomes.len() ==> #[trigger] outcomes[i] is Ok,
    ensures
        flow_report(context, report, entry, flow, outcomes).errors == report.errors,
        flow_report(context, report, entry, flow, outcomes).applied == report.applied + (
        if flow_writes(context, entry, flow).len() > 0 {
            1int
        } else {
            0
        }),
{
    if flow_writes(context, entry, flow).len() > 0 {
        no_failure_no_error(
            entry_label(entry),
            flow,
            matched_processes(entry, context.running).0,
            outcomes,
        );
    }
    assert(report.errors + Seq::<Seq<char>>::empty() == report.errors);
    assert(flow_report(context, report, entry, flow, outcomes).errors == report.errors);
}

/// Where every write succeeds, a restore reports no error and counts as applied
/// exactly the flows whose route was written.
pub proof fn successful_writes_are_all_applied(
    context: RestoreContext,
    entries: Seq<ApplicationEntryView>,
    outcomes: Seq<Result<(), Seq<char>>>,
)
    requires
        outcomes.len() == all_writes(context, entries).len(),
        forall|i: int| 0 <= i < outcomes.len() ==> #[trigger] outcomes[i] is Ok,
    ensures
        full_report(context, entries, outcomes).errors.len() == 0,
        full_report(context, entries, outcomes).applied == all_written_flows(context, entries),
    decreases entries.len(),
{
    if entries.len() > 0 {
        let init = entries.drop_last();
        let entry = entries.last();
        let split = all_writes(context, init).len() as int;
        let head = outcomes.take(split);
        let tail = outcomes.skip(split);
        assert forall|i: int| 0 <= i < head.len() implies #[trigger] head[i] is Ok by {
            assert(outcomes[i] is Ok);
        }
        assert forall|i: int| 0 <= i < tail.len() implies #[trigger] tail[i] is Ok by {
            assert(outcomes[split + i] is Ok);
        }
        successful_writes_are_all_applied(context, init, head);
        let report = full_report(context, init, head);
        let (processes, how) = matched_processes(entry, context.running);
        if processes.len() > 0 {
            let warned = if how == ProcessMatch::Name && entry.executable_path is Some {
                RestoreReportView {
                    warnings: report.warnings.push(found_by_name(entry_label(entry))),
                    ..report
                }
            } else {
                report
            };
            let middle = flow_writes(context, entry, Flow::Output).len() as int;
            let a = tail.take(middle);
            let b = tail.skip(middle);
            assert forall|i: int| 0 <= i < a.len() implies #[trigger] a[i] is Ok by {
                assert(tail[i] is Ok);
            }
            assert forall|i: int| 0 <= i < b.len() implies #[trigger] b[i] is Ok by {
                assert(tail[middle + i] is Ok);
            }
            clean_flow(context, warned, entry, Flow::Output, a);
            let played = flow_report(context, warned, entry, Flow::Output, a);
            clean_flow(context, played, entry, Flow::Input, b);
        }
    }
}

} // verus!
