//! Previewing and restoring: what is shown, written and reported of each
//! application.

use vstd::prelude::*;

use crate::app_routing::profile_apps::{
    matched_processes, ApplicationEntryView, ProcInfoView, ProcessMatch, RestoreReportView,
    RouteTargetView, TargetPreviewView,
};
use crate::app_routing::restore::{
    all_writes, engine_report, entry_label, entry_report, entry_writes, flow_report, flow_writes,
    full_report, preview_rows, target_of, write_errors, RestoreContext, RestoreReading,
    RouteWriteView,
};
use crate::app_routing::{DeviceListView, Flow};
use crate::laws::devices::targets_are_known_by_identifier_or_name;
use crate::laws::processes::{executable_runs, name_runs, processes_of_an_application};
use crate::laws::{is_there, of_flow, stored};
use crate::text::decimal;

verus! {

/// Does some process run the executable of the entry or have its name?
pub open spec fn is_running(entry: ApplicationEntryView, running: Seq<ProcInfoView>) -> bool {
    executable_runs(entry, running) || name_runs(entry, running)
}

/// Is it what a preview shows of a target: its device as stored, and whether it
/// is there?
pub open spec fn shows_target(
    shown: Option<TargetPreviewView>,
    target: Option<RouteTargetView>,
    devices: DeviceListView,
) -> bool {
    match (shown, target) {
        (Some(shown), Some(target)) => shown.device_id == target.device_id && shown.device_name
            == target.device_name && (shown.present <==> is_there(devices, target)),
        (None, None) => true,
        _ => false,
    }
}

/// A preview has one row for each entry, in their order: with the stored name
/// and path, telling whether the application runs and, for each stored target,
/// whether its device is there.
pub proof fn previews_show_each_application(
    entries: Seq<ApplicationEntryView>,
    running: Seq<ProcInfoView>,
    playback: DeviceListView,
    recording: DeviceListView,
    i: int,
)
    requires
        0 <= i < entries.len(),
    ensures
        ({
            let rows = preview_rows(entries, running, playback, recording);
            &&& rows.len() == entries.len()
            &&& rows[i].process_name == entries[i].process_name
            &&& rows[i].executable_path == entries[i].executable_path
            &&& rows[i].running <==> is_running(entries[i], running)
            &&& shows_target(rows[i].output, entries[i].output, playback)
            &&& shows_target(rows[i].input, entries[i].input, recording)
        }),
{
    processes_of_an_application(entries[i], running);
    if let Some(target) = entries[i].output {
        targets_are_known_by_identifier_or_name(playback, target);
    }
    if let Some(target) = entries[i].input {
        targets_are_known_by_identifier_or_name(recording, target);
    }
}

/// Is a target stored for the flow, and its device there?
pub open spec fn can_be_set(
    context: RestoreContext,
    entry: ApplicationEntryView,
    flow: Flow,
) -> bool {
    stored(entry, flow) is Some && is_there(
        of_flow(flow, context.playback, context.recording),
        stored(entry, flow)->Some_0,
    )
}

/// Number of routes that are written for an application in a flow: one for each
/// of its processes, where its device is there.
pub open spec fn writes_in_flow(
    context: RestoreContext,
    entry: ApplicationEntryView,
    flow: Flow,
) -> nat {
    if can_be_set(context, entry, flow) {
        matched_processes(entry, context.running).0.len()
    } else {
        0
    }
}

proof fn known_targets(context: RestoreContext, entry: ApplicationEntryView, flow: Flow)
    ensures
        flow_writes(context, entry, flow).len() == writes_in_flow(context, entry, flow),
        stored(entry, flow) == target_of(entry, flow),
{
    if let Some(target) = stored(entry, flow) {
        targets_are_known_by_identifier_or_name(
            of_flow(flow, context.playback, context.recording),
            target,
        );
    }
}

/// One more entry adds its writes behind the others: to its stored device, for
/// each process of the application, first in playback and then in recording,
/// each flow where its device is there; nothing else is written.
pub proof fn one_more_application_is_written(
    context: RestoreContext,
    entries: Seq<ApplicationEntryView>,
    entry: ApplicationEntryView,
)
    ensures
        all_writes(context, Seq::empty()).len() == 0,
        ({
            let before = all_writes(context, entries);
            let after = all_writes(context, entries.push(entry));
            let found = matched_processes(entry, context.running).0;
            let played = writes_in_flow(context, entry, Flow::Output);
            let recorded = writes_in_flow(context, entry, Flow::Input);
            &&& after.len() == before.len() + played + recorded
            &&& forall|i: int| 0 <= i < before.len() ==> #[trigger] after[i] == before[i]
            &&& forall|i: int|
                0 <= i < played ==> #[trigger] after[before.len() + i] == (RouteWriteView {
                    pid: found[i].pid,
                    flow: Flow::Output,
                    device_id: entry.output->Some_0.device_id,
                })
            &&& forall|i: int|
                0 <= i < recorded ==> #[trigger] after[before.len() + played + i] == (
                RouteWriteView {
                    pid: found[i].pid,
                    flow: Flow::Input,
                    device_id: entry.input->Some_0.device_id,
                })
        }),
{
    assert(entries.push(entry).drop_last() == entries);
    known_targets(context, entry, Flow::Output);
    known_targets(context, entry, Flow::Input);
    let before = all_writes(context, entries);
    let after = all_writes(context, entries.push(entry));
    assert(after == before + entry_writes(context, entry));
    let played = flow_writes(context, entry, Flow::Output);
    let recorded = flow_writes(context, entry, Flow::Input);
    assert forall|i: int| 0 <= i < played.len() implies #[trigger] after[before.len() + i]
        == played[i] by {}
    assert forall|i: int| 0 <= i < recorded.len() implies #[trigger] after[before.len()
        + played.len() + i] == recorded[i] by {}
}

/// What an application is called in a report.
pub open spec fn called(entry: ApplicationEntryView) -> Seq<char> {
    if entry.process_name.len() > 0 {
        entry.process_name
    } else if entry.executable_path is Some {
        entry.executable_path->Some_0
    } else {
        "application inconnue"@
    }
}

/// What a report says is missing of an application that runs, in a flow: its
/// device, where a target is stored and its device is not there.
pub open spec fn missing_in_flow(
    context: RestoreContext,
    entry: ApplicationEntryView,
    flow: Flow,
) -> Seq<Seq<char>> {
    if stored(entry, flow) is Some && !can_be_set(context, entry, flow) {
        let target = stored(entry, flow)->Some_0;
        seq![
            called(entry) + of_flow(
                flow,
                " — sortie introuvable : "@,
                " — entrée introuvable : "@,
            ) + (if target.device_name is Some {
                target.device_name->Some_0
            } else {
                target.device_id
            }),
        ]
    } else {
        Seq::empty()
    }
}

/// What a report says of the writes of an application in a flow that failed.
pub open spec fn failures(
    name: Seq<char>,
    flow: Flow,
    found: Seq<ProcInfoView>,
    outcomes: Seq<Result<(), Seq<char>>>,
) -> Seq<Seq<char>>
    decreases found.len(),
{
    if found.len() == 0 {
        Seq::empty()
    } else {
        let last = found.len() - 1;
        let before = failures(name, flow, found.drop_last(), outcomes);
        if outcomes[last] is Err {
            before.push(
                name + " (PID "@ + decimal(found[last].pid as nat) + of_flow(
                    flow,
                    ") — sortie non restaurée : "@,
                    ") — entrée non restaurée : "@,
                ) + outcomes[last]->Err_0,
            )
        } else {
            before
        }
    }
}

proof fn failures_are_spelled(
    name: Seq<char>,
    flow: Flow,
    found: Seq<ProcInfoView>,
    outcomes: Seq<Result<(), Seq<char>>>,
)
    ensures
        write_errors(name, flow, found, outcomes) == failures(name, flow, found, outcomes),
    decreases found.len(),
{
    if found.len() > 0 {
        failures_are_spelled(name, flow, found.drop_last(), outcomes);
        reveal_strlit(") — ");
        reveal_strlit("sortie");
        reveal_strlit("entrée");
        reveal_strlit(" non restaurée : ");
        reveal_strlit(") — sortie non restaurée : ");
        reveal_strlit(") — entrée non restaurée : ");
        if let Err(reason) = outcomes[found.len() - 1] {
            assert(crate::app_routing::restore::not_restored(name, found.last().pid, flow, reason)
                =~= name + " (PID "@ + decimal(found.last().pid as nat) + of_flow(
                flow,
                ") — sortie non restaurée : "@,
                ") — entrée non restaurée : "@,
            ) + reason);
        }
    }
}

proof fn missing_is_spelled(context: RestoreContext, entry: ApplicationEntryView, flow: Flow)
    requires
        stored(entry, flow) is Some,
    ensures
        crate::app_routing::restore::device_missing(
            called(entry),
            flow,
            stored(entry, flow)->Some_0,
        ) == called(entry) + of_flow(
            flow,
            " — sortie introuvable : "@,
            " — entrée introuvable : "@,
        ) + (if stored(entry, flow)->Some_0.device_name is Some {
            stored(entry, flow)->Some_0.device_name->Some_0
        } else {
            stored(entry, flow)->Some_0.device_id
        }),
{
    reveal_strlit(" — ");
    reveal_strlit("sortie");
    reveal_strlit("entrée");
    reveal_strlit(" introuvable : ");
    reveal_strlit(" — sortie introuvable : ");
    reveal_strlit(" — entrée introuvable : ");
    assert(crate::app_routing::restore::device_missing(
        called(entry),
        flow,
        stored(entry, flow)->Some_0,
    ) =~= called(entry) + of_flow(
        flow,
        " — sortie introuvable : "@,
        " — entrée introuvable : "@,
    ) + (if stored(entry, flow)->Some_0.device_name is Some {
        stored(entry, flow)->Some_0.device_name->Some_0
    } else {
        stored(entry, flow)->Some_0.device_id
    }));
}

/// What a report says of the failed writes of an application in a flow.
pub open spec fn failed_in_flow(
    context: RestoreContext,
    entry: ApplicationEntryView,
    flow: Flow,
    outcomes: Seq<Result<(), Seq<char>>>,
) -> Seq<Seq<char>> {
    if can_be_set(context, entry, flow) {
        failures(called(entry), flow, matched_processes(entry, context.running).0, outcomes)
    } else {
        Seq::empty()
    }
}

/// A flow counts as applied where its device is there and no write failed.
pub open spec fn applied_in_flow(
    context: RestoreContext,
    entry: ApplicationEntryView,
    flow: Flow,
    outcomes: Seq<Result<(), Seq<char>>>,
) -> int {
    if can_be_set(context, entry, flow) && forall|i: int|
        0 <= i < writes_in_flow(context, entry, flow) ==> (#[trigger] outcomes[i]) is Ok {
        1
    } else {
        0
    }
}

proof fn no_failure_is_applied(
    name: Seq<char>,
    flow: Flow,
    found: Seq<ProcInfoView>,
    outcomes: Seq<Result<(), Seq<char>>>,
)
    ensures
        failures(name, flow, found, outcomes).len() == 0 <==> forall|i: int|
            0 <= i < found.len() ==> (#[trigger] outcomes[i]) is Ok,
    decreases found.len(),
{
    if found.len() > 0 {
        let last = found.len() - 1;
        no_failure_is_applied(name, flow, found.drop_last(), outcomes);
        if failures(name, flow, found, outcomes).len() == 0 {
            assert(outcomes[last] is Ok);
            assert forall|i: int| 0 <= i < found.len() implies (#[trigger] outcomes[i]) is Ok by {}
        } else if forall|i: int| 0 <= i < found.len() ==> (#[trigger] outcomes[i]) is Ok {
            assert(outcomes[last] is Ok);
            assert forall|i: int| 0 <= i < last implies (#[trigger] outcomes[i]) is Ok by {}
        }
    }
}

proof fn flow_of_an_application(
    context: RestoreContext,
    report: RestoreReportView,
    entry: ApplicationEntryView,
    flow: Flow,
    outcomes: Seq<Result<(), Seq<char>>>,
)
    ensures
        flow_report(context, report, entry, flow, outcomes) == (RestoreReportView {
            applied: report.applied + applied_in_flow(context, entry, flow, outcomes),
            missing: report.missing + missing_in_flow(context, entry, flow),
            warnings: report.warnings,
            errors: report.errors + failed_in_flow(context, entry, flow, outcomes),
        }),
{
    let found = matched_processes(entry, context.running).0;
    let name = called(entry);
    assert(entry_label(entry) == name);
    assert(report.missing + Seq::<Seq<char>>::empty() =~= report.missing);
    assert(report.errors + Seq::<Seq<char>>::empty() =~= report.errors);
    if let Some(target) = stored(entry, flow) {
        targets_are_known_by_identifier_or_name(
            of_flow(flow, context.playback, context.recording),
            target,
        );
        missing_is_spelled(context, entry, flow);
        failures_are_spelled(name, flow, found, outcomes);
        no_failure_is_applied(name, flow, found, outcomes);
        if !can_be_set(context, entry, flow) {
            assert(report.missing + missing_in_flow(context, entry, flow) =~= report.missing.push(
                missing_in_flow(context, entry, flow)[0],
            ));
        }
    }
}

/// One more entry in a restore. An application that does not run is reported
/// missing, and nothing else. Of one that runs, each stored device that is not
/// there is reported missing, each write that failed is an error, each flow
/// whose writes all succeeded counts as applied, and there is a warning where
/// its processes were found by name although a path is stored.
pub proof fn one_more_application_is_reported(
    context: RestoreContext,
    entries: Seq<ApplicationEntryView>,
    entry: ApplicationEntryView,
    outcomes: Seq<Result<(), Seq<char>>>,
)
    ensures
        ({
            let n = all_writes(context, entries).len() as int;
            let before = full_report(context, entries, outcomes.take(n));
            let after = full_report(context, entries.push(entry), outcomes);
            let played = outcomes.skip(n).take(writes_in_flow(context, entry, Flow::Output) as int);
            let recorded = outcomes.skip(n).skip(
                writes_in_flow(context, entry, Flow::Output) as int,
            );
            if !is_running(entry, context.running) {
                after == (RestoreReportView {
                    missing: before.missing.push("Application non active : "@ + called(entry)),
                    ..before
                })
            } else {
                &&& after.applied == before.applied + applied_in_flow(
                    context,
                    entry,
                    Flow::Output,
                    played,
                ) + applied_in_flow(context, entry, Flow::Input, recorded)
                &&& after.missing == before.missing + missing_in_flow(context, entry, Flow::Output)
                    + missing_in_flow(context, entry, Flow::Input)
                &&& after.errors == before.errors + failed_in_flow(
                    context,
                    entry,
                    Flow::Output,
                    played,
                ) + failed_in_flow(context, entry, Flow::Input, recorded)
                &&& after.warnings == (if entry.executable_path is Some && !executable_runs(
                    entry,
                    context.running,
                ) {
                    before.warnings.push(
                        called(entry) + " : chemin différent, correspondance par nom utilisée."@,
                    )
                } else {
                    before.warnings
                })
            }
        }),
{
    let n = all_writes(context, entries).len() as int;
    let before = full_report(context, entries, outcomes.take(n));
    let mine = outcomes.skip(n);
    assert(entries.push(entry).drop_last() == entries);
    assert(full_report(context, entries.push(entry), outcomes) == entry_report(
        context,
        before,
        entry,
        mine,
    ));
    processes_of_an_application(entry, context.running);
    let (found, how) = matched_processes(entry, context.running);
    assert(entry_label(entry) == called(entry));
    known_targets(context, entry, Flow::Output);
    known_targets(context, entry, Flow::Input);
    let split = flow_writes(context, entry, Flow::Output).len() as int;
    let warned = if how == ProcessMatch::Name && entry.executable_path is Some {
        RestoreReportView {
            warnings: before.warnings.push(
                called(entry) + " : chemin différent, correspondance par nom utilisée."@,
            ),
            ..before
        }
    } else {
        before
    };
    flow_of_an_application(context, warned, entry, Flow::Output, mine.take(split));
    let half = flow_report(context, warned, entry, Flow::Output, mine.take(split));
    flow_of_an_application(context, half, entry, Flow::Input, mine.skip(split));
}

/// A restore without entries reports nothing, and one on an engine that cannot
/// be activated reports the reason as the only thing missing.
pub proof fn restores_that_do_nothing(
    context: RestoreContext,
    outcomes: Seq<Result<(), Seq<char>>>,
    entries: Seq<ApplicationEntryView>,
    reading: RestoreReading,
)
    ensures
        ({
            let report = full_report(context, Seq::empty(), outcomes);
            report.applied == 0 && report.missing.len() == 0 && report.warnings.len() == 0
                && report.errors.len() == 0
        }),
        reading.activation is Err ==> ({
            let report = engine_report(entries, context.playback, context.recording, reading);
            report.applied == 0 && report.missing == seq![reading.activation->Err_0@]
                && report.warnings.len() == 0 && report.errors.len() == 0
        }),
        reading.activation is Ok ==> engine_report(
            entries,
            context.playback,
            context.recording,
            reading,
        ) == full_report(
            (RestoreContext { running: reading.running.deep_view(), ..context }),
            entries,
            reading.outcomes@.map_values(
                |outcome: Result<(), String>|
                    match outcome {
                        Ok(_) => Ok::<(), Seq<char>>(()),
                        Err(reason) => Err(reason@),
                    },
            ),
        ),
{
    if reading.activation is Ok {
        assert(crate::app_routing::restore::outcomes_view(reading.outcomes@)
            =~= reading.outcomes@.map_values(
            |outcome: Result<(), String>|
                match outcome {
                    Ok(_) => Ok::<(), Seq<char>>(()),
                    Err(reason) => Err(reason@),
                },
        ));
    }
}

} // verus!
