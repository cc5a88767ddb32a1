//! Running processes: which of them belong to an application.

use vstd::prelude::*;

use crate::app_routing::profile_apps::{
    matched_processes, process_with_pid, running_by_name, running_by_path, same_path,
    ApplicationEntryView, ProcInfoView, ProcessMatch,
};
use crate::laws::text::{only_ascii_case_is_overlooked, only_case_and_slashes_are_overlooked};
use crate::laws::{is_first_with_pid, same_but_case, same_file};
use crate::text::eq_ascii_fold;

verus! {

/// Does the process run the executable that the entry stores?
pub open spec fn runs_executable(entry: ApplicationEntryView, process: ProcInfoView) -> bool {
    entry.executable_path is Some && process.exe is Some && same_file(
        process.exe->Some_0,
        entry.executable_path->Some_0,
    )
}

/// Does the process have the name that the entry stores?
pub open spec fn has_name(entry: ApplicationEntryView, process: ProcInfoView) -> bool {
    entry.process_name.len() > 0 && same_but_case(process.name, entry.process_name)
}

/// Does some process run the executable that the entry stores?
pub open spec fn executable_runs(entry: ApplicationEntryView, running: Seq<ProcInfoView>) -> bool {
    exists|k: int| 0 <= k < running.len() && runs_executable(entry, #[trigger] running[k])
}

/// Does some process have the name that the entry stores?
pub open spec fn name_runs(entry: ApplicationEntryView, running: Seq<ProcInfoView>) -> bool {
    exists|k: int| 0 <= k < running.len() && has_name(entry, #[trigger] running[k])
}

proof fn path_filter(entry: ApplicationEntryView, running: Seq<ProcInfoView>, p: ProcInfoView)
    ensures
        running_by_path(entry, running.push(p)) == (if runs_executable(entry, p) {
            running_by_path(entry, running).push(p)
        } else {
            running_by_path(entry, running)
        }),
        running_by_path(entry, Seq::empty()).len() == 0,
{
    reveal(Seq::filter);
    if entry.executable_path is Some {
        let path = entry.executable_path->Some_0;
        let f = |p: ProcInfoView| p.exe is Some && same_path(p.exe->Some_0, path);
        running.lemma_filter_push(p, f);
        if p.exe is Some {
            only_case_and_slashes_are_overlooked(p.exe->Some_0, path);
        }
    }
}

proof fn name_filter(entry: ApplicationEntryView, running: Seq<ProcInfoView>, p: ProcInfoView)
    ensures
        running_by_name(entry, running.push(p)) == (if has_name(entry, p) {
            running_by_name(entry, running).push(p)
        } else {
            running_by_name(entry, running)
        }),
        running_by_name(entry, Seq::empty()).len() == 0,
{
    reveal(Seq::filter);
    if entry.process_name.len() > 0 {
        let f = |p: ProcInfoView| eq_ascii_fold(p.name, entry.process_name);
        running.lemma_filter_push(p, f);
        only_ascii_case_is_overlooked(p.name, entry.process_name);
    }
}

/// One more running process: it is added to the processes of an application
/// where it runs the stored executable, and the first such process takes the
/// place of all that were found by name; found by name it is added only where no
/// process runs the stored executable. The order is that of the processes.
pub proof fn one_more_running_process(
    entry: ApplicationEntryView,
    running: Seq<ProcInfoView>,
    p: ProcInfoView,
)
    ensures
        matched_processes(entry, Seq::empty()) == (
            Seq::<ProcInfoView>::empty(),
            ProcessMatch::Nothing,
        ),
        ({
            let (found, how) = matched_processes(entry, running);
            matched_processes(entry, running.push(p)) == (if how == ProcessMatch::Path {
                (
                    if runs_executable(entry, p) {
                        found.push(p)
                    } else {
                        found
                    },
                    ProcessMatch::Path,
                )
            } else if runs_executable(entry, p) {
                (seq![p], ProcessMatch::Path)
            } else if has_name(entry, p) {
                (found.push(p), ProcessMatch::Name)
            } else {
                (found, how)
            })
        }),
{
    path_filter(entry, running, p);
    name_filter(entry, running, p);
    if running_by_path(entry, running).len() == 0 {
        assert(running_by_path(entry, running).push(p) =~= seq![p]);
    }
    if running_by_name(entry, running).len() == 0 {
        assert(running_by_name(entry, running).push(p) =~= Seq::<ProcInfoView>::empty().push(p));
    }
}

/// The processes of an application are those that run the stored executable;
/// where none does, those with the stored name; and no others.
pub proof fn processes_of_an_application(entry: ApplicationEntryView, running: Seq<ProcInfoView>)
    ensures
        ({
            let (found, how) = matched_processes(entry, running);
            &&& how == ProcessMatch::Path <==> executable_runs(entry, running)
            &&& how == ProcessMatch::Name <==> !executable_runs(entry, running) && name_runs(
                entry,
                running,
            )
            &&& forall|p: ProcInfoView| #[trigger]
                found.contains(p) <==> running.contains(p) && (if executable_runs(entry, running) {
                    runs_executable(entry, p)
                } else {
                    has_name(entry, p)
                })
            &&& found.len() > 0 <==> executable_runs(entry, running) || name_runs(entry, running)
        }),
    decreases running.len(),
{
    let (found, how) = matched_processes(entry, running);
    if running.len() > 0 {
        let init = running.drop_last();
        let p = running.last();
        assert(init.push(p) == running);
        processes_of_an_application(entry, init);
        one_more_running_process(entry, init, p);
        let (before, how_before) = matched_processes(entry, init);
        assert(running[running.len() - 1] == p);
        if executable_runs(entry, init) {
            let k = choose|k: int| 0 <= k < init.len() && runs_executable(entry, #[trigger] init[k]);
            assert(runs_executable(entry, running[k]));
        }
        if executable_runs(entry, running) && !runs_executable(entry, p) {
            let k = choose|k: int|
                0 <= k < running.len() && runs_executable(entry, #[trigger] running[k]);
            assert(runs_executable(entry, init[k]));
        }
        if name_runs(entry, init) {
            let k = choose|k: int| 0 <= k < init.len() && has_name(entry, #[trigger] init[k]);
            assert(has_name(entry, running[k]));
        }
        if name_runs(entry, running) && !has_name(entry, p) {
            let k = choose|k: int| 0 <= k < running.len() && has_name(entry, #[trigger] running[k]);
            assert(has_name(entry, init[k]));
        }
        assert forall|q: ProcInfoView| #[trigger] running.contains(q) <==> init.contains(q) || q
            == p by {
            if init.contains(q) {
                let k = choose|k: int| 0 <= k < init.len() && init[k] == q;
                assert(running[k] == q);
            }
            if running.contains(q) && q != p {
                let k = choose|k: int| 0 <= k < running.len() && running[k] == q;
                assert(init[k] == q);
            }
        }
        assert forall|q: ProcInfoView| #[trigger] before.push(p).contains(q) <==> before.contains(q)
            || q == p by {
            if before.contains(q) {
                let k = choose|k: int| 0 <= k < before.len() && before[k] == q;
                assert(before.push(p)[k] == q);
            }
            assert(before.push(p)[before.len() as int] == p);
        }
        assert forall|q: ProcInfoView| #[trigger] found.contains(q) <==> running.contains(q) && (
        if executable_runs(entry, running) {
            runs_executable(entry, q)
        } else {
            has_name(entry, q)
        }) by {
            assert(running.contains(q) <==> init.contains(q) || q == p);
            assert(before.push(p).contains(q) <==> before.contains(q) || q == p);
            assert(seq![p].contains(q) <==> q == p) by {
                assert(seq![p][0] == p);
            }
            if init.contains(q) {
                let k = choose|k: int| 0 <= k < init.len() && init[k] == q;
                assert(runs_executable(entry, init[k]) ==> executable_runs(entry, init));
            }
        }
        if name_runs(entry, running) && !executable_runs(entry, running) {
            let k = choose|k: int| 0 <= k < running.len() && has_name(entry, #[trigger] running[k]);
            assert(running.contains(running[k]));
            assert(found.contains(running[k]));
        }
        if executable_runs(entry, running) {
            let k = choose|k: int|
                0 <= k < running.len() && runs_executable(entry, #[trigger] running[k]);
            assert(running.contains(running[k]));
            assert(found.contains(running[k]));
        }
    } else {
        reveal(Seq::filter);
        assert(running =~= Seq::empty());
        one_more_running_process(entry, running, arbitrary());
    }
}

/// The process of a number is the first of the list that has it.
pub proof fn first_process_with_a_number(running: Seq<ProcInfoView>, pid: u32)
    ensures
        forall|k: int|
            #![trigger running[k]]
            is_first_with_pid(running, k) && running[k].pid == pid ==> process_with_pid(
                running,
                pid,
            ) == Some(running[k]),
        process_with_pid(running, pid) is Some ==> exists|k: int|
            is_first_with_pid(running, k) && (#[trigger] running[k]).pid == pid
                && process_with_pid(running, pid) == Some(running[k]),
    decreases running.len(),
{
    if running.len() > 0 {
        let rest = running.skip(1);
        first_process_with_a_number(rest, pid);
        if running[0].pid == pid {
            assert(is_first_with_pid(running, 0));
        } else {
            assert forall|k: int|
                #![trigger running[k]]
                is_first_with_pid(running, k) && running[k].pid == pid implies process_with_pid(
                running,
                pid,
            ) == Some(running[k]) by {
                assert(rest[k - 1] == running[k]);
                assert forall|j: int| 0 <= j < k - 1 implies (#[trigger] rest[j]).pid != rest[k
                    - 1].pid by {
                    assert(rest[j] == running[j + 1]);
                }
            }
            if process_with_pid(rest, pid) is Some {
                let k = choose|k: int|
                    is_first_with_pid(rest, k) && (#[trigger] rest[k]).pid == pid
                        && process_with_pid(rest, pid) == Some(rest[k]);
                assert(running[k + 1] == rest[k]);
                assert forall|j: int| 0 <= j < k + 1 implies (#[trigger] running[j]).pid
                    != running[k + 1].pid by {
                    if j > 0 {
                        assert(rest[j - 1] == running[j]);
                    }
                }
            }
        }
    }
}

} // verus!
