//! The command line: which processes and which device are meant, and what is
//! printed.

use vstd::prelude::*;

use crate::app_routing::devices::packed;
use crate::app_routing::profile_apps::{AppSessionRowView, RouteTargetView};
use crate::app_routing::{DeviceListView, Flow};
use crate::encoding::lowercase;
use crate::laws::text::only_ascii_case_is_overlooked;
use crate::laws::{of_flow, same_but_case, same_letter};
use crate::paths::file_name;
use crate::route_cli::{
    get_output, is_meant, listed_id, meant_pids, named, packed_id, planned_set, requested,
    resolved_device, resolved_process, route_lines, sessions_output, set_output, set_target,
    shown_device, with_name_part, without_exe, without_exe_in_any_case, LineView, NamedProcessView,
    RequestView,
};
use crate::text::{contains, decimal, eq_ascii_fold, joined, padded, unsigned_value};

verus! {

// ---------------------------------------------------------------------------
// Processes
// ---------------------------------------------------------------------------

/// A lower-case name without `.exe` at its end.
pub open spec fn bare(name: Seq<char>) -> Seq<char> {
    let n = name.len() - 4;
    if n >= 0 && name[n] == '.' && name[n + 1] == 'e' && name[n + 2] == 'x' && name[n + 3] == 'e' {
        name.take(n)
    } else {
        name
    }
}

/// A file name without `.exe` at its end, in any case of its letters.
pub open spec fn bare_file(name: Seq<char>) -> Seq<char> {
    let n = name.len() - 4;
    if n >= 0 && name[n] == '.' && same_letter(name[n + 1], 'e') && same_letter(name[n + 2], 'x')
        && same_letter(name[n + 3], 'e') {
        name.take(n)
    } else {
        name
    }
}

/// Is the queried name the whole name of the process or of the file of its
/// executable, in lower case and without `.exe`?
pub open spec fn has_queried_name(query: Seq<char>, row: AppSessionRowView) -> bool {
    ||| bare(lowercase(row.process_name)) == bare(lowercase(query))
    ||| row.executable_path is Some && file_name(row.executable_path->Some_0) is Some && lowercase(
        bare_file(file_name(row.executable_path->Some_0)->Some_0),
    ) == bare(lowercase(query))
}

proof fn endings(name: Seq<char>)
    ensures
        without_exe(name) == bare(name),
        without_exe_in_any_case(name) == bare_file(name),
{
    reveal_strlit(".exe");
    let end = ".exe"@;
    let n = name.len() - 4;
    if n >= 0 {
        let tail = name.subrange(n, name.len() as int);
        assert(name.skip(n) =~= tail);
        if end.is_suffix_of(name) {
            assert(tail == end);
            assert(tail[0] == end[0] && tail[1] == end[1] && tail[2] == end[2] && tail[3]
                == end[3]);
        }
        if bare(name) == name.take(n) && bare(name) != name {
            assert(tail =~= end);
        }
        only_ascii_case_is_overlooked(name.skip(n), end);
        if same_but_case(name.skip(n), end) {
            assert(same_letter(tail[0], end[0]) && same_letter(tail[1], end[1]) && same_letter(
                tail[2],
                end[2],
            ) && same_letter(tail[3], end[3]));
        }
        if name[n] == '.' && same_letter(name[n + 1], 'e') && same_letter(name[n + 2], 'x')
            && same_letter(name[n + 3], 'e') {
            assert forall|i: int| 0 <= i < 4 implies same_letter(
                #[trigger] name.skip(n)[i],
                end[i],
            ) by {}
        }
    }
}

/// A lower-case name means a process exactly where it is the whole name of the
/// process or of the file of its executable, with or without `.exe`.
pub proof fn only_whole_names_mean_a_process(
    query: Seq<char>,
    process: crate::route_cli::NamedProcessView,
)
    ensures
        is_meant(query, process) <==> bare(process.name) == bare(query) || process.base == Some(
            bare(query),
        ),
{
    endings(query);
    endings(process.name);
    reveal_strlit(".exe");
    let base = without_exe(query);
    if process.name == base + ".exe"@ {
        assert(process.name.take(process.name.len() - 4) =~= base);
        assert(bare(process.name) == base);
    }
}

proof fn names_are_compared_whole(query: Seq<char>, row: AppSessionRowView)
    ensures
        is_meant(lowercase(query), named(row)) <==> has_queried_name(query, row),
{
    let q = lowercase(query);
    let name = lowercase(row.process_name);
    endings(q);
    endings(name);
    reveal_strlit(".exe");
    let base = without_exe(q);
    if name == base + ".exe"@ {
        endings(name);
        assert(name.take(name.len() - 4) =~= base);
        assert(bare(name) == base);
    }
    if let Some(path) = row.executable_path {
        if let Some(file) = file_name(path) {
            endings(file);
        }
    }
}

/// A query that is no number means the processes whose name, or the name of
/// whose executable, it is as a whole, in lower case and with or without `.exe`:
/// one more process is added exactly where it has the name. Without any there is
/// a message.
pub proof fn queries_mean_whole_names(
    query: Seq<char>,
    rows: Seq<AppSessionRowView>,
    row: AppSessionRowView,
)
    requires
        unsigned_value(query) is None,
    ensures
        resolved_process(query, Seq::empty()) == Err::<Seq<u32>, Seq<char>>(
            "Aucun processus audio actif « "@ + query
                + " ». Utilisez « route sessions » pour lister les processus."@,
        ),
        resolved_process(query, rows.push(row)) == (if has_queried_name(query, row) {
            match resolved_process(query, rows) {
                Ok(pids) => Ok::<Seq<u32>, Seq<char>>(pids.push(row.pid)),
                Err(_) => Ok(seq![row.pid]),
            }
        } else {
            resolved_process(query, rows)
        }),
{
    let q = lowercase(query);
    let f = |row: AppSessionRowView| named(row);
    let p = |p: NamedProcessView| is_meant(q, p);
    let g = |p: NamedProcessView| p.pid;
    let before = rows.map_values(f);
    names_are_compared_whole(query, row);
    assert(rows.push(row).map_values(f) =~= before.push(named(row)));
    before.lemma_filter_push(named(row), p);
    assert(before.filter(p).push(named(row)).map_values(g) =~= before.filter(p).map_values(g).push(
        row.pid,
    ));
    reveal(Seq::filter);
    assert(Seq::<AppSessionRowView>::empty().map_values(f).filter(p).map_values(g).len() == 0);
    if meant_pids(q, before).len() == 0 {
        assert(meant_pids(q, before).push(row.pid) =~= seq![row.pid]);
    }
}

/// Is it the number of a process of the list that has the queried name?
pub open spec fn is_pid_with_name(
    query: Seq<char>,
    rows: Seq<AppSessionRowView>,
    pid: u32,
) -> bool {
    exists|i: int|
        0 <= i < rows.len() && has_queried_name(query, #[trigger] rows[i]) && rows[i].pid == pid
}

/// Every process that a query which is no number resolves to has the queried
/// name, and every process that has it is among them.
pub proof fn only_processes_with_the_name_are_meant(
    query: Seq<char>,
    rows: Seq<AppSessionRowView>,
)
    requires
        unsigned_value(query) is None,
    ensures
        match resolved_process(query, rows) {
            Ok(pids) => (forall|k: int|
                0 <= k < pids.len() ==> is_pid_with_name(query, rows, #[trigger] pids[k])) && (forall|
                i: int,
            |
                0 <= i < rows.len() && has_queried_name(query, #[trigger] rows[i])
                    ==> pids.contains(rows[i].pid)),
            Err(_) => forall|i: int|
                0 <= i < rows.len() ==> !has_queried_name(query, #[trigger] rows[i]),
        },
    decreases rows.len(),
{
    if rows.len() == 0 {
        assert(rows =~= Seq::empty());
        queries_mean_whole_names(query, rows, arbitrary());
    } else {
        let init = rows.drop_last();
        let row = rows.last();
        assert(init.push(row) == rows);
        only_processes_with_the_name_are_meant(query, init);
        queries_mean_whole_names(query, init, row);
        match resolved_process(query, rows) {
            Ok(pids) => {
                assert forall|k: int| 0 <= k < pids.len() implies is_pid_with_name(
                    query,
                    rows,
                    #[trigger] pids[k],
                ) by {
                    let last = has_queried_name(query, row) && k == pids.len() - 1;
                    if last {
                        assert(rows[rows.len() - 1] == row);
                        assert(rows[rows.len() - 1].pid == pids[k]);
                    } else {
                        let earlier = resolved_process(query, init)->Ok_0;
                        assert(earlier[k] == pids[k]);
                        assert(is_pid_with_name(query, init, earlier[k]));
                        let i = choose|i: int|
                            0 <= i < init.len() && has_queried_name(query, #[trigger] init[i])
                                && init[i].pid == earlier[k];
                        assert(rows[i] == init[i]);
                    }
                }
                assert forall|i: int| 0 <= i < rows.len() && has_queried_name(
                    query,
                    #[trigger] rows[i],
                ) implies pids.contains(rows[i].pid) by {
                    if i == rows.len() - 1 {
                        assert(pids[pids.len() - 1] == rows[i].pid);
                    } else {
                        assert(init[i] == rows[i]);
                        let earlier = resolved_process(query, init)->Ok_0;
                        assert(earlier.contains(rows[i].pid));
                        let k = choose|k: int|
                            0 <= k < earlier.len() && earlier[k] == rows[i].pid;
                        assert(pids[k] == rows[i].pid);
                    }
                }
            },
            Err(_) => {
                assert forall|i: int| 0 <= i < rows.len() implies !has_queried_name(
                    query,
                    #[trigger] rows[i],
                ) by {
                    if i < init.len() {
                        assert(init[i] == rows[i]);
                    }
                }
            },
        }
    }
}

/// A number means the one process that has it; zero and the numbers of processes
/// without audio mean none.
pub proof fn numbers_mean_one_process(query: Seq<char>, rows: Seq<AppSessionRowView>, pid: u32)
    requires
        unsigned_value(query) == Some(pid),
    ensures
        pid == 0 ==> resolved_process(query, rows) == Err::<Seq<u32>, Seq<char>>(
            "PID invalide : 0"@,
        ),
        pid != 0 && (exists|i: int| 0 <= i < rows.len() && (#[trigger] rows[i]).pid == pid)
            ==> resolved_process(query, rows) == Ok::<Seq<u32>, Seq<char>>(seq![pid]),
        pid != 0 && (forall|i: int| 0 <= i < rows.len() ==> (#[trigger] rows[i]).pid != pid)
            ==> resolved_process(query, rows) == Err::<Seq<u32>, Seq<char>>(
            "PID "@ + decimal(pid as nat)
                + " : aucune session audio active. Lancez l'application puis réessayez (ou « route sessions »)."@,
        ),
{
}

// ---------------------------------------------------------------------------
// Devices
// ---------------------------------------------------------------------------

/// Does the query stand for the system's device?
pub open spec fn means_the_system(query: Seq<char>) -> bool {
    let word = lowercase(query);
    ||| word == "system"@
    ||| word == "système"@
    ||| word == "default"@
    ||| word == "clear"@
    ||| word == "-"@
    ||| word.len() == 0
}

/// Is it the first device of the list with the identifier?
pub open spec fn is_first_with_id(devices: DeviceListView, i: int, id: Seq<char>) -> bool {
    0 <= i < devices.len() && same_but_case(devices[i].0, id) && forall|j: int|
        0 <= j < i ==> !same_but_case((#[trigger] devices[j]).0, id)
}

/// Has no device of the list the identifier?
pub open spec fn nobody_has_id(devices: DeviceListView, id: Seq<char>) -> bool {
    forall|j: int| 0 <= j < devices.len() ==> !same_but_case((#[trigger] devices[j]).0, id)
}

proof fn first_listed(devices: DeviceListView, id: Seq<char>)
    ensures
        nobody_has_id(devices, id) <==> listed_id(devices, id) is None,
        forall|i: int| #[trigger]
            is_first_with_id(devices, i, id) ==> listed_id(devices, id) == Some(devices[i].0),
    decreases devices.len(),
{
    if devices.len() > 0 {
        only_ascii_case_is_overlooked(devices[0].0, id);
        let rest = devices.skip(1);
        first_listed(rest, id);
        if nobody_has_id(devices, id) {
            assert(!same_but_case(devices[0].0, id));
            assert forall|j: int| 0 <= j < rest.len() implies !same_but_case(
                (#[trigger] rest[j]).0,
                id,
            ) by {
                assert(rest[j] == devices[j + 1]);
            }
        }
        if listed_id(devices, id) is None {
            assert forall|j: int| 0 <= j < devices.len() implies !same_but_case(
                (#[trigger] devices[j]).0,
                id,
            ) by {
                if j > 0 {
                    assert(rest[j - 1] == devices[j]);
                }
            }
        }
        assert forall|i: int| #[trigger] is_first_with_id(devices, i, id) implies listed_id(
            devices,
            id,
        ) == Some(devices[i].0) by {
            if i > 0 {
                assert(!same_but_case(devices[0].0, id));
                assert(rest[i - 1] == devices[i]);
                assert forall|j: int| 0 <= j < i - 1 implies !same_but_case(
                    (#[trigger] rest[j]).0,
                    id,
                ) by {
                    assert(rest[j] == devices[j + 1]);
                }
                assert(is_first_with_id(rest, i - 1, id));
            }
        }
    }
}

/// Words for the system's device mean no device; every other query means one, or
/// there is a message, the same for all where no device is active.
pub proof fn only_system_words_mean_no_device(
    query: Seq<char>,
    flow: Flow,
    devices: DeviceListView,
)
    ensures
        means_the_system(query) <==> resolved_device(query, flow, devices) == Ok::<
            Option<Seq<char>>,
            Seq<char>,
        >(None),
        !means_the_system(query) && devices.len() == 0 ==> resolved_device(query, flow, devices)
            == Err::<Option<Seq<char>>, Seq<char>>("Aucun périphérique actif sur ce flux."@),
{
    reveal_strlit("");
    assert(lowercase(query).len() == 0 <==> lowercase(query) =~= ""@);
}

/// A query that is the identifier of a device means it, whatever names it might
/// also be part of; so does one that packs the identifier, where it is none
/// itself.
pub proof fn identifiers_come_first(
    query: Seq<char>,
    flow: Flow,
    devices: DeviceListView,
    i: int,
    id: Seq<char>,
    packed_for: Flow,
)
    requires
        !means_the_system(query),
        is_first_with_id(devices, i, id),
        query == id || (query == packed(packed_for, id) && nobody_has_id(devices, query)),
    ensures
        resolved_device(query, flow, devices) == Ok::<Option<Seq<char>>, Seq<char>>(
            Some(devices[i].0),
        ),
{
    reveal_strlit("");
    assert(lowercase(query).len() == 0 <==> lowercase(query) =~= ""@);
    first_listed(devices, id);
    first_listed(devices, query);
    crate::route_cli::packed_id_inverts_pack(packed_for, id);
}

/// The packed form of an identifier.
pub proof fn packed_identifiers_are_spelled(id: Seq<char>)
    ensures
        packed(Flow::Output, id) == r"\\?\SWD#MMDEVAPI#"@ + id
            + "#{e6327cad-dcec-4949-ae8a-991e976a79d2}"@,
        packed(Flow::Input, id) == r"\\?\SWD#MMDEVAPI#"@ + id
            + "#{2eef81be-33fa-4800-9670-1cd474972c3f}"@,
{
}

/// Is the query no identifier of the list, plain or packed?
pub open spec fn is_no_identifier(query: Seq<char>, devices: DeviceListView) -> bool {
    nobody_has_id(devices, query) && (packed_id(query) is None || nobody_has_id(
        devices,
        packed_id(query)->Some_0,
    ))
}

/// Only a query behind the mark of packed identifiers packs one: what stands
/// behind the mark, up to the last opening of an interface.
pub proof fn only_marked_queries_pack(query: Seq<char>)
    ensures
        packed_id(query) is Some <==> r"\\?\SWD#MMDEVAPI#"@.is_prefix_of(query),
{
}

/// Is it the only device of the list with the name?
pub open spec fn is_only_with_name(devices: DeviceListView, i: int, name: Seq<char>) -> bool {
    0 <= i < devices.len() && same_but_case(devices[i].1, name) && forall|j: int|
        0 <= j < devices.len() && j != i ==> !same_but_case((#[trigger] devices[j]).1, name)
}

proof fn only_one_is_left(devices: DeviceListView, f: spec_fn((Seq<char>, Seq<char>)) -> bool)
    ensures
        devices.filter(f).len() == 1 ==> exists|i: int|
            0 <= i < devices.len() && f(#[trigger] devices[i]) && devices.filter(f)[0]
                == devices[i] && forall|j: int|
                0 <= j < devices.len() && j != i ==> !f(#[trigger] devices[j]),
        devices.filter(f).len() == 0 <==> forall|j: int|
            0 <= j < devices.len() ==> !f(#[trigger] devices[j]),
        forall|i: int|
            #![trigger devices[i]]
            0 <= i < devices.len() && f(devices[i]) && (forall|j: int|
                0 <= j < devices.len() && j != i ==> !f(#[trigger] devices[j])) ==> devices.filter(
                f,
            ) == seq![devices[i]],
    decreases devices.len(),
{
    if devices.len() == 0 {
        reveal(Seq::filter);
    } else {
        let init = devices.drop_last();
        let last = devices.last();
        let n = init.len() as int;
        assert(init.push(last) == devices);
        init.lemma_filter_push(last, f);
        only_one_is_left(init, f);
        let before = init.filter(f);
        assert(devices[n] == last);
        assert forall|j: int| 0 <= j < n implies #[trigger] devices[j] == init[j] by {}
        if devices.filter(f).len() == 1 {
            if f(last) {
                assert(before.len() == 0);
                assert forall|j: int| 0 <= j < devices.len() && j != n implies !f(
                    #[trigger] devices[j],
                ) by {
                    assert(!f(init[j]));
                }
                assert(devices.filter(f)[0] == devices[n]);
            } else {
                let i = choose|i: int|
                    0 <= i < init.len() && f(#[trigger] init[i]) && before[0] == init[i] && forall|
                        j: int,
                    |
                        0 <= j < init.len() && j != i ==> !f(#[trigger] init[j]);
                assert(devices[i] == init[i]);
                assert forall|j: int| 0 <= j < devices.len() && j != i implies !f(
                    #[trigger] devices[j],
                ) by {
                    if j < n {
                        assert(!f(init[j]));
                    }
                }
            }
        }
        if devices.filter(f).len() == 0 {
            assert forall|j: int| 0 <= j < devices.len() implies !f(#[trigger] devices[j]) by {
                if j < n {
                    assert(!f(init[j]));
                }
            }
        }
        if forall|j: int| 0 <= j < devices.len() ==> !f(#[trigger] devices[j]) {
            assert(!f(devices[n]));
            assert forall|j: int| 0 <= j < init.len() implies !f(#[trigger] init[j]) by {
                assert(!f(devices[j]));
            }
        }
        assert forall|i: int|
            #![trigger devices[i]]
            0 <= i < devices.len() && f(devices[i]) && (forall|j: int|
                0 <= j < devices.len() && j != i ==> !f(
                    #[trigger] devices[j],
                )) implies devices.filter(f) == seq![devices[i]] by {
            if i == n {
                assert forall|j: int| 0 <= j < init.len() implies !f(#[trigger] init[j]) by {
                    assert(!f(devices[j]));
                }
                assert(before.len() == 0);
                assert(devices.filter(f) =~= seq![devices[i]]);
            } else {
                assert(!f(devices[n]));
                assert(init[i] == devices[i]);
                assert forall|j: int| 0 <= j < init.len() && j != i implies !f(
                    #[trigger] init[j],
                ) by {
                    assert(!f(devices[j]));
                }
            }
        }
    }
}

proof fn parts_are_filtered(
    devices: DeviceListView,
    names: Seq<Seq<char>>,
    part: Seq<char>,
)
    requires
        names.len() >= devices.len(),
        forall|i: int| 0 <= i < devices.len() ==> #[trigger] names[i] == lowercase(devices[i].1),
    ensures
        with_name_part(devices, names, part) == devices.filter(
            |d: (Seq<char>, Seq<char>)| contains(lowercase(d.1), part),
        ),
    decreases devices.len(),
{
    let f = |d: (Seq<char>, Seq<char>)| contains(lowercase(d.1), part);
    if devices.len() == 0 {
        reveal(Seq::filter);
    } else {
        let init = devices.drop_last();
        assert(init.push(devices.last()) == devices);
        init.lemma_filter_push(devices.last(), f);
        assert forall|i: int| 0 <= i < init.len() implies #[trigger] names[i] == lowercase(
            init[i].1,
        ) by {
            assert(init[i] == devices[i]);
        }
        parts_are_filtered(init, names, part);
        assert(names[devices.len() - 1] == lowercase(devices.last().1));
    }
}

/// Does the name of the device hold the query, both in lower case?
pub open spec fn name_holds(device: (Seq<char>, Seq<char>), query: Seq<char>) -> bool {
    contains(lowercase(device.1), lowercase(query))
}

/// A query that is no identifier means the one device whose name it is; else the
/// one device whose name holds it; else there is a message, which names the
/// devices where there are several.
pub proof fn names_come_after_identifiers(
    query: Seq<char>,
    flow: Flow,
    devices: DeviceListView,
    i: int,
)
    requires
        !means_the_system(query),
        devices.len() > 0,
        is_no_identifier(query, devices),
    ensures
        is_only_with_name(devices, i, query) ==> resolved_device(query, flow, devices) == Ok::<
            Option<Seq<char>>,
            Seq<char>,
        >(Some(devices[i].0)),
        (forall|j: int| !#[trigger] is_only_with_name(devices, j, query)) ==> {
            &&& 0 <= i < devices.len() && name_holds(devices[i], query) && (forall|j: int|
                0 <= j < devices.len() && j != i ==> !name_holds(#[trigger] devices[j], query))
                ==> resolved_device(query, flow, devices) == Ok::<Option<Seq<char>>, Seq<char>>(
                Some(devices[i].0),
            )
            &&& (forall|j: int|
                0 <= j < devices.len() ==> !name_holds(#[trigger] devices[j], query))
                ==> resolved_device(query, flow, devices) == Err::<Option<Seq<char>>, Seq<char>>(
                "Aucun périphérique de sortie correspondant à « "@ + query
                    + " ». Utilisez « route devices "@ + of_flow(flow, "output"@, "input"@)
                    + " »."@,
            )
            &&& (exists|a: int, b: int|
                0 <= a < b < devices.len() && name_holds(#[trigger] devices[a], query)
                    && name_holds(#[trigger] devices[b], query)) ==> resolved_device(
                query,
                flow,
                devices,
            ) == Err::<Option<Seq<char>>, Seq<char>>(
                "Plusieurs périphériques correspondent à « "@ + query + " » : "@ + joined(
                    devices.filter(|d: (Seq<char>, Seq<char>)| name_holds(d, query)).map_values(
                        |d: (Seq<char>, Seq<char>)| d.1,
                    ),
                    " · "@,
                ),
            )
        },
{
    reveal_strlit("");
    assert(lowercase(query).len() == 0 <==> lowercase(query) =~= ""@);
    first_listed(devices, query);
    if packed_id(query) is Some {
        first_listed(devices, packed_id(query)->Some_0);
    }
    let f = |d: (Seq<char>, Seq<char>)| eq_ascii_fold(d.1, query);
    assert forall|d: (Seq<char>, Seq<char>)| #[trigger] f(d) <==> same_but_case(d.1, query) by {
        only_ascii_case_is_overlooked(d.1, query);
    }
    only_one_is_left(devices, f);
    let names = devices.map_values(|d: (Seq<char>, Seq<char>)| lowercase(d.1));
    let lower = lowercase(query);
    parts_are_filtered(devices, names, lower);
    let g = |d: (Seq<char>, Seq<char>)| contains(lowercase(d.1), lower);
    let h = |d: (Seq<char>, Seq<char>)| name_holds(d, query);
    assert(g =~= h);
    only_one_is_left(devices, g);
    if is_only_with_name(devices, i, query) {
        assert(f(devices[i]));
        assert forall|j: int| 0 <= j < devices.len() && j != i implies !f(#[trigger] devices[j]) by {
            assert(!same_but_case(devices[j].1, query));
        }
        assert(devices.filter(f) == seq![devices[i]]);
    }
    if forall|j: int| !#[trigger] is_only_with_name(devices, j, query) {
        if devices.filter(f).len() == 1 {
            let k = choose|k: int|
                0 <= k < devices.len() && f(#[trigger] devices[k]) && devices.filter(f)[0]
                    == devices[k] && forall|j: int|
                    0 <= j < devices.len() && j != k ==> !f(#[trigger] devices[j]);
            assert forall|j: int| 0 <= j < devices.len() && j != k implies !same_but_case(
                (#[trigger] devices[j]).1,
                query,
            ) by {
                assert(!f(devices[j]));
            }
            assert(is_only_with_name(devices, k, query));
        }
        if 0 <= i < devices.len() && name_holds(devices[i], query) && (forall|j: int|
            0 <= j < devices.len() && j != i ==> !name_holds(#[trigger] devices[j], query)) {
            assert(g(devices[i]));
            assert forall|j: int| 0 <= j < devices.len() && j != i implies !g(
                #[trigger] devices[j],
            ) by {
                assert(!name_holds(devices[j], query));
            }
        }
        if forall|j: int| 0 <= j < devices.len() ==> !name_holds(#[trigger] devices[j], query) {
            assert forall|j: int| 0 <= j < devices.len() implies !g(#[trigger] devices[j]) by {
                assert(!name_holds(devices[j], query));
            }
        }
        if exists|a: int, b: int|
            0 <= a < b < devices.len() && name_holds(#[trigger] devices[a], query) && name_holds(
                #[trigger] devices[b],
                query,
            ) {
            let (a, b) = choose|a: int, b: int|
                0 <= a < b < devices.len() && name_holds(#[trigger] devices[a], query)
                    && name_holds(#[trigger] devices[b], query);
            assert(g(devices[a]) && g(devices[b]));
        }
    }
}

// ---------------------------------------------------------------------------
// Setting and printing
// ---------------------------------------------------------------------------

/// A route is set for the processes and to the device that are meant; where
/// either is not found, or the processes are not known, the reason is told and
/// nothing is set.
pub proof fn routes_are_set_as_meant(
    process: Seq<char>,
    flow: Flow,
    device: Seq<char>,
    rows: Seq<AppSessionRowView>,
    devices: DeviceListView,
    reason: Seq<char>,
)
    ensures
        planned_set(process, flow, device, Err(reason), devices) == Err::<
            (Seq<u32>, Option<Seq<char>>),
            Seq<char>,
        >(reason),
        planned_set(process, flow, device, Ok(rows), devices) is Ok <==> resolved_process(
            process,
            rows,
        ) is Ok && resolved_device(device, flow, devices) is Ok,
        planned_set(process, flow, device, Ok(rows), devices) matches Ok(plan) ==> resolved_process(
            process,
            rows,
        ) == Ok::<Seq<u32>, Seq<char>>(plan.0) && resolved_device(device, flow, devices) == Ok::<
            Option<Seq<char>>,
            Seq<char>,
        >(plan.1),
        planned_set(process, flow, device, Ok(rows), devices) matches Err(told) ==> (
        resolved_process(process, rows) matches Err(found) && told == found) || (resolved_device(
            device,
            flow,
            devices,
        ) matches Err(found) && told == found),
{
}

/// What a route is called: its device's name, or its identifier where there is
/// no name, or the system's device.
pub open spec fn route_is_called(route: Option<RouteTargetView>) -> Seq<char> {
    if route is None {
        "système"@
    } else if route->Some_0.device_name is Some && route->Some_0.device_name->Some_0.len() > 0 {
        route->Some_0.device_name->Some_0
    } else {
        route->Some_0.device_id
    }
}

/// The list of sessions has a head, one line for each process in their order,
/// and a foot; a line tells the number, whether it plays, the name and the two
/// routes, in columns.
pub proof fn sessions_are_printed_in_order(rows: Seq<AppSessionRowView>, i: int)
    requires
        0 <= i < rows.len(),
    ensures
        sessions_output(rows).code == 0,
        sessions_output(rows).lines.len() == rows.len() + 2,
        sessions_output(rows).lines[i + 1] == LineView::Out(
            padded(decimal(rows[i].pid as nat), 8) + padded(
                if rows[i].playing {
                    "●"@
                } else {
                    "·"@
                },
                5,
            ) + padded(rows[i].process_name, 26) + padded(route_is_called(rows[i].output), 44)
                + route_is_called(rows[i].input),
        ),
{
}

/// `route get` prints one line for each listed process that is meant, in their
/// order, with both of its routes.
pub proof fn routes_are_printed_for_the_processes_meant(
    rows: Seq<AppSessionRowView>,
    row: AppSessionRowView,
    pids: Seq<u32>,
)
    ensures
        route_lines(Seq::empty(), pids).len() == 0,
        route_lines(rows.push(row), pids) == (if pids.contains(row.pid) {
            route_lines(rows, pids).push(
                LineView::Out(
                    row.process_name + " (PID "@ + decimal(row.pid as nat) + ") : sortie = "@
                        + route_is_called(row.output) + ", entrée = "@ + route_is_called(row.input),
                ),
            )
        } else {
            route_lines(rows, pids)
        }),
{
    let f = |row: AppSessionRowView| pids.contains(row.pid);
    let g = |row: AppSessionRowView| crate::route_cli::route_line(row);
    rows.lemma_filter_push(row, f);
    reveal(Seq::filter);
    assert(rows.filter(f).push(row).map_values(g) =~= rows.filter(f).map_values(g).push(g(row)));
}

/// `route get` of a process that is found prints its routes and succeeds; else
/// it prints the reason and fails.
pub proof fn get_prints_routes_or_the_reason(
    process: Seq<char>,
    rows: Seq<AppSessionRowView>,
    reason: Seq<char>,
)
    ensures
        get_output(process, Err(reason)).code == 1,
        get_output(process, Err(reason)).lines == seq![LineView::Error(reason)],
        match resolved_process(process, rows) {
            Ok(pids) => get_output(process, Ok(rows)).code == 0 && get_output(
                process,
                Ok(rows),
            ).lines == route_lines(rows, pids),
            Err(told) => get_output(process, Ok(rows)).code == 1 && get_output(
                process,
                Ok(rows),
            ).lines == seq![LineView::Error(told)],
        },
{
}

/// `route set` prints one line for each process, in their order, of success or
/// failure, and succeeds only where every route was set.
pub proof fn set_prints_each_outcome(
    process: Seq<char>,
    flow: Flow,
    target: Seq<char>,
    pids: Seq<u32>,
    outcomes: Seq<Result<(), String>>,
    i: int,
)
    requires
        pids.len() == outcomes.len(),
        0 <= i < pids.len(),
    ensures
        ({
            let printed = set_output(process, flow, target, pids, outcomes);
            &&& printed.lines.len() == pids.len()
            &&& printed.code == 0 || printed.code == 1
            &&& printed.code == 0 <==> forall|k: int|
                0 <= k < outcomes.len() ==> (#[trigger] outcomes[k]) is Ok
            &&& printed.lines[i] == (match outcomes[i] {
                Ok(_) => LineView::Out(
                    "OK : "@ + process + " (PID "@ + decimal(pids[i] as nat) + ") — "@ + of_flow(
                        flow,
                        "sortie"@,
                        "entrée"@,
                    ) + " "@ + target,
                ),
                Err(reason) => LineView::Error(
                    "Échec pour le PID "@ + decimal(pids[i] as nat) + " : "@ + reason@,
                ),
            })
        }),
{
}

/// What a target is called when it was set: the name that the list gives the
/// first device with its identifier, or the identifier itself, or the system's
/// device.
pub proof fn set_targets_are_called_by_name(devices: DeviceListView, id: Seq<char>, i: int)
    ensures
        set_target(devices, None) == "→ périphérique système"@,
        0 <= i < devices.len() && devices[i].0 == id && (forall|j: int|
            0 <= j < i ==> (#[trigger] devices[j]).0 != id) ==> set_target(devices, Some(id))
            == "→ "@ + devices[i].1,
        (forall|j: int| 0 <= j < devices.len() ==> (#[trigger] devices[j]).0 != id) ==> set_target(
            devices,
            Some(id),
        ) == "→ "@ + id,
    decreases devices.len(),
{
    if devices.len() > 0 && devices[0].0 != id {
        let rest = devices.skip(1);
        set_targets_are_called_by_name(rest, id, i - 1);
        if 0 <= i < devices.len() && devices[i].0 == id && (forall|j: int|
            0 <= j < i ==> (#[trigger] devices[j]).0 != id) {
            assert(rest[i - 1] == devices[i]);
            assert forall|j: int| 0 <= j < i - 1 implies (#[trigger] rest[j]).0 != id by {
                assert(rest[j] == devices[j + 1]);
            }
            assert(shown_device(rest, id) == devices[i].1) by {
                named_in_rest(rest, id, i - 1);
            }
        }
        if forall|j: int| 0 <= j < devices.len() ==> (#[trigger] devices[j]).0 != id {
            assert forall|j: int| 0 <= j < rest.len() implies (#[trigger] rest[j]).0 != id by {
                assert(rest[j] == devices[j + 1]);
            }
            unnamed_in_rest(rest, id);
        }
    }
}

proof fn named_in_rest(devices: DeviceListView, id: Seq<char>, i: int)
    requires
        0 <= i < devices.len(),
        devices[i].0 == id,
        forall|j: int| 0 <= j < i ==> (#[trigger] devices[j]).0 != id,
    ensures
        shown_device(devices, id) == devices[i].1,
    decreases devices.len(),
{
    if i > 0 {
        assert(devices[0].0 != id);
        assert(devices.skip(1)[i - 1] == devices[i]);
        assert forall|j: int| 0 <= j < i - 1 implies (#[trigger] devices.skip(1)[j]).0 != id by {
            assert(devices.skip(1)[j] == devices[j + 1]);
        }
        named_in_rest(devices.skip(1), id, i - 1);
    }
}

proof fn unnamed_in_rest(devices: DeviceListView, id: Seq<char>)
    requires
        forall|j: int| 0 <= j < devices.len() ==> (#[trigger] devices[j]).0 != id,
    ensures
        shown_device(devices, id) == id,
    decreases devices.len(),
{
    if devices.len() > 0 {
        assert(devices[0].0 != id);
        assert forall|j: int| 0 <= j < devices.skip(1).len() implies (#[trigger] devices.skip(
            1,
        )[j]).0 != id by {
            assert(devices.skip(1)[j] == devices[j + 1]);
        }
        unnamed_in_rest(devices.skip(1), id);
    }
}

/// The arguments of a command are taken in their order: the process, then for
/// `set` the flow and the device.
pub proof fn arguments_are_taken_in_order(args: Seq<Seq<char>>)
    requires
        args.len() > 0,
    ensures
        args[0] == "sessions"@ ==> requested(args) == RequestView::Sessions,
        args[0] == "get"@ && args.len() > 1 ==> requested(args) == RequestView::Get(args[1]),
        args[0] == "devices"@ && args.len() == 1 ==> requested(args) == RequestView::Devices(
            seq![Flow::Output, Flow::Input],
        ),
        args[0] == "devices"@ && args.len() > 1 && args[1] == "output"@ ==> requested(args)
            == RequestView::Devices(seq![Flow::Output]),
        args[0] == "devices"@ && args.len() > 1 && args[1] == "input"@ ==> requested(args)
            == RequestView::Devices(seq![Flow::Input]),
        args[0] == "set"@ && args.len() > 3 && args[2] == "output"@ ==> requested(args)
            == (RequestView::Assign { process: args[1], flow: Flow::Output, device: args[3] }),
        args[0] == "set"@ && args.len() > 3 && args[2] == "input"@ ==> requested(args) == (
        RequestView::Assign { process: args[1], flow: Flow::Input, device: args[3] }),
        (args[0] == "get"@ && args.len() < 2) || (args[0] == "set"@ && args.len() < 4)
            ==> requested(args) is Finish && requested(args)->Finish_0.code == 1,
{
    reveal_strlit("help");
    reveal_strlit("-h");
    reveal_strlit("--help");
    reveal_strlit("sessions");
    reveal_strlit("devices");
    reveal_strlit("get");
    reveal_strlit("set");
    reveal_strlit("output");
    reveal_strlit("input");
    assert("help"@.len() == 4 && "-h"@.len() == 2 && "--help"@.len() == 6 && "sessions"@.len() == 8
        && "devices"@.len() == 7 && "get"@.len() == 3 && "set"@.len() == 3 && "output"@.len() == 6
        && "input"@.len() == 5);
    assert("get"@[0] != "set"@[0]);
}

} // verus!
