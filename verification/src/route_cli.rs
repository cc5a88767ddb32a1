//! The `route` command: routing from the command line.

use crate::app_routing::devices::MMDEVAPI_TOKEN;
use crate::app_routing::ffi::routing_unavailable_message;
use crate::app_routing::profile_apps::{AppSessionRow, AppSessionRowView, RouteTarget, RouteTargetView};
use crate::app_routing::sessions::pid_listed;
use crate::app_routing::{DeviceList, DeviceListView, Flow};
use crate::encoding;
use crate::paths;
use crate::text;
use vstd::prelude::*;

use crate::app_routing::devices::{packed, CAPTURE_INTERFACE, RENDER_INTERFACE};
use crate::app_routing::ffi::routing_unavailable;
use crate::app_routing::restore::outcome_view;
use crate::app_routing::{flow_label, flow_name, flow_named};
use crate::encoding::{is_ascii_text, lowercase};
use crate::text::{
    after_prefix, ascii_folded, before_suffix, decimal, eq_ascii_fold, joined, padded,
};

verus! {

/// What the command says of its use.
pub const USAGE: &'static str = "Audio Config Manager — route (routage audio par application)\n\nUsage :\n  Audio Config Manager.exe route sessions                      Liste les processus audio actifs et leurs routes\n  Audio Config Manager.exe route devices [output|input]        Liste les périphériques actifs (identifiant + nom)\n  Audio Config Manager.exe route get <process>                 Routes persistées d'un processus\n  Audio Config Manager.exe route set <process> <output|input> <device|system>\n                                                               Route le processus vers un périphérique ;\n                                                               « system » efface la route (périphérique système)\n\nExemples :\n  Audio Config Manager.exe route sessions\n  Audio Config Manager.exe route devices output\n  Audio Config Manager.exe route set 1234 output \"Voicemeeter In 2 (VB-Audio Voicemeeter VAIO)\"\n  Audio Config Manager.exe route set firefox input system";

/// How `route get` is used.
pub const USAGE_GET: &'static str = "Usage : route get <process>";

/// How `route set` is used.
pub const USAGE_SET: &'static str = "Usage : route set <process> <output|input> <device|system>";

// ---------------------------------------------------------------------------
// Output
// ---------------------------------------------------------------------------

/// A line to print.
#[derive(Debug, PartialEq, Eq)]
pub enum Line {
    /// On the standard output.
    Out(String),
    /// On the standard error output.
    Error(String),
}

/// A line to print, as contracts speak of it.
pub enum LineView {
    Out(Seq<char>),
    Error(Seq<char>),
}

impl DeepView for Line {
    type V = LineView;

    open spec fn deep_view(&self) -> LineView {
        match self {
            Line::Out(text) => LineView::Out(text@),
            Line::Error(text) => LineView::Error(text@),
        }
    }
}

/// What the command prints and the code with which it ends.
#[derive(Debug)]
pub struct CliOutput {
    pub lines: Vec<Line>,
    pub code: i32,
}

/// Output of the command, as contracts speak of it.
pub struct CliOutputView {
    pub lines: Seq<LineView>,
    pub code: i32,
}

impl DeepView for CliOutput {
    type V = CliOutputView;

    open spec fn deep_view(&self) -> CliOutputView {
        CliOutputView { lines: self.lines.deep_view(), code: self.code }
    }
}

fn push_line(lines: &mut Vec<Line>, line: Line)
    ensures
        final(lines).deep_view() == old(lines).deep_view().push(line.deep_view()),
{
    let ghost before = lines.deep_view();
    lines.push(line);
    assert(lines.deep_view() =~= before.push(line.deep_view()));
}

fn no_lines() -> (r: Vec<Line>)
    ensures
        r.deep_view() == Seq::<LineView>::empty(),
{
    let lines: Vec<Line> = Vec::new();
    assert(lines.deep_view() =~= Seq::<LineView>::empty());
    lines
}

/// The output of a command that only says what went wrong.
pub open spec fn failure(message: Seq<char>) -> CliOutputView {
    CliOutputView { lines: seq![LineView::Error(message)], code: 1 }
}

fn fail(message: String) -> (r: CliOutput)
    ensures
        r.deep_view() == failure(message@),
{
    let mut lines = no_lines();
    push_line(&mut lines, Line::Error(message));
    assert(lines.deep_view() =~= seq![LineView::Error(message@)]);
    CliOutput { lines, code: 1 }
}

// ---------------------------------------------------------------------------
// Arguments
// ---------------------------------------------------------------------------

/// What the arguments ask for.
#[derive(Debug)]
pub enum Request {
    /// Print this and end.
    Finish(CliOutput),
    /// List the processes with audio.
    Sessions,
    /// List the devices of these flows.
    Devices(Vec<Flow>),
    /// Show the routes of a process.
    Get(String),
    /// Route a process.
    Assign { process: String, flow: Flow, device: String },
}

/// A request, as contracts speak of it.
pub enum RequestView {
    Finish(CliOutputView),
    Sessions,
    Devices(Seq<Flow>),
    Get(Seq<char>),
    Assign { process: Seq<char>, flow: Flow, device: Seq<char> },
}

impl DeepView for Request {
    type V = RequestView;

    open spec fn deep_view(&self) -> RequestView {
        match self {
            Request::Finish(output) => RequestView::Finish(output.deep_view()),
            Request::Sessions => RequestView::Sessions,
            Request::Devices(flows) => RequestView::Devices(flows@),
            Request::Get(process) => RequestView::Get(process@),
            Request::Assign { process, flow, device } => RequestView::Assign {
                process: process@,
                flow: *flow,
                device: device@,
            },
        }
    }
}

/// What is said of a flow that is not known.
pub open spec fn unknown_flow(name: Seq<char>) -> Seq<char> {
    "Flux inconnu : "@ + name + " (attendu « output » ou « input »)"@
}

/// What `route devices` asks for.
pub open spec fn devices_request(flow: Option<Seq<char>>) -> RequestView {
    match flow {
        None => RequestView::Devices(seq![Flow::Output, Flow::Input]),
        Some(name) => match flow_named(name) {
            Some(flow) => RequestView::Devices(seq![flow]),
            None => RequestView::Finish(failure(unknown_flow(name))),
        },
    }
}

/// What `route set` asks for.
pub open spec fn set_request(args: Seq<Seq<char>>) -> RequestView {
    if args.len() < 4 {
        RequestView::Finish(failure(USAGE_SET@))
    } else {
        match flow_named(args[2]) {
            Some(flow) => RequestView::Assign { process: args[1], flow, device: args[3] },
            None => RequestView::Finish(failure(unknown_flow(args[2]))),
        }
    }
}

/// What the arguments ask for.
pub open spec fn requested(args: Seq<Seq<char>>) -> RequestView {
    if args.len() == 0 {
        RequestView::Finish(CliOutputView { lines: seq![LineView::Out(USAGE@)], code: 1 })
    } else if args[0] == "help"@ || args[0] == "-h"@ || args[0] == "--help"@ {
        RequestView::Finish(CliOutputView { lines: seq![LineView::Out(USAGE@)], code: 0 })
    } else if args[0] == "sessions"@ {
        RequestView::Sessions
    } else if args[0] == "devices"@ {
        devices_request(
            if args.len() > 1 {
                Some(args[1])
            } else {
                None
            },
        )
    } else if args[0] == "get"@ {
        if args.len() > 1 {
            RequestView::Get(args[1])
        } else {
            RequestView::Finish(failure(USAGE_GET@))
        }
    } else if args[0] == "set"@ {
        set_request(args)
    } else {
        RequestView::Finish(
            CliOutputView {
                lines: seq![
                    LineView::Error("Commande inconnue : "@ + args[0] + "\n"@),
                    LineView::Out(USAGE@),
                ],
                code: 1,
            },
        )
    }
}

fn usage(code: i32) -> (r: CliOutput)
    ensures
        r.deep_view() == (CliOutputView { lines: seq![LineView::Out(USAGE@)], code }),
{
    let mut lines = no_lines();
    push_line(&mut lines, Line::Out(text::owned(USAGE)));
    assert(lines.deep_view() =~= seq![LineView::Out(USAGE@)]);
    CliOutput { lines, code }
}

fn flow_from_name(name: &str) -> (r: Option<Flow>)
    ensures
        r == flow_named(name@),
{
    if text::same(name, "output") {
        Some(Flow::Output)
    } else if text::same(name, "input") {
        Some(Flow::Input)
    } else {
        None
    }
}

fn unknown_flow_message(name: &str) -> (r: String)
    ensures
        r@ == unknown_flow(name@),
{
    let mut out = text::owned("Flux inconnu : ");
    out.append(name);
    out.append(" (attendu « output » ou « input »)");
    out
}

fn parse_devices(flow: Option<&String>) -> (r: Request)
    ensures
        r.deep_view() == devices_request(flow.deep_view()),
{
    let mut flows: Vec<Flow> = Vec::new();
    match flow {
        None => {
            flows.push(Flow::Output);
            flows.push(Flow::Input);
            assert(flows@ =~= seq![Flow::Output, Flow::Input]);
            Request::Devices(flows)
        },
        Some(name) => match flow_from_name(name.as_str()) {
            Some(flow) => {
                flows.push(flow);
                assert(flows@ =~= seq![flow]);
                Request::Devices(flows)
            },
            None => Request::Finish(fail(unknown_flow_message(name.as_str()))),
        },
    }
}

fn parse_set(args: &Vec<String>) -> (r: Request)
    ensures
        r.deep_view() == set_request(args.deep_view()),
{
    if args.len() < 4 {
        return Request::Finish(fail(text::owned(USAGE_SET)));
    }
    match flow_from_name(args[2].as_str()) {
        Some(flow) => Request::Assign {
            process: args[1].clone(),
            flow,
            device: args[3].clone(),
        },
        None => Request::Finish(fail(unknown_flow_message(args[2].as_str()))),
    }
}

/// Reads the arguments of the command.
pub fn run(args: &Vec<String>) -> (r: Request)
    ensures
        r.deep_view() == requested(args.deep_view()),
{
    if args.len() == 0 {
        return Request::Finish(usage(1));
    }
    let first = args[0].as_str();
    if text::same(first, "help") || text::same(first, "-h") || text::same(first, "--help") {
        return Request::Finish(usage(0));
    }
    if text::same(first, "sessions") {
        return Request::Sessions;
    }
    if text::same(first, "devices") {
        return if args.len() > 1 {
            parse_devices(Some(&args[1]))
        } else {
            parse_devices(None)
        };
    }
    if text::same(first, "get") {
        return if args.len() > 1 {
            Request::Get(args[1].clone())
        } else {
            Request::Finish(fail(text::owned(USAGE_GET)))
        };
    }
    if text::same(first, "set") {
        return parse_set(args);
    }
    let mut message = text::owned("Commande inconnue : ");
    message.append(first);
    message.append("\n");
    let mut lines = no_lines();
    push_line(&mut lines, Line::Error(message));
    push_line(&mut lines, Line::Out(text::owned(USAGE)));
    assert(lines.deep_view() =~= seq![LineView::Error(message@), LineView::Out(USAGE@)]);
    Request::Finish(CliOutput { lines, code: 1 })
}

/// Is the program asked for its `route` command?
pub fn is_route_command(args: &Vec<String>) -> (r: bool)
    ensures
        r == (args@.len() > 0 && args@[0]@ == "route"@),
{
    args.len() > 0 && text::same(args[0].as_str(), "route")
}

/// Are there standard outputs already, so that no console is attached? Known is
/// whether the output handle is null, whether it is the invalid one, and the
/// type of what it stands for (zero: unknown).
pub fn outputs_inherited(null: bool, invalid: bool, file_type: u32) -> (r: bool)
    ensures
        r == (!null && !invalid && file_type != 0),
{
    !null && !invalid && file_type != 0
}

// ---------------------------------------------------------------------------
// Sessions and devices
// ---------------------------------------------------------------------------

/// What the command calls the target of a route: the name of its device, its
/// identifier where it has no name, or the system's device.
pub open spec fn route_label(route: Option<RouteTargetView>) -> Seq<char> {
    match route {
        None => "système"@,
        Some(target) => match target.device_name {
            Some(name) => if name.len() > 0 {
                name
            } else {
                target.device_id
            },
            None => target.device_id,
        },
    }
}

/// What the command calls the target of a route.
pub fn device_label(route: &Option<RouteTarget>) -> (r: String)
    ensures
        r@ == route_label(route.deep_view()),
{
    match route {
        None => text::owned("système"),
        Some(target) => match &target.device_name {
            Some(name) => {
                if !name.as_str().is_empty() {
                    name.clone()
                } else {
                    target.device_id.clone()
                }
            },
            None => target.device_id.clone(),
        },
    }
}

/// The processes with audio, where there is an engine and they could be listed.
pub fn collect(available: bool, listed: Result<Vec<AppSessionRow>, String>) -> (r: Result<
    Vec<AppSessionRow>,
    String,
>)
    ensures
        if !available {
            r is Err && r->Err_0@ == routing_unavailable()
        } else {
            match listed {
                Ok(rows) => r is Ok && r->Ok_0 == rows,
                Err(reason) => r is Err && r->Err_0@ == reason@,
            }
        },
{
    if !available {
        return Err(routing_unavailable_message());
    }
    listed
}

/// Head of the list of processes.
pub open spec fn sessions_head() -> Seq<char> {
    padded("PID"@, 8) + padded("LECT"@, 5) + padded("PROCESSUS"@, 26) + padded("SORTIE"@, 44)
        + "ENTRÉE"@
}

/// Row of the list of processes.
pub open spec fn session_line(row: AppSessionRowView) -> Seq<char> {
    padded(decimal(row.pid as nat), 8) + padded(
        if row.playing {
            "●"@
        } else {
            "·"@
        },
        5,
    ) + padded(row.process_name, 26) + padded(route_label(row.output), 44) + route_label(row.input)
}

/// What `route sessions` prints.
pub open spec fn sessions_output(rows: Seq<AppSessionRowView>) -> CliOutputView {
    if rows.len() == 0 {
        CliOutputView {
            lines: seq![
                LineView::Out(
                    "Aucune application audio active. Lancez un lecteur puis réessayez."@,
                ),
            ],
            code: 0,
        }
    } else {
        CliOutputView {
            lines: seq![LineView::Out(sessions_head())] + rows.map_values(
                |row: AppSessionRowView| LineView::Out(session_line(row)),
            ) + seq![LineView::Out("● = joue actuellement du son"@)],
            code: 0,
        }
    }
}

fn session_text(row: &AppSessionRow) -> (r: String)
    ensures
        r@ == session_line(row.deep_view()),
{
    let mut out = text::pad(text::decimal_text(row.pid as u64).as_str(), 8);
    let mark = if row.playing {
        "●"
    } else {
        "·"
    };
    out.append(text::pad(mark, 5).as_str());
    out.append(text::pad(row.process_name.as_str(), 26).as_str());
    out.append(text::pad(device_label(&row.output).as_str(), 44).as_str());
    out.append(device_label(&row.input).as_str());
    out
}

/// `route sessions`: lists the processes with audio. `collected` is what
/// `collect` gave.
pub fn cmd_sessions(collected: &Result<Vec<AppSessionRow>, String>) -> (r: CliOutput)
    ensures
        r.deep_view() == (match *collected {
            Err(reason) => failure(reason@),
            Ok(rows) => sessions_output(rows.deep_view()),
        }),
{
    match collected {
        Err(reason) => fail(reason.clone()),
        Ok(rows) => {
            let mut lines = no_lines();
            if rows.len() == 0 {
                push_line(
                    &mut lines,
                    Line::Out(
                        text::owned(
                            "Aucune application audio active. Lancez un lecteur puis réessayez.",
                        ),
                    ),
                );
                assert(rows.deep_view().len() == 0);
                assert(lines.deep_view() =~= sessions_output(rows.deep_view()).lines);
                return CliOutput { lines, code: 0 };
            }
            let mut head = text::pad("PID", 8);
            head.append(text::pad("LECT", 5).as_str());
            head.append(text::pad("PROCESSUS", 26).as_str());
            head.append(text::pad("SORTIE", 44).as_str());
            head.append("ENTRÉE");
            push_line(&mut lines, Line::Out(head));
            let ghost wanted = rows.deep_view().map_values(
                |row: AppSessionRowView| LineView::Out(session_line(row)),
            );
            let ghost start = seq![LineView::Out(sessions_head())];
            assert(lines.deep_view() =~= start + wanted.take(0));
            let mut i: usize = 0;
            while i < rows.len()
                invariant
                    i <= rows@.len(),
                    wanted == rows.deep_view().map_values(
                        |row: AppSessionRowView| LineView::Out(session_line(row)),
                    ),
                    lines.deep_view() == start + wanted.take(i as int),
                decreases rows@.len() - i,
            {
                push_line(&mut lines, Line::Out(session_text(&rows[i])));
                i += 1;
                assert(start + wanted.take(i as int) =~= (start + wanted.take(i - 1)).push(
                    wanted[i - 1],
                ));
            }
            assert(wanted.take(i as int) == wanted);
            push_line(&mut lines, Line::Out(text::owned("● = joue actuellement du son")));
            assert(rows.deep_view().len() > 0);
            assert(lines.deep_view() =~= sessions_output(rows.deep_view()).lines);
            CliOutput { lines, code: 0 }
        },
    }
}

/// Lines of one device.
pub open spec fn device_line(device: (Seq<char>, Seq<char>)) -> LineView {
    LineView::Out("  "@ + device.1 + "\n    "@ + device.0)
}

/// Lines of the devices of one flow.
pub open spec fn flow_lines(flow: Flow, devices: DeviceListView) -> Seq<LineView> {
    let head = seq![LineView::Out("== "@ + flow_name(flow) + " =="@)];
    if devices.len() == 0 {
        head + seq![LineView::Out("  (aucun périphérique actif)"@)]
    } else {
        head + devices.map_values(|device: (Seq<char>, Seq<char>)| device_line(device))
    }
}

/// Lines of the devices of some flows, one flow after the other.
pub open spec fn devices_lines(lists: Seq<(Flow, DeviceListView)>) -> Seq<LineView>
    decreases lists.len(),
{
    if lists.len() == 0 {
        Seq::empty()
    } else {
        devices_lines(lists.drop_last()) + flow_lines(lists.last().0, lists.last().1)
    }
}

/// Device lists of some flows, as contracts speak of them.
pub open spec fn lists_view(lists: Seq<(Flow, DeviceList)>) -> Seq<(Flow, DeviceListView)> {
    lists.map_values(|list: (Flow, DeviceList)| (list.0, list.1.deep_view()))
}

fn push_flow_lines(lines: &mut Vec<Line>, flow: Flow, devices: &DeviceList)
    ensures
        final(lines).deep_view() == old(lines).deep_view() + flow_lines(flow, devices.deep_view()),
{
    let ghost start = lines.deep_view();
    let mut head = text::owned("== ");
    head.append(flow.name());
    head.append(" ==");
    push_line(lines, Line::Out(head));
    let ghost headed = seq![LineView::Out("== "@ + flow_name(flow) + " =="@)];
    if devices.len() == 0 {
        push_line(lines, Line::Out(text::owned("  (aucun périphérique actif)")));
        assert(devices.deep_view().len() == 0);
        assert(lines.deep_view() =~= start + flow_lines(flow, devices.deep_view()));
        return ;
    }
    let ghost wanted = devices.deep_view().map_values(
        |device: (Seq<char>, Seq<char>)| device_line(device),
    );
    assert(lines.deep_view() =~= start + (headed + wanted.take(0)));
    let mut i: usize = 0;
    while i < devices.len()
        invariant
            i <= devices@.len(),
            wanted == devices.deep_view().map_values(
                |device: (Seq<char>, Seq<char>)| device_line(device),
            ),
            lines.deep_view() == start + (headed + wanted.take(i as int)),
        decreases devices@.len() - i,
    {
        let mut line = text::owned("  ");
        line.append(devices[i].1.as_str());
        line.append("\n    ");
        line.append(devices[i].0.as_str());
        push_line(lines, Line::Out(line));
        i += 1;
        assert(start + (headed + wanted.take(i as int)) =~= (start + (headed + wanted.take(
            i - 1,
        ))).push(wanted[i - 1]));
    }
    assert(wanted.take(i as int) == wanted);
    assert(devices.deep_view().len() > 0);
}

/// `route devices`: lists the active devices of some flows.
pub fn cmd_devices(lists: &Vec<(Flow, DeviceList)>) -> (r: CliOutput)
    ensures
        r.deep_view() == (CliOutputView { lines: devices_lines(lists_view(lists@)), code: 0 }),
{
    let ghost all = lists_view(lists@);
    let mut lines = no_lines();
    let mut i: usize = 0;
    while i < lists.len()
        invariant
            i <= lists@.len(),
            all == lists_view(lists@),
            lines.deep_view() == devices_lines(all.take(i as int)),
        decreases lists@.len() - i,
    {
        proof {
            assert(all.take(i + 1).drop_last() == all.take(i as int));
            assert(all.take(i + 1).last() == all[i as int]);
        }
        push_flow_lines(&mut lines, lists[i].0, &lists[i].1);
        i += 1;
    }
    assert(all.take(i as int) == all);
    CliOutput { lines, code: 0 }
}

// ---------------------------------------------------------------------------
// Finding a process
// ---------------------------------------------------------------------------

/// A name without `.exe` at its end.
pub open spec fn without_exe(name: Seq<char>) -> Seq<char> {
    match before_suffix(name, ".exe"@) {
        Some(base) => base,
        None => name,
    }
}

fn strip_exe(name: &str) -> (r: &str)
    ensures
        r@ == without_exe(name@),
{
    match text::strip_suffix(name, ".exe") {
        Some(base) => base,
        None => name,
    }
}

/// A file name without `.exe` at its end, in any case of its letters.
pub open spec fn without_exe_in_any_case(name: Seq<char>) -> Seq<char> {
    let end = name.len() - ".exe"@.len();
    if end >= 0 && eq_ascii_fold(name.skip(end), ".exe"@) {
        name.take(end)
    } else {
        name
    }
}

fn strip_exe_in_any_case(name: &str) -> (r: &str)
    ensures
        r@ == without_exe_in_any_case(name@),
{
    let n: usize = name.unicode_len();
    let k: usize = ".exe".unicode_len();
    if k > n {
        return name;
    }
    let tail = name.substring_char(n - k, n);
    assert(name@.subrange(n - k, n as int) == name@.skip(n - k));
    if text::same_ignoring_ascii_case(tail, ".exe") {
        assert(name@.subrange(0, n - k) == name@.take(n - k));
        name.substring_char(0, n - k)
    } else {
        name
    }
}

/// The lower-case name of an executable without `.exe`; none where its path is
/// not known or names no file.
pub open spec fn executable_base(exe: Option<Seq<char>>) -> Option<Seq<char>> {
    match exe {
        Some(path) => match paths::file_name(path) {
            Some(file) => Some(lowercase(without_exe_in_any_case(file))),
            None => None,
        },
        None => None,
    }
}

/// The lower-case name of an executable without `.exe`.
pub fn base_name(exe: Option<&str>) -> (r: Option<String>)
    ensures
        r.deep_view() == executable_base(exe.deep_view()),
{
    match exe {
        Some(path) => match paths::file_name_of(path) {
            Some(file) => Some(encoding::to_lowercase(strip_exe_in_any_case(file))),
            None => None,
        },
        None => None,
    }
}

/// A process with the lower-case form of its name and the base name of its
/// executable.
#[derive(Debug)]
pub struct NamedProcess {
    pub pid: u32,
    pub name: String,
    pub base: Option<String>,
}

/// A named process, as contracts speak of it.
pub struct NamedProcessView {
    pub pid: u32,
    pub name: Seq<char>,
    pub base: Option<Seq<char>>,
}

impl DeepView for NamedProcess {
    type V = NamedProcessView;

    open spec fn deep_view(&self) -> NamedProcessView {
        NamedProcessView { pid: self.pid, name: self.name@, base: self.base.deep_view() }
    }
}

/// Is the process meant by a lower-case name, with or without `.exe`?
pub open spec fn is_meant(query: Seq<char>, process: NamedProcessView) -> bool {
    let base = without_exe(query);
    ||| process.name == query
    ||| process.name == base + ".exe"@
    ||| without_exe(process.name) == base
    ||| process.base == Some(base)
}

/// Is the process meant by a lower-case name, with or without `.exe`?
pub fn names_process(query: &str, process: &NamedProcess) -> (r: bool)
    ensures
        r == is_meant(query@, process.deep_view()),
{
    let base = strip_exe(query);
    let name = process.name.as_str();
    if text::same(name, query) {
        return true;
    }
    let mut with_exe = text::owned(base);
    with_exe.append(".exe");
    if text::same(name, with_exe.as_str()) || text::same(strip_exe(name), base) {
        return true;
    }
    match &process.base {
        Some(executable) => text::same(executable.as_str(), base),
        None => false,
    }
}

/// The processes that are meant by a lower-case name.
pub open spec fn meant_pids(query: Seq<char>, processes: Seq<NamedProcessView>) -> Seq<u32> {
    processes.filter(|p: NamedProcessView| is_meant(query, p)).map_values(
        |p: NamedProcessView| p.pid,
    )
}

/// The processes that are meant by a lower-case name.
pub fn pids_named(query: &str, processes: &Vec<NamedProcess>) -> (r: Vec<u32>)
    ensures
        r@ == meant_pids(query@, processes.deep_view()),
{
    let ghost all = processes.deep_view();
    let ghost f = |p: NamedProcessView| is_meant(query@, p);
    let ghost g = |p: NamedProcessView| p.pid;
    let mut pids: Vec<u32> = Vec::new();
    let mut i: usize = 0;
    proof {
        reveal(Seq::filter);
        assert(pids@ =~= all.take(0).filter(f).map_values(g));
    }
    while i < processes.len()
        invariant
            i <= processes@.len(),
            all == processes.deep_view(),
            f == (|p: NamedProcessView| is_meant(query@, p)),
            g == (|p: NamedProcessView| p.pid),
            pids@ == all.take(i as int).filter(f).map_values(g),
        decreases processes@.len() - i,
    {
        let ghost before = all.take(i as int);
        proof {
            assert(all.take(i + 1) == before.push(all[i as int]));
            before.lemma_filter_push(all[i as int], f);
        }
        if names_process(query, &processes[i]) {
            pids.push(processes[i].pid);
            assert(before.filter(f).push(all[i as int]).map_values(g) =~= before.filter(
                f,
            ).map_values(g).push(all[i as int].pid));
        }
        i += 1;
    }
    assert(all.take(i as int) == all);
    pids
}

/// A process of the list under its lower-case names.
pub open spec fn named(row: AppSessionRowView) -> NamedProcessView {
    NamedProcessView {
        pid: row.pid,
        name: lowercase(row.process_name),
        base: executable_base(row.executable_path),
    }
}

fn name_rows(rows: &Vec<AppSessionRow>) -> (r: Vec<NamedProcess>)
    ensures
        r.deep_view() == rows.deep_view().map_values(|row: AppSessionRowView| named(row)),
{
    let mut out: Vec<NamedProcess> = Vec::new();
    let mut i: usize = 0;
    while i < rows.len()
        invariant
            i <= rows@.len(),
            out@.len() == i,
            forall|j: int|
                0 <= j < i ==> (#[trigger] out@[j]).deep_view() == named(rows@[j].deep_view()),
        decreases rows@.len() - i,
    {
        let base = match &rows[i].executable_path {
            Some(path) => base_name(Some(path.as_str())),
            None => base_name(None),
        };
        let name = encoding::to_lowercase(rows[i].process_name.as_str());
        out.push(NamedProcess { pid: rows[i].pid, name, base });
        i += 1;
    }
    assert(out.deep_view() =~= rows.deep_view().map_values(|row: AppSessionRowView| named(row)));
    out
}

/// What is said of a process number without audio.
pub open spec fn silent_pid(pid: u32) -> Seq<char> {
    "PID "@ + decimal(pid as nat)
        + " : aucune session audio active. Lancez l'application puis réessayez (ou « route sessions »)."@
}

/// What is said of a name that no process with audio has.
pub open spec fn unknown_process(query: Seq<char>) -> Seq<char> {
    "Aucun processus audio actif « "@ + query
        + " ». Utilisez « route sessions » pour lister les processus."@
}

/// Does a row have the process number?
pub open spec fn has_pid(rows: Seq<AppSessionRowView>, pid: u32) -> bool {
    exists|i: int| 0 <= i < rows.len() && (#[trigger] rows[i]).pid == pid
}

/// The processes that a query means: a process number that is in the list, or
/// the processes of the list that have the name.
pub open spec fn resolved_process(query: Seq<char>, rows: Seq<AppSessionRowView>) -> Result<
    Seq<u32>,
    Seq<char>,
> {
    match text::unsigned_value(query) {
        Some(pid) => if pid == 0 {
            Err("PID invalide : 0"@)
        } else if has_pid(rows, pid) {
            Ok(seq![pid])
        } else {
            Err(silent_pid(pid))
        },
        None => {
            let pids = meant_pids(
                lowercase(query),
                rows.map_values(|row: AppSessionRowView| named(row)),
            );
            if pids.len() == 0 {
                Err(unknown_process(query))
            } else {
                Ok(pids)
            }
        },
    }
}

fn row_has_pid(rows: &Vec<AppSessionRow>, pid: u32) -> (r: bool)
    ensures
        r == has_pid(rows.deep_view(), pid),
{
    let mut i: usize = 0;
    while i < rows.len()
        invariant
            i <= rows@.len(),
            forall|j: int| 0 <= j < i ==> (#[trigger] rows.deep_view()[j]).pid != pid,
        decreases rows@.len() - i,
    {
        assert(rows.deep_view()[i as int].pid == rows@[i as int].pid);
        if rows[i].pid == pid {
            return true;
        }
        i += 1;
    }
    false
}

/// The processes that a query means.
pub fn resolve_process(query: &str, sessions: &Vec<AppSessionRow>) -> (r: Result<Vec<u32>, String>)
    ensures
        match (r, resolved_process(query@, sessions.deep_view())) {
            (Ok(pids), Ok(expected)) => pids@ == expected,
            (Err(message), Err(expected)) => message@ == expected,
            _ => false,
        },
{
    match text::parse_unsigned(query) {
        Some(pid) => {
            if pid == 0 {
                return Err(text::owned("PID invalide : 0"));
            }
            if !row_has_pid(sessions, pid) {
                let mut message = text::owned("PID ");
                message.append(text::decimal_text(pid as u64).as_str());
                message.append(
                    " : aucune session audio active. Lancez l'application puis réessayez (ou « route sessions »).",
                );
                return Err(message);
            }
            let mut pids: Vec<u32> = Vec::new();
            pids.push(pid);
            assert(pids@ =~= seq![pid]);
            Ok(pids)
        },
        None => {
            let lower = encoding::to_lowercase(query);
            let processes = name_rows(sessions);
            let pids = pids_named(lower.as_str(), &processes);
            if pids.len() == 0 {
                let mut message = text::owned("Aucun processus audio actif « ");
                message.append(query);
                message.append(" ». Utilisez « route sessions » pour lister les processus.");
                return Err(message);
            }
            Ok(pids)
        },
    }
}

// ---------------------------------------------------------------------------
// Finding a device
// ---------------------------------------------------------------------------

/// Does a lower-case word stand for the system's device?
pub open spec fn is_system_word(word: Seq<char>) -> bool {
    word == "system"@ || word == "système"@ || word == "default"@ || word == "clear"@ || word
        == "-"@ || word == ""@
}

fn means_system(word: &str) -> (r: bool)
    ensures
        r == is_system_word(word@),
{
    text::same(word, "system") || text::same(word, "système") || text::same(word, "default")
        || text::same(word, "clear") || text::same(word, "-") || text::same(word, "")
}

/// The identifier in the list that is the given one up to the case of ASCII
/// letters.
pub open spec fn listed_id(devices: DeviceListView, id: Seq<char>) -> Option<Seq<char>>
    decreases devices.len(),
{
    if devices.len() == 0 {
        None
    } else if eq_ascii_fold(devices[0].0, id) {
        Some(devices[0].0)
    } else {
        listed_id(devices.skip(1), id)
    }
}

fn find_id(devices: &DeviceList, id: &str) -> (r: Option<String>)
    ensures
        r.deep_view() == listed_id(devices.deep_view(), id@),
{
    let mut i: usize = 0;
    assert(devices.deep_view().skip(0) == devices.deep_view());
    while i < devices.len()
        invariant
            i <= devices@.len(),
            listed_id(devices.deep_view(), id@) == listed_id(
                devices.deep_view().skip(i as int),
                id@,
            ),
        decreases devices@.len() - i,
    {
        if text::same_ignoring_ascii_case(devices[i].0.as_str(), id) {
            return Some(devices[i].0.clone());
        }
        assert(devices.deep_view().skip(i as int).skip(1) == devices.deep_view().skip(i + 1));
        i += 1;
    }
    None
}

/// The identifier in a packed one, whatever interface stands behind it.
pub open spec fn packed_id(query: Seq<char>) -> Option<Seq<char>> {
    match after_prefix(query, MMDEVAPI_TOKEN@) {
        Some(rest) => match text::last_occurrence(rest, "#{"@) {
            Some(at) => Some(rest.take(at)),
            None => Some(rest),
        },
        None => None,
    }
}

fn id_in_packed(query: &str) -> (r: Option<&str>)
    ensures
        r.deep_view() == packed_id(query@),
{
    match text::strip_prefix(query, MMDEVAPI_TOKEN) {
        Some(rest) => {
            let found = text::last_position(rest, "#{");
            proof {
                text::last_occurrence_is_last(rest@, "#{"@, found);
            }
            match found {
                Some(at) => {
                    assert(rest@.subrange(0, at as int) == rest@.take(at as int));
                    Some(rest.substring_char(0, at))
                },
                None => Some(rest),
            }
        },
        None => None,
    }
}

/// The devices with the given name, up to the case of ASCII letters.
pub open spec fn with_exact_name(devices: DeviceListView, name: Seq<char>) -> DeviceListView {
    devices.filter(|d: (Seq<char>, Seq<char>)| eq_ascii_fold(d.1, name))
}

fn find_exact(devices: &DeviceList, name: &str) -> (r: Vec<usize>)
    ensures
        r@.len() == with_exact_name(devices.deep_view(), name@).len(),
        forall|k: int|
            0 <= k < r@.len() ==> (#[trigger] r@[k]) < devices@.len()
                && devices@[r@[k] as int].deep_view() == with_exact_name(
                devices.deep_view(),
                name@,
            )[k],
{
    let ghost all = devices.deep_view();
    let ghost f = |d: (Seq<char>, Seq<char>)| eq_ascii_fold(d.1, name@);
    let mut found: Vec<usize> = Vec::new();
    let mut i: usize = 0;
    proof {
        reveal(Seq::filter);
        assert(all.take(0).filter(f).len() == 0);
    }
    while i < devices.len()
        invariant
            i <= devices@.len(),
            all == devices.deep_view(),
            f == (|d: (Seq<char>, Seq<char>)| eq_ascii_fold(d.1, name@)),
            found@.len() == all.take(i as int).filter(f).len(),
            forall|k: int|
                0 <= k < found@.len() ==> (#[trigger] found@[k]) < devices@.len()
                    && devices@[found@[k] as int].deep_view() == all.take(i as int).filter(f)[k],
        decreases devices@.len() - i,
    {
        proof {
            assert(all.take(i + 1) == all.take(i as int).push(all[i as int]));
            all.take(i as int).lemma_filter_push(all[i as int], f);
        }
        if text::same_ignoring_ascii_case(devices[i].1.as_str(), name) {
            found.push(i);
        }
        i += 1;
    }
    assert(all.take(i as int) == all);
    found
}

/// The devices whose lower-case name holds a lower-case text; `names` has the
/// lower-case names of the devices.
pub open spec fn with_name_part(
    devices: DeviceListView,
    names: Seq<Seq<char>>,
    part: Seq<char>,
) -> DeviceListView
    decreases devices.len(),
{
    if devices.len() == 0 {
        Seq::empty()
    } else {
        let before = with_name_part(devices.drop_last(), names, part);
        if text::contains(names[devices.len() - 1], part) {
            before.push(devices.last())
        } else {
            before
        }
    }
}

fn find_part(devices: &DeviceList, names: &Vec<String>, part: &str) -> (r: Vec<usize>)
    requires
        names@.len() == devices@.len(),
    ensures
        r@.len() == with_name_part(devices.deep_view(), names.deep_view(), part@).len(),
        forall|k: int|
            0 <= k < r@.len() ==> (#[trigger] r@[k]) < devices@.len()
                && devices@[r@[k] as int].deep_view() == with_name_part(
                devices.deep_view(),
                names.deep_view(),
                part@,
            )[k],
{
    let ghost all = devices.deep_view();
    let mut found: Vec<usize> = Vec::new();
    let mut i: usize = 0;
    while i < devices.len()
        invariant
            i <= devices@.len(),
            names@.len() == devices@.len(),
            all == devices.deep_view(),
            found@.len() == with_name_part(all.take(i as int), names.deep_view(), part@).len(),
            forall|k: int|
                0 <= k < found@.len() ==> (#[trigger] found@[k]) < devices@.len()
                    && devices@[found@[k] as int].deep_view() == with_name_part(
                    all.take(i as int),
                    names.deep_view(),
                    part@,
                )[k],
        decreases devices@.len() - i,
    {
        proof {
            assert(all.take(i + 1).drop_last() == all.take(i as int));
            assert(all.take(i + 1).last() == all[i as int]);
            assert(names.deep_view()[i as int] == names@[i as int]@);
        }
        if text::holds(names[i].as_str(), part) {
            found.push(i);
        }
        i += 1;
    }
    assert(all.take(i as int) == all);
    found
}

/// What is said of a text that no device answers to.
pub open spec fn no_such_device(query: Seq<char>, flow: Flow) -> Seq<char> {
    "Aucun périphérique de sortie correspondant à « "@ + query
        + " ». Utilisez « route devices "@ + flow_name(flow) + " »."@
}

/// What is said of a text that several devices answer to.
pub open spec fn several_devices(query: Seq<char>, found: DeviceListView) -> Seq<char> {
    "Plusieurs périphériques correspondent à « "@ + query + " » : "@ + joined(
        found.map_values(|d: (Seq<char>, Seq<char>)| d.1),
        " · "@,
    )
}

/// The device that a query means, as an identifier of the list; none for the
/// system's device. In a query of ASCII characters only the case of letters is
/// overlooked, and a packed identifier means what the plain one means. Tried in turn are a word for the system's device, an
/// identifier, a packed identifier, a name that one device has, and a part of
/// the name of one device. `lower` is the lower-case form of the query, `names`
/// those of the devices' names.
pub open spec fn resolved_lowered(
    query: Seq<char>,
    lower: Seq<char>,
    flow: Flow,
    devices: DeviceListView,
    names: Seq<Seq<char>>,
) -> Result<Option<Seq<char>>, Seq<char>> {
    if is_system_word(lower) {
        Ok(None)
    } else if devices.len() == 0 {
        Err("Aucun périphérique actif sur ce flux."@)
    } else if listed_id(devices, query) is Some {
        Ok(listed_id(devices, query))
    } else if packed_id(query) is Some && listed_id(devices, packed_id(query)->Some_0) is Some {
        Ok(listed_id(devices, packed_id(query)->Some_0))
    } else if with_exact_name(devices, query).len() == 1 {
        Ok(Some(with_exact_name(devices, query)[0].0))
    } else {
        let found = with_name_part(devices, names, lower);
        if found.len() == 1 {
            Ok(Some(found[0].0))
        } else if found.len() == 0 {
            Err(no_such_device(query, flow))
        } else {
            Err(several_devices(query, found))
        }
    }
}

/// The outcome of finding a device, as contracts speak of it.
pub open spec fn device_view(r: Result<Option<String>, String>) -> Result<
    Option<Seq<char>>,
    Seq<char>,
> {
    match r {
        Ok(id) => Ok(id.deep_view()),
        Err(message) => Err(message@),
    }
}

/// The device that a query means, where lower-case forms are known.
pub fn resolve_lowered(
    query: &str,
    lower: &str,
    flow: Flow,
    devices: &DeviceList,
    names: &Vec<String>,
) -> (r: Result<Option<String>, String>)
    requires
        names@.len() == devices@.len(),
    ensures
        device_view(r) == resolved_lowered(
            query@,
            lower@,
            flow,
            devices.deep_view(),
            names.deep_view(),
        ),
{
    if means_system(lower) {
        return Ok(None);
    }
    assert(devices.deep_view().len() == devices@.len());
    if devices.len() == 0 {
        return Err(text::owned("Aucun périphérique actif sur ce flux."));
    }
    match find_id(devices, query) {
        Some(id) => return Ok(Some(id)),
        None => {},
    }
    match id_in_packed(query) {
        Some(inner) => match find_id(devices, inner) {
            Some(id) => return Ok(Some(id)),
            None => {},
        },
        None => {},
    }
    let exact = find_exact(devices, query);
    if exact.len() == 1 {
        let at: usize = exact[0];
        assert(exact@[0] == at);
        return Ok(Some(devices[at].0.clone()));
    }
    let found = find_part(devices, names, lower);
    let ghost matching = with_name_part(devices.deep_view(), names.deep_view(), lower@);
    if found.len() == 1 {
        let at: usize = found[0];
        assert(found@[0] == at);
        return Ok(Some(devices[at].0.clone()));
    }
    if found.len() == 0 {
        let mut message = text::owned("Aucun périphérique de sortie correspondant à « ");
        message.append(query);
        message.append(" ». Utilisez « route devices ");
        message.append(flow.name());
        message.append(" ».");
        return Err(message);
    }
    let mut labels: Vec<String> = Vec::new();
    let mut i: usize = 0;
    while i < found.len()
        invariant
            i <= found@.len(),
            matching == with_name_part(devices.deep_view(), names.deep_view(), lower@),
            found@.len() == matching.len(),
            forall|k: int|
                0 <= k < found@.len() ==> (#[trigger] found@[k]) < devices@.len()
                    && devices@[found@[k] as int].deep_view() == matching[k],
            labels@.len() == i,
            forall|k: int| 0 <= k < i ==> (#[trigger] labels@[k])@ == matching[k].1,
        decreases found@.len() - i,
    {
        let at: usize = found[i];
        assert(found@[i as int] == at);
        labels.push(devices[at].1.clone());
        i += 1;
    }
    assert(labels.deep_view() =~= matching.map_values(|d: (Seq<char>, Seq<char>)| d.1));
    let mut message = text::owned("Plusieurs périphériques correspondent à « ");
    message.append(query);
    message.append(" » : ");
    message.append(text::join(&labels, " · ").as_str());
    Err(message)
}

/// The device that a query means.
pub open spec fn resolved_device(query: Seq<char>, flow: Flow, devices: DeviceListView) -> Result<
    Option<Seq<char>>,
    Seq<char>,
> {
    resolved_lowered(
        query,
        lowercase(query),
        flow,
        devices,
        devices.map_values(|d: (Seq<char>, Seq<char>)| lowercase(d.1)),
    )
}

/// The device that a query means, as an identifier of the list; none for the
/// system's device.
pub fn resolve_device(query: &str, flow: Flow, devices: &DeviceList) -> (r: Result<
    Option<String>,
    String,
>)
    ensures
        device_view(r) == resolved_device(query@, flow, devices.deep_view()),
        is_ascii_text(query@) ==> lowercase(query@) == ascii_folded(query@),
        forall|packed_for: Flow, id: Seq<char>|
            query@ == #[trigger] packed(packed_for, id) && listed_id(devices.deep_view(), id)
                is Some && listed_id(devices.deep_view(), query@) is None ==> device_view(r) == Ok::<
                Option<Seq<char>>,
                Seq<char>,
            >(listed_id(devices.deep_view(), id)),
{
    let lower = encoding::to_lowercase(query);
    proof {
        assert forall|packed_for: Flow, id: Seq<char>|
            query@ == #[trigger] packed(packed_for, id) && listed_id(devices.deep_view(), id)
                is Some && listed_id(
                devices.deep_view(),
                query@,
            ) is None implies resolved_device(query@, flow, devices.deep_view()) == Ok::<
            Option<Seq<char>>,
            Seq<char>,
        >(listed_id(devices.deep_view(), id)) by {
            devices_answer_to_their_packed_identifier(packed_for, id, flow, devices.deep_view());
        }
    }
    let mut names: Vec<String> = Vec::new();
    let mut i: usize = 0;
    while i < devices.len()
        invariant
            i <= devices@.len(),
            names@.len() == i,
            forall|k: int|
                0 <= k < i ==> (#[trigger] names@[k])@ == lowercase(devices@[k].1@),
        decreases devices@.len() - i,
    {
        names.push(encoding::to_lowercase(devices[i].1.as_str()));
        i += 1;
    }
    assert(names.deep_view() =~= devices.deep_view().map_values(
        |d: (Seq<char>, Seq<char>)| lowercase(d.1),
    ));
    resolve_lowered(query, lower.as_str(), flow, devices, &names)
}

// ---------------------------------------------------------------------------
// Showing and setting routes
// ---------------------------------------------------------------------------

/// What `route get` prints of a process.
pub open spec fn route_line(row: AppSessionRowView) -> LineView {
    LineView::Out(
        row.process_name + " (PID "@ + decimal(row.pid as nat) + ") : sortie = "@ + route_label(
            row.output,
        ) + ", entrée = "@ + route_label(row.input),
    )
}

/// What `route get` prints of the processes with one of some numbers.
pub open spec fn route_lines(rows: Seq<AppSessionRowView>, pids: Seq<u32>) -> Seq<LineView> {
    rows.filter(|row: AppSessionRowView| pids.contains(row.pid)).map_values(
        |row: AppSessionRowView| route_line(row),
    )
}

/// What `route get` prints.
pub open spec fn get_output(
    process: Seq<char>,
    collected: Result<Seq<AppSessionRowView>, Seq<char>>,
) -> CliOutputView {
    match collected {
        Err(reason) => failure(reason),
        Ok(rows) => match resolved_process(process, rows) {
            Err(reason) => failure(reason),
            Ok(pids) => CliOutputView { lines: route_lines(rows, pids), code: 0 },
        },
    }
}

/// The processes with audio or why they are not known, as contracts speak of
/// it.
pub open spec fn collected_view(collected: Result<Vec<AppSessionRow>, String>) -> Result<
    Seq<AppSessionRowView>,
    Seq<char>,
> {
    match collected {
        Ok(rows) => Ok(rows.deep_view()),
        Err(reason) => Err(reason@),
    }
}

fn route_text(row: &AppSessionRow) -> (r: Line)
    ensures
        r.deep_view() == route_line(row.deep_view()),
{
    let mut out = text::owned(row.process_name.as_str());
    out.append(" (PID ");
    out.append(text::decimal_text(row.pid as u64).as_str());
    out.append(") : sortie = ");
    out.append(device_label(&row.output).as_str());
    out.append(", entrée = ");
    out.append(device_label(&row.input).as_str());
    Line::Out(out)
}

/// `route get`: shows the routes of a process. `collected` is what `collect`
/// gave.
pub fn cmd_get(process: &str, collected: &Result<Vec<AppSessionRow>, String>) -> (r: CliOutput)
    ensures
        r.deep_view() == get_output(process@, collected_view(*collected)),
{
    let rows = match collected {
        Ok(rows) => rows,
        Err(reason) => return fail(reason.clone()),
    };
    let pids = match resolve_process(process, rows) {
        Ok(pids) => pids,
        Err(reason) => return fail(reason),
    };
    let ghost all = rows.deep_view();
    let ghost f = |row: AppSessionRowView| pids@.contains(row.pid);
    let ghost g = |row: AppSessionRowView| route_line(row);
    let mut lines = no_lines();
    let mut i: usize = 0;
    proof {
        reveal(Seq::filter);
        assert(lines.deep_view() =~= all.take(0).filter(f).map_values(g));
    }
    while i < rows.len()
        invariant
            i <= rows@.len(),
            all == rows.deep_view(),
            f == (|row: AppSessionRowView| pids@.contains(row.pid)),
            g == (|row: AppSessionRowView| route_line(row)),
            lines.deep_view() == all.take(i as int).filter(f).map_values(g),
        decreases rows@.len() - i,
    {
        let ghost before = all.take(i as int);
        proof {
            assert(all.take(i + 1) == before.push(all[i as int]));
            before.lemma_filter_push(all[i as int], f);
        }
        if pid_listed(&pids, rows[i].pid) {
            push_line(&mut lines, route_text(&rows[i]));
            assert(before.filter(f).push(all[i as int]).map_values(g) =~= before.filter(
                f,
            ).map_values(g).push(route_line(all[i as int])));
        }
        i += 1;
    }
    assert(all.take(i as int) == all);
    CliOutput { lines, code: 0 }
}

/// Routes to write for `route set`: the processes and the device, none for the
/// system's.
#[derive(Debug)]
pub struct SetPlan {
    pub pids: Vec<u32>,
    pub device_id: Option<String>,
}

/// The devices of a flow.
pub open spec fn flow_devices(
    flow: Flow,
    playback: DeviceListView,
    recording: DeviceListView,
) -> DeviceListView {
    match flow {
        Flow::Output => playback,
        Flow::Input => recording,
    }
}

/// What `route set` has to write: the processes first, then the device; or why
/// it has nothing to write.
pub open spec fn planned_set(
    process: Seq<char>,
    flow: Flow,
    device: Seq<char>,
    collected: Result<Seq<AppSessionRowView>, Seq<char>>,
    devices: DeviceListView,
) -> Result<(Seq<u32>, Option<Seq<char>>), Seq<char>> {
    match collected {
        Err(reason) => Err(reason),
        Ok(rows) => match resolved_process(process, rows) {
            Err(reason) => Err(reason),
            Ok(pids) => match resolved_device(device, flow, devices) {
                Err(reason) => Err(reason),
                Ok(id) => Ok((pids, id)),
            },
        },
    }
}

/// What `route set` has to write, or what it prints instead. `collected` is
/// what `collect` gave.
pub fn plan_set(
    process: &str,
    flow: Flow,
    device: &str,
    collected: &Result<Vec<AppSessionRow>, String>,
    playback: &DeviceList,
    recording: &DeviceList,
) -> (r: Result<SetPlan, CliOutput>)
    ensures
        match (r, planned_set(
            process@,
            flow,
            device@,
            collected_view(*collected),
            flow_devices(flow, playback.deep_view(), recording.deep_view()),
        )) {
            (Ok(plan), Ok(expected)) => plan.pids@ == expected.0 && plan.device_id.deep_view()
                == expected.1,
            (Err(output), Err(reason)) => output.deep_view() == failure(reason),
            _ => false,
        },
{
    let rows = match collected {
        Ok(rows) => rows,
        Err(reason) => return Err(fail(reason.clone())),
    };
    let pids = match resolve_process(process, rows) {
        Ok(pids) => pids,
        Err(reason) => return Err(fail(reason)),
    };
    let devices = match flow {
        Flow::Output => playback,
        Flow::Input => recording,
    };
    match resolve_device(device, flow, devices) {
        Ok(device_id) => Ok(SetPlan { pids, device_id }),
        Err(reason) => Err(fail(reason)),
    }
}

/// The name of the first device with exactly this identifier, or the identifier
/// itself.
pub open spec fn shown_device(devices: DeviceListView, id: Seq<char>) -> Seq<char>
    decreases devices.len(),
{
    if devices.len() == 0 {
        id
    } else if devices[0].0 == id {
        devices[0].1
    } else {
        shown_device(devices.skip(1), id)
    }
}

fn device_to_show(devices: &DeviceList, id: &String) -> (r: String)
    ensures
        r@ == shown_device(devices.deep_view(), id@),
{
    let mut i: usize = 0;
    assert(devices.deep_view().skip(0) == devices.deep_view());
    while i < devices.len()
        invariant
            i <= devices@.len(),
            shown_device(devices.deep_view(), id@) == shown_device(
                devices.deep_view().skip(i as int),
                id@,
            ),
        decreases devices@.len() - i,
    {
        if text::same(devices[i].0.as_str(), id.as_str()) {
            return devices[i].1.clone();
        }
        assert(devices.deep_view().skip(i as int).skip(1) == devices.deep_view().skip(i + 1));
        i += 1;
    }
    id.clone()
}

/// What `route set` calls its target.
pub open spec fn set_target(devices: DeviceListView, device_id: Option<Seq<char>>) -> Seq<char> {
    match device_id {
        Some(id) => "→ "@ + shown_device(devices, id),
        None => "→ périphérique système"@,
    }
}

/// What `route set` prints of one process.
pub open spec fn set_line(
    process: Seq<char>,
    flow: Flow,
    target: Seq<char>,
    pid: u32,
    outcome: Result<(), Seq<char>>,
) -> LineView {
    match outcome {
        Ok(_) => LineView::Out(
            "OK : "@ + process + " (PID "@ + decimal(pid as nat) + ") — "@ + flow_label(flow)
                + " "@ + target,
        ),
        Err(reason) => LineView::Error(
            "Échec pour le PID "@ + decimal(pid as nat) + " : "@ + reason,
        ),
    }
}

/// What `route set` prints once routes were written: a line for each process;
/// its code is zero where all of them were written.
pub open spec fn set_output(
    process: Seq<char>,
    flow: Flow,
    target: Seq<char>,
    pids: Seq<u32>,
    outcomes: Seq<Result<(), String>>,
) -> CliOutputView {
    CliOutputView {
        lines: Seq::new(
            pids.len(),
            |i: int| set_line(process, flow, target, pids[i], outcome_view(outcomes[i])),
        ),
        code: if forall|i: int| 0 <= i < pids.len() ==> #[trigger] outcomes[i] is Ok {
            0
        } else {
            1
        },
    }
}

/// `route set`, once the routes of its plan were written; `outcomes` has one
/// outcome for each process of the plan.
pub fn cmd_set(
    process: &str,
    flow: Flow,
    plan: &SetPlan,
    outcomes: &Vec<Result<(), String>>,
    devices: &DeviceList,
) -> (r: CliOutput)
    requires
        outcomes@.len() == plan.pids@.len(),
    ensures
        r.deep_view() == set_output(
            process@,
            flow,
            set_target(devices.deep_view(), plan.device_id.deep_view()),
            plan.pids@,
            outcomes@,
        ),
{
    let target = match &plan.device_id {
        Some(id) => {
            let mut out = text::owned("→ ");
            out.append(device_to_show(devices, id).as_str());
            out
        },
        None => text::owned("→ périphérique système"),
    };
    let ghost wanted = set_output(process@, flow, target@, plan.pids@, outcomes@).lines;
    let mut ok = true;
    let mut lines = no_lines();
    let mut i: usize = 0;
    assert(lines.deep_view() =~= wanted.take(0));
    while i < plan.pids.len()
        invariant
            i <= plan.pids@.len(),
            outcomes@.len() == plan.pids@.len(),
            wanted == set_output(process@, flow, target@, plan.pids@, outcomes@).lines,
            lines.deep_view() == wanted.take(i as int),
            ok == (forall|j: int| 0 <= j < i ==> #[trigger] outcomes@[j] is Ok),
        decreases plan.pids@.len() - i,
    {
        let pid: u32 = plan.pids[i];
        match &outcomes[i] {
            Ok(_) => {
                let mut line = text::owned("OK : ");
                line.append(process);
                line.append(" (PID ");
                line.append(text::decimal_text(pid as u64).as_str());
                line.append(") — ");
                line.append(flow.label());
                line.append(" ");
                line.append(target.as_str());
                push_line(&mut lines, Line::Out(line));
            },
            Err(reason) => {
                ok = false;
                let mut line = text::owned("Échec pour le PID ");
                line.append(text::decimal_text(pid as u64).as_str());
                line.append(" : ");
                line.append(reason.as_str());
                push_line(&mut lines, Line::Error(line));
            },
        }
        i += 1;
        assert(wanted.take(i as int) == wanted.take(i - 1).push(wanted[i - 1]));
    }
    assert(wanted.take(i as int) == wanted);
    let code: i32 = if ok {
        0
    } else {
        1
    };
    CliOutput { lines, code }
}

// ---------------------------------------------------------------------------
// What a query can mean
// ---------------------------------------------------------------------------

proof fn listed_id_is_listed(devices: DeviceListView, id: Seq<char>)
    ensures
        listed_id(devices, id) matches Some(found) ==> exists|i: int|
            0 <= i < devices.len() && (#[trigger] devices[i]).0 == found,
    decreases devices.len(),
{
    if devices.len() > 0 {
        if eq_ascii_fold(devices[0].0, id) {
            assert(devices[0].0 == listed_id(devices, id)->Some_0);
        } else {
            let rest = devices.skip(1);
            listed_id_is_listed(rest, id);
            if listed_id(rest, id) is Some {
                let i = choose|i: int|
                    0 <= i < rest.len() && (#[trigger] rest[i]).0 == listed_id(rest, id)->Some_0;
                assert(devices[i + 1].0 == listed_id(devices, id)->Some_0);
            }
        }
    }
}

proof fn name_part_devices_are_listed(
    devices: DeviceListView,
    names: Seq<Seq<char>>,
    part: Seq<char>,
)
    ensures
        forall|k: int|
            0 <= k < with_name_part(devices, names, part).len() ==> devices.contains(
                #[trigger] with_name_part(devices, names, part)[k],
            ),
    decreases devices.len(),
{
    if devices.len() > 0 {
        let init = devices.drop_last();
        name_part_devices_are_listed(init, names, part);
        let before = with_name_part(init, names, part);
        assert forall|k: int| 0 <= k < with_name_part(devices, names, part).len() implies
            devices.contains(#[trigger] with_name_part(devices, names, part)[k]) by {
            if k < before.len() {
                assert(init.contains(before[k]));
                let i = choose|i: int| 0 <= i < init.len() && init[i] == before[k];
                assert(devices[i] == before[k]);
            } else {
                assert(devices[devices.len() - 1] == with_name_part(devices, names, part)[k]);
            }
        }
    }
}

/// A route is never set to a device that is not active: whatever the query, it
/// means the system's device or a device of the list.
pub proof fn resolved_devices_are_listed(query: Seq<char>, flow: Flow, devices: DeviceListView)
    ensures
        resolved_device(query, flow, devices) matches Ok(Some(id)) ==> exists|i: int|
            0 <= i < devices.len() && (#[trigger] devices[i]).0 == id,
{
    let names = devices.map_values(|d: (Seq<char>, Seq<char>)| lowercase(d.1));
    let lower = lowercase(query);
    listed_id_is_listed(devices, query);
    if packed_id(query) is Some {
        listed_id_is_listed(devices, packed_id(query)->Some_0);
    }
    name_part_devices_are_listed(devices, names, lower);
    let exact = with_exact_name(devices, query);
    let found = with_name_part(devices, names, lower);
    if exact.len() == 1 {
        assert(exact.contains(exact[0]));
        devices.lemma_filter_contains_rev(
            |d: (Seq<char>, Seq<char>)| eq_ascii_fold(d.1, query),
            exact[0],
        );
        let i = choose|i: int| 0 <= i < devices.len() && devices[i] == exact[0];
        assert(devices[i].0 == exact[0].0);
    }
    if found.len() == 1 {
        assert(devices.contains(found[0]));
        let i = choose|i: int| 0 <= i < devices.len() && devices[i] == found[0];
        assert(devices[i].0 == found[0].0);
    }
}

/// Only processes with audio are routed: whatever the query, the processes that
/// it means are in the list.
pub proof fn resolved_processes_are_listed(query: Seq<char>, rows: Seq<AppSessionRowView>)
    ensures
        resolved_process(query, rows) matches Ok(pids) ==> pids.len() > 0 && forall|k: int|
            0 <= k < pids.len() ==> has_pid(rows, #[trigger] pids[k]),
{
    if text::unsigned_value(query) is None {
        let f = |row: AppSessionRowView| named(row);
        let processes = rows.map_values(f);
        let lower = lowercase(query);
        let p = |p: NamedProcessView| is_meant(lower, p);
        let kept = processes.filter(p);
        let pids = meant_pids(lower, processes);
        assert forall|k: int| 0 <= k < pids.len() implies has_pid(rows, #[trigger] pids[k]) by {
            assert(kept.contains(kept[k]));
            processes.lemma_filter_contains_rev(p, kept[k]);
            let i = choose|i: int| 0 <= i < processes.len() && processes[i] == kept[k];
            assert(rows[i].pid == pids[k]);
        }
    }
}

/// A process with audio can be given by its number.
pub proof fn processes_answer_to_their_number(pid: u32, rows: Seq<AppSessionRowView>)
    requires
        pid != 0,
        has_pid(rows, pid),
    ensures
        resolved_process(decimal(pid as nat), rows) == Ok::<Seq<u32>, Seq<char>>(seq![pid]),
{
    text::decimal_reads_as_itself(pid);
}

proof fn listed_id_of_member(devices: DeviceListView, id: Seq<char>, i: int)
    requires
        0 <= i < devices.len(),
        eq_ascii_fold(devices[i].0, id),
    ensures
        listed_id(devices, id) is Some,
        eq_ascii_fold(listed_id(devices, id)->Some_0, id),
    decreases devices.len(),
{
    if !eq_ascii_fold(devices[0].0, id) {
        assert(devices.skip(1)[i - 1] == devices[i]);
        listed_id_of_member(devices.skip(1), id, i - 1);
    }
}

/// An active device can be given by its identifier, in any case of its ASCII
/// letters, as long as the identifier is no word for the system's device.
pub proof fn devices_answer_to_their_identifier(
    query: Seq<char>,
    flow: Flow,
    devices: DeviceListView,
    i: int,
)
    requires
        0 <= i < devices.len(),
        eq_ascii_fold(devices[i].0, query),
        !is_system_word(lowercase(query)),
    ensures
        resolved_device(query, flow, devices) matches Ok(Some(id)) && eq_ascii_fold(id, query),
{
    listed_id_of_member(devices, query, i);
}

proof fn interface_has_one_mark(suffix: Seq<char>)
    requires
        suffix == RENDER_INTERFACE@ || suffix == CAPTURE_INTERFACE@,
    ensures
        suffix.len() == 39,
        suffix[0] == '#',
        suffix[1] == '{',
        forall|k: int| 0 < k < 39 ==> suffix[k] != '#',
{
    reveal_strlit("#{e6327cad-dcec-4949-ae8a-991e976a79d2}");
    reveal_strlit("#{2eef81be-33fa-4800-9670-1cd474972c3f}");
    assert(suffix.len() == 39);
    assert forall|k: int| 0 < k < 39 implies suffix[k] != '#' by {
        if k < 10 {
        } else if k < 20 {
        } else if k < 30 {
        } else {
        }
    }
}

/// A packed identifier holds the identifier that was packed.
pub proof fn packed_id_inverts_pack(flow: Flow, id: Seq<char>)
    ensures
        packed_id(packed(flow, id)) == Some(id),
{
    let suffix = match flow {
        Flow::Output => RENDER_INTERFACE@,
        Flow::Input => CAPTURE_INTERFACE@,
    };
    interface_has_one_mark(suffix);
    let whole = packed(flow, id);
    let rest = whole.skip(MMDEVAPI_TOKEN@.len() as int);
    assert(whole.subrange(0, MMDEVAPI_TOKEN@.len() as int) == MMDEVAPI_TOKEN@);
    assert(rest == id + suffix);
    let mark = "#{"@;
    reveal_strlit("#{");
    assert(mark == seq!['#', '{']);
    last_mark(rest, id.len() as int);
    assert(rest.take(id.len() as int) == id);
}

proof fn last_mark(s: Seq<char>, at: int)
    requires
        0 <= at <= s.len() - 2,
        s[at] == '#',
        s[at + 1] == '{',
        forall|k: int| at < k < s.len() ==> s[k] != '#',
    ensures
        text::last_occurrence(s, seq!['#', '{']) == Some(at),
    decreases s.len(),
{
    let mark = seq!['#', '{'];
    if s.len() == at + 2 {
        assert(s.subrange(at, at + 2) == mark);
        assert(mark.is_suffix_of(s));
    } else {
        assert(!mark.is_suffix_of(s)) by {
            if mark.is_suffix_of(s) {
                assert(s.subrange(s.len() - 2, s.len() as int)[0] == s[s.len() - 2]);
            }
        }
        last_mark(s.drop_last(), at);
    }
}

proof fn packed_is_long(flow: Flow, id: Seq<char>, lower: Seq<char>)
    requires
        lower.len() >= packed(flow, id).len(),
    ensures
        !is_system_word(lower),
{
    interface_has_one_mark(RENDER_INTERFACE@);
    interface_has_one_mark(CAPTURE_INTERFACE@);
    reveal_strlit("system");
    reveal_strlit("système");
    reveal_strlit("default");
    reveal_strlit("clear");
    reveal_strlit("-");
    reveal_strlit("");
}

/// An active device can be given by its packed identifier, of either flow: where
/// no identifier of the list is the packed one itself, the device is found that
/// the plain identifier names. The lower-case form of a text is at least as long
/// as the text, so that no packed identifier is a word for the system's device.
pub proof fn devices_answer_to_their_packed_identifier(
    packed_for: Flow,
    id: Seq<char>,
    flow: Flow,
    devices: DeviceListView,
)
    requires
        listed_id(devices, id) is Some,
        listed_id(devices, packed(packed_for, id)) is None,
        lowercase(packed(packed_for, id)).len() >= packed(packed_for, id).len(),
    ensures
        resolved_device(packed(packed_for, id), flow, devices) == Ok::<
            Option<Seq<char>>,
            Seq<char>,
        >(listed_id(devices, id)),
{
    packed_id_inverts_pack(packed_for, id);
    packed_is_long(packed_for, id, lowercase(packed(packed_for, id)));
}

} // verus!
