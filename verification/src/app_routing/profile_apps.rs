//! Routing by application: what a profile stores of it, how stored entries
//! are matched with running processes, and what exporting, previewing and
//! restoring them gives.

use crate::app_routing::devices::units_before_zero;
use crate::app_routing::ffi::ProcessEntry32W;
use crate::app_routing::{DeviceList, DeviceListView};
use crate::text;
use vstd::prelude::*;

use crate::app_routing::devices::before_zero;
use crate::encoding::utf16_text;
use crate::text::{eq_ascii_fold, with_char_replaced};

verus! {

// ---------------------------------------------------------------------------
// Data
// ---------------------------------------------------------------------------

/// Target of one flow of an application.
#[derive(Debug, PartialEq)]
pub struct RouteTarget {
    pub device_id: String,
    pub device_name: Option<String>,
}

/// Entry of a profile for one application.
#[derive(Debug, PartialEq)]
pub struct ApplicationEntry {
    pub process_name: String,
    pub executable_path: Option<String>,
    pub output: Option<RouteTarget>,
    pub input: Option<RouteTarget>,
}

/// What previewing a profile shows of one application.
#[derive(Debug)]
pub struct AppPreviewRow {
    pub process_name: String,
    pub executable_path: Option<String>,
    /// Does the application run on this machine now?
    pub running: bool,
    pub output: Option<TargetPreview>,
    pub input: Option<TargetPreview>,
}

/// What previewing a profile shows of one route.
#[derive(Debug)]
pub struct TargetPreview {
    pub device_id: String,
    pub device_name: Option<String>,
    /// Is the device there on this machine?
    pub present: bool,
}

/// Outcome of restoring the routes of a profile.
#[derive(Debug)]
pub struct RestoreReport {
    pub applied: u32,
    pub missing: Vec<String>,
    pub warnings: Vec<String>,
    pub errors: Vec<String>,
}

/// A process with audio and its persisted routes (none: the system's device).
#[derive(Debug)]
pub struct AppSessionRow {
    pub pid: u32,
    pub process_name: String,
    pub executable_path: Option<String>,
    /// Does the process play or record at this moment?
    pub playing: bool,
    pub output: Option<RouteTarget>,
    pub input: Option<RouteTarget>,
}

/// A running process.
#[derive(Debug)]
pub struct ProcInfo {
    pub pid: u32,
    pub name: String,
    pub exe: Option<String>,
}

/// A route target, as contracts speak of it.
pub struct RouteTargetView {
    pub device_id: Seq<char>,
    pub device_name: Option<Seq<char>>,
}

/// An application entry, as contracts speak of it.
pub struct ApplicationEntryView {
    pub process_name: Seq<char>,
    pub executable_path: Option<Seq<char>>,
    pub output: Option<RouteTargetView>,
    pub input: Option<RouteTargetView>,
}

/// A preview row, as contracts speak of it.
pub struct AppPreviewRowView {
    pub process_name: Seq<char>,
    pub executable_path: Option<Seq<char>>,
    pub running: bool,
    pub output: Option<TargetPreviewView>,
    pub input: Option<TargetPreviewView>,
}

/// A previewed route, as contracts speak of it.
pub struct TargetPreviewView {
    pub device_id: Seq<char>,
    pub device_name: Option<Seq<char>>,
    pub present: bool,
}

/// A restore report, as contracts speak of it.
pub struct RestoreReportView {
    pub applied: int,
    pub missing: Seq<Seq<char>>,
    pub warnings: Seq<Seq<char>>,
    pub errors: Seq<Seq<char>>,
}

/// A session row, as contracts speak of it.
pub struct AppSessionRowView {
    pub pid: u32,
    pub process_name: Seq<char>,
    pub executable_path: Option<Seq<char>>,
    pub playing: bool,
    pub output: Option<RouteTargetView>,
    pub input: Option<RouteTargetView>,
}

/// A running process, as contracts speak of it.
pub struct ProcInfoView {
    pub pid: u32,
    pub name: Seq<char>,
    pub exe: Option<Seq<char>>,
}

impl DeepView for RouteTarget {
    type V = RouteTargetView;

    open spec fn deep_view(&self) -> RouteTargetView {
        RouteTargetView {
            device_id: self.device_id@,
            device_name: self.device_name.deep_view(),
        }
    }
}

impl DeepView for ApplicationEntry {
    type V = ApplicationEntryView;

    open spec fn deep_view(&self) -> ApplicationEntryView {
        ApplicationEntryView {
            process_name: self.process_name@,
            executable_path: self.executable_path.deep_view(),
            output: self.output.deep_view(),
            input: self.input.deep_view(),
        }
    }
}

impl DeepView for AppPreviewRow {
    type V = AppPreviewRowView;

    open spec fn deep_view(&self) -> AppPreviewRowView {
        AppPreviewRowView {
            process_name: self.process_name@,
            executable_path: self.executable_path.deep_view(),
            running: self.running,
            output: self.output.deep_view(),
            input: self.input.deep_view(),
        }
    }
}

impl DeepView for TargetPreview {
    type V = TargetPreviewView;

    open spec fn deep_view(&self) -> TargetPreviewView {
        TargetPreviewView {
            device_id: self.device_id@,
            device_name: self.device_name.deep_view(),
            present: self.present,
        }
    }
}

impl DeepView for RestoreReport {
    type V = RestoreReportView;

    open spec fn deep_view(&self) -> RestoreReportView {
        RestoreReportView {
            applied: self.applied as int,
            missing: self.missing.deep_view(),
            warnings: self.warnings.deep_view(),
            errors: self.errors.deep_view(),
        }
    }
}

impl DeepView for AppSessionRow {
    type V = AppSessionRowView;

    open spec fn deep_view(&self) -> AppSessionRowView {
        AppSessionRowView {
            pid: self.pid,
            process_name: self.process_name@,
            executable_path: self.executable_path.deep_view(),
            playing: self.playing,
            output: self.output.deep_view(),
            input: self.input.deep_view(),
        }
    }
}

impl DeepView for ProcInfo {
    type V = ProcInfoView;

    open spec fn deep_view(&self) -> ProcInfoView {
        ProcInfoView { pid: self.pid, name: self.name@, exe: self.exe.deep_view() }
    }
}

/// A copy of an optional text.
pub fn copy_option(text: &Option<String>) -> (r: Option<String>)
    ensures
        r.deep_view() == text.deep_view(),
{
    match text {
        Some(text) => Some(text.clone()),
        None => None,
    }
}

impl Clone for RouteTarget {
    fn clone(&self) -> (r: RouteTarget)
        ensures
            r.deep_view() == self.deep_view(),
    {
        RouteTarget {
            device_id: self.device_id.clone(),
            device_name: copy_option(&self.device_name),
        }
    }
}

impl Clone for ApplicationEntry {
    fn clone(&self) -> (r: ApplicationEntry)
        ensures
            r.deep_view() == self.deep_view(),
    {
        ApplicationEntry {
            process_name: self.process_name.clone(),
            executable_path: copy_option(&self.executable_path),
            output: match &self.output {
                Some(target) => Some(target.clone()),
                None => None,
            },
            input: match &self.input {
                Some(target) => Some(target.clone()),
                None => None,
            },
        }
    }
}

impl Clone for ProcInfo {
    fn clone(&self) -> (r: ProcInfo)
        ensures
            r.deep_view() == self.deep_view(),
    {
        ProcInfo { pid: self.pid, name: self.name.clone(), exe: copy_option(&self.exe) }
    }
}

impl Default for RestoreReport {
    fn default() -> (r: RestoreReport)
        ensures
            r.applied == 0,
            r.missing@.len() == 0,
            r.warnings@.len() == 0,
            r.errors@.len() == 0,
    {
        RestoreReport {
            applied: 0,
            missing: Vec::new(),
            warnings: Vec::new(),
            errors: Vec::new(),
        }
    }
}

// ---------------------------------------------------------------------------
// Processes
// ---------------------------------------------------------------------------

/// The process that a snapshot entry stands for. Process number zero has no
/// executable.
pub open spec fn snapshot_process(entry: ProcessEntry32W, exe: Option<Seq<char>>) -> ProcInfoView {
    ProcInfoView {
        pid: entry.th32_process_id,
        name: utf16_text(entry.sz_exe_file@.take(before_zero(entry.sz_exe_file@) as int)),
        exe: if entry.th32_process_id > 0 {
            exe
        } else {
            None
        },
    }
}

/// The process that a snapshot entry stands for; `exe` is the path of its
/// executable where it could be read.
pub fn process_of_entry(entry: &ProcessEntry32W, exe: Option<String>) -> (r: ProcInfo)
    ensures
        r.deep_view() == snapshot_process(*entry, exe.deep_view()),
{
    let units = vstd::array::array_as_slice(&entry.sz_exe_file);
    let end: usize = units_before_zero(units);
    let head = vstd::slice::slice_subrange(units, 0, end);
    assert(head@ == entry.sz_exe_file@.take(end as int));
    let name = String::from_utf16_lossy(head);
    let exe = if entry.th32_process_id > 0 {
        exe
    } else {
        None
    };
    ProcInfo { pid: entry.th32_process_id, name, exe }
}

/// The path of a process's executable: `units` is the buffer that was filled,
/// `size` how much of it; nothing where the query failed.
pub fn process_exe(succeeded: bool, units: &[u16], size: usize) -> (r: Option<String>)
    requires
        size <= units@.len(),
    ensures
        r.deep_view() == (if succeeded {
            Some(utf16_text(units@.take(size as int)))
        } else {
            None
        }),
{
    if succeeded {
        let head = vstd::slice::slice_subrange(units, 0, size);
        assert(head@ == units@.take(size as int));
        Some(String::from_utf16_lossy(head))
    } else {
        None
    }
}

/// The first process with a given number.
pub open spec fn process_with_pid(running: Seq<ProcInfoView>, pid: u32) -> Option<ProcInfoView>
    decreases running.len(),
{
    if running.len() == 0 {
        None
    } else if running[0].pid == pid {
        Some(running[0])
    } else {
        process_with_pid(running.skip(1), pid)
    }
}

/// Position of the first process with a given number.
pub fn position_of_pid(running: &Vec<ProcInfo>, pid: u32) -> (r: Option<usize>)
    ensures
        match r {
            Some(at) => at < running@.len() && process_with_pid(running.deep_view(), pid) == Some(
                running@[at as int].deep_view(),
            ),
            None => process_with_pid(running.deep_view(), pid) is None,
        },
{
    let mut i: usize = 0;
    assert(running.deep_view().skip(0) == running.deep_view());
    while i < running.len()
        invariant
            i <= running@.len(),
            process_with_pid(running.deep_view(), pid) == process_with_pid(
                running.deep_view().skip(i as int),
                pid,
            ),
        decreases running@.len() - i,
    {
        if running[i].pid == pid {
            return Some(i);
        }
        assert(running.deep_view().skip(i as int).skip(1) == running.deep_view().skip(i + 1));
        i += 1;
    }
    None
}

/// Are the two paths the same on Windows, where slashes stand for backslashes
/// and the case of ASCII letters does not count?
pub open spec fn same_path(a: Seq<char>, b: Seq<char>) -> bool {
    eq_ascii_fold(with_char_replaced(a, '/', '\\'), with_char_replaced(b, '/', '\\'))
}

/// Are the two paths the same on Windows?
pub fn paths_equal(a: &str, b: &str) -> (r: bool)
    ensures
        r == same_path(a@, b@),
{
    let x = text::replace_char(a, '/', '\\');
    let y = text::replace_char(b, '/', '\\');
    text::same_ignoring_ascii_case(x.as_str(), y.as_str())
}

/// Being the same path is an equivalence.
pub proof fn same_path_is_equivalence(a: Seq<char>, b: Seq<char>, c: Seq<char>)
    ensures
        same_path(a, a),
        same_path(a, b) ==> same_path(b, a),
        same_path(a, b) && same_path(b, c) ==> same_path(a, c),
{
}

/// How an entry was matched with running processes.
#[derive(Debug, Clone, Copy, PartialEq, Eq, Structural)]
pub enum ProcessMatch {
    Path,
    Name,
    Nothing,
}

/// The running processes whose executable is the one stored in the entry.
pub open spec fn running_by_path(
    entry: ApplicationEntryView,
    running: Seq<ProcInfoView>,
) -> Seq<ProcInfoView> {
    match entry.executable_path {
        Some(path) => running.filter(
            |p: ProcInfoView| p.exe is Some && same_path(p.exe->Some_0, path),
        ),
        None => Seq::empty(),
    }
}

/// The running processes that have the name stored in the entry.
pub open spec fn running_by_name(
    entry: ApplicationEntryView,
    running: Seq<ProcInfoView>,
) -> Seq<ProcInfoView> {
    if entry.process_name.len() > 0 {
        running.filter(|p: ProcInfoView| eq_ascii_fold(p.name, entry.process_name))
    } else {
        Seq::empty()
    }
}

/// The running processes of an application, and how they were found: those
/// with its executable; where there are none, those with its name.
pub open spec fn matched_processes(
    entry: ApplicationEntryView,
    running: Seq<ProcInfoView>,
) -> (Seq<ProcInfoView>, ProcessMatch) {
    if running_by_path(entry, running).len() > 0 {
        (running_by_path(entry, running), ProcessMatch::Path)
    } else if running_by_name(entry, running).len() > 0 {
        (running_by_name(entry, running), ProcessMatch::Name)
    } else {
        (Seq::empty(), ProcessMatch::Nothing)
    }
}

fn with_path(path: &str, running: &Vec<ProcInfo>) -> (r: Vec<ProcInfo>)
    ensures
        r.deep_view() == running.deep_view().filter(
            |p: ProcInfoView| p.exe is Some && same_path(p.exe->Some_0, path@),
        ),
{
    let ghost f = |p: ProcInfoView| p.exe is Some && same_path(p.exe->Some_0, path@);
    let mut out: Vec<ProcInfo> = Vec::new();
    let mut i: usize = 0;
    proof {
        reveal(Seq::filter);
        assert(out.deep_view() =~= running.deep_view().take(0).filter(f));
    }
    while i < running.len()
        invariant
            i <= running@.len(),
            f == (|p: ProcInfoView| p.exe is Some && same_path(p.exe->Some_0, path@)),
            out.deep_view() == running.deep_view().take(i as int).filter(f),
        decreases running@.len() - i,
    {
        let ghost before = out.deep_view();
        let ghost all = running.deep_view();
        proof {
            assert(all.take(i + 1) == all.take(i as int).push(all[i as int]));
            all.take(i as int).lemma_filter_push(all[i as int], f);
        }
        match &running[i].exe {
            Some(exe) => {
                if paths_equal(exe.as_str(), path) {
                    out.push(running[i].clone());
                    assert(out.deep_view() =~= before.push(all[i as int]));
                }
            },
            None => {},
        }
        i += 1;
    }
    assert(running.deep_view().take(i as int) == running.deep_view());
    out
}

fn with_name(name: &str, running: &Vec<ProcInfo>) -> (r: Vec<ProcInfo>)
    ensures
        r.deep_view() == running.deep_view().filter(
            |p: ProcInfoView| eq_ascii_fold(p.name, name@),
        ),
{
    let ghost f = |p: ProcInfoView| eq_ascii_fold(p.name, name@);
    let mut out: Vec<ProcInfo> = Vec::new();
    let mut i: usize = 0;
    proof {
        reveal(Seq::filter);
        assert(out.deep_view() =~= running.deep_view().take(0).filter(f));
    }
    while i < running.len()
        invariant
            i <= running@.len(),
            f == (|p: ProcInfoView| eq_ascii_fold(p.name, name@)),
            out.deep_view() == running.deep_view().take(i as int).filter(f),
        decreases running@.len() - i,
    {
        let ghost before = out.deep_view();
        let ghost all = running.deep_view();
        proof {
            assert(all.take(i + 1) == all.take(i as int).push(all[i as int]));
            all.take(i as int).lemma_filter_push(all[i as int], f);
        }
        if text::same_ignoring_ascii_case(running[i].name.as_str(), name) {
            out.push(running[i].clone());
            assert(out.deep_view() =~= before.push(all[i as int]));
        }
        i += 1;
    }
    assert(running.deep_view().take(i as int) == running.deep_view());
    out
}

/// The running processes of an application, and how they were found.
pub fn match_processes(entry: &ApplicationEntry, running: &Vec<ProcInfo>) -> (r: (
    Vec<ProcInfo>,
    ProcessMatch,
))
    ensures
        (r.0.deep_view(), r.1) == matched_processes(entry.deep_view(), running.deep_view()),
{
    match &entry.executable_path {
        Some(path) => {
            let exact = with_path(path.as_str(), running);
            if exact.len() > 0 {
                assert(exact.deep_view().len() > 0);
                return (exact, ProcessMatch::Path);
            }
        },
        None => {},
    }
    if !entry.process_name.as_str().is_empty() {
        let named = with_name(entry.process_name.as_str(), running);
        if named.len() > 0 {
            assert(named.deep_view().len() > 0);
            return (named, ProcessMatch::Name);
        }
    }
    let none: Vec<ProcInfo> = Vec::new();
    assert(none.deep_view() =~= Seq::<ProcInfoView>::empty());
    (none, ProcessMatch::Nothing)
}

// ---------------------------------------------------------------------------
// Devices
// ---------------------------------------------------------------------------

/// The name of the first device with a given identifier.
pub open spec fn name_of_device(devices: DeviceListView, id: Seq<char>) -> Option<Seq<char>>
    decreases devices.len(),
{
    if devices.len() == 0 {
        None
    } else if eq_ascii_fold(devices[0].0, id) {
        Some(devices[0].1)
    } else {
        name_of_device(devices.skip(1), id)
    }
}

/// Is the target one of the devices, by identifier or by name?
pub open spec fn target_known(devices: DeviceListView, target: RouteTargetView) -> bool {
    exists|i: int|
        0 <= i < devices.len() && (eq_ascii_fold((#[trigger] devices[i]).0, target.device_id) || (
        target.device_name is Some && eq_ascii_fold(devices[i].1, target.device_name->Some_0)))
}

/// The name of a device, if it is in the list.
pub fn device_name(devices: &DeviceList, device_id: &str) -> (r: Option<String>)
    ensures
        r.deep_view() == name_of_device(devices.deep_view(), device_id@),
{
    let mut i: usize = 0;
    assert(devices.deep_view().skip(0) == devices.deep_view());
    while i < devices.len()
        invariant
            i <= devices@.len(),
            name_of_device(devices.deep_view(), device_id@) == name_of_device(
                devices.deep_view().skip(i as int),
                device_id@,
            ),
        decreases devices@.len() - i,
    {
        if text::same_ignoring_ascii_case(devices[i].0.as_str(), device_id) {
            return Some(devices[i].1.clone());
        }
        assert(devices.deep_view().skip(i as int).skip(1) == devices.deep_view().skip(i + 1));
        i += 1;
    }
    None
}

/// Is the target one of the devices, by identifier or by name?
pub fn device_known(devices: &DeviceList, target: &RouteTarget) -> (r: bool)
    ensures
        r == target_known(devices.deep_view(), target.deep_view()),
{
    let mut i: usize = 0;
    while i < devices.len()
        invariant
            i <= devices@.len(),
            forall|j: int|
                0 <= j < i ==> !eq_ascii_fold(
                    (#[trigger] devices.deep_view()[j]).0,
                    target.device_id@,
                ) && !(target.device_name is Some && eq_ascii_fold(
                    devices.deep_view()[j].1,
                    target.device_name->Some_0@,
                )),
        decreases devices@.len() - i,
    {
        assert(devices.deep_view()[i as int] == (devices@[i as int].0@, devices@[i as int].1@));
        if text::same_ignoring_ascii_case(devices[i].0.as_str(), target.device_id.as_str()) {
            return true;
        }
        match &target.device_name {
            Some(name) => {
                if text::same_ignoring_ascii_case(devices[i].1.as_str(), name.as_str()) {
                    return true;
                }
            },
            None => {},
        }
        i += 1;
    }
    false
}

} // verus!
