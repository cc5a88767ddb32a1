//! The PowerShell script that reads and sets devices: how it is run and what
//! its answers mean.

use crate::decode::{
    decode_bool, decode_text_list, decode_u32, too_long_message, wrong_type_message,
};
use crate::json::{self, Json};
use crate::text;
use vstd::prelude::*;

use crate::decode::{
    decoded_bool, decoded_text_list, decoded_u32, decoding, too_long, wrong_type,
};
use crate::json::{json_parse, member, JsonView};
use crate::text::{lines_of, signed_decimal, trimmed};

verus! {

/// File that holds the script.
pub const SCRIPT_FILENAME: &'static str = "audio-config-manager.ps1";

/// Longest time that an action of the script may take, in seconds.
pub const SCRIPT_TIMEOUT: u64 = 60;

/// Longest time that installing the module may take, in seconds.
pub const INSTALL_TIMEOUT: u64 = 600;

/// Program that runs the script.
pub const PS_EXE: &'static str = "powershell.exe";

// ---------------------------------------------------------------------------
// The script file
// ---------------------------------------------------------------------------

/// The content of the script file: a byte order mark, so that Windows
/// PowerShell reads it as UTF-8, and the script.
pub open spec fn script_content(script: Seq<char>) -> Seq<char> {
    seq!['\u{feff}'] + script
}

/// What has to be written to the script file; nothing where it is up to date.
/// `existing` is what it holds, if it can be read.
pub fn ensure_script(existing: Option<&str>, script: &str) -> (r: Option<String>)
    ensures
        match r {
            Some(content) => content@ == script_content(script@) && existing.deep_view() != Some(
                script_content(script@),
            ),
            None => existing.deep_view() == Some(script_content(script@)),
        },
{
    let mut expected = String::new();
    expected.push('\u{feff}');
    expected.append(script);
    assert(expected@ == script_content(script@));
    match existing {
        Some(content) => {
            if text::same(content, expected.as_str()) {
                None
            } else {
                Some(expected)
            }
        },
        None => Some(expected),
    }
}

/// Arguments of the program that runs an action of the script.
pub open spec fn script_arguments(
    script: Seq<char>,
    action: Seq<char>,
    config_path: Option<Seq<char>>,
) -> Seq<Seq<char>> {
    let base = seq![
        "-NoProfile"@,
        "-ExecutionPolicy"@,
        "Bypass"@,
        "-File"@,
        script,
        "-Action"@,
        action,
    ];
    match config_path {
        Some(path) => base + seq!["-ConfigPath"@, path],
        None => base,
    }
}

fn push_argument(arguments: &mut Vec<String>, argument: &str)
    ensures
        final(arguments).deep_view() == old(arguments).deep_view().push(argument@),
{
    let ghost before = arguments.deep_view();
    arguments.push(text::owned(argument));
    assert(arguments.deep_view() =~= before.push(argument@));
}

/// Arguments of the program that runs an action of the script.
pub fn script_command(script: &str, action: &str, config_path: Option<&str>) -> (r: Vec<String>)
    ensures
        r.deep_view() == script_arguments(script@, action@, config_path.deep_view()),
{
    let mut arguments: Vec<String> = Vec::new();
    assert(arguments.deep_view() =~= Seq::<Seq<char>>::empty());
    push_argument(&mut arguments, "-NoProfile");
    push_argument(&mut arguments, "-ExecutionPolicy");
    push_argument(&mut arguments, "Bypass");
    push_argument(&mut arguments, "-File");
    push_argument(&mut arguments, script);
    push_argument(&mut arguments, "-Action");
    push_argument(&mut arguments, action);
    match config_path {
        Some(path) => {
            push_argument(&mut arguments, "-ConfigPath");
            push_argument(&mut arguments, path);
        },
        None => {},
    }
    assert(arguments.deep_view() =~= script_arguments(script@, action@, config_path.deep_view()));
    arguments
}

/// The commands that install the audio module.
pub open spec fn install_commands() -> Seq<char> {
    "Install-PackageProvider NuGet -Force -Scope CurrentUser; Set-PSRepository PSGallery -InstallationPolicy Trusted; Install-Module AudioDeviceCmdlets -Scope CurrentUser -Force -AllowClobber"@
}

/// Arguments of the program that installs the audio module, without a window.
pub fn install_command() -> (r: Vec<String>)
    ensures
        r.deep_view() == seq![
            "-NoProfile"@,
            "-ExecutionPolicy"@,
            "Bypass"@,
            "-NonInteractive"@,
            "-WindowStyle"@,
            "Hidden"@,
            "-Command"@,
            install_commands(),
        ],
{
    let mut arguments: Vec<String> = Vec::new();
    assert(arguments.deep_view() =~= Seq::<Seq<char>>::empty());
    push_argument(&mut arguments, "-NoProfile");
    push_argument(&mut arguments, "-ExecutionPolicy");
    push_argument(&mut arguments, "Bypass");
    push_argument(&mut arguments, "-NonInteractive");
    push_argument(&mut arguments, "-WindowStyle");
    push_argument(&mut arguments, "Hidden");
    push_argument(&mut arguments, "-Command");
    push_argument(
        &mut arguments,
        "Install-PackageProvider NuGet -Force -Scope CurrentUser; Set-PSRepository PSGallery -InstallationPolicy Trusted; Install-Module AudioDeviceCmdlets -Scope CurrentUser -Force -AllowClobber",
    );
    assert(arguments.deep_view() =~= seq![
        "-NoProfile"@,
        "-ExecutionPolicy"@,
        "Bypass"@,
        "-NonInteractive"@,
        "-WindowStyle"@,
        "Hidden"@,
        "-Command"@,
        install_commands(),
    ]);
    arguments
}

// ---------------------------------------------------------------------------
// Running a command
// ---------------------------------------------------------------------------

/// What waiting for a command showed.
#[derive(Debug)]
pub enum WaitEvent {
    /// It ended, with this code where it has one.
    Ended(Option<i32>),
    /// It still runs; its time may be up.
    Running { expired: bool },
    /// It cannot be waited for, for this reason.
    Failed(String),
}

/// What to do next about a command.
#[derive(Debug)]
pub enum WaitStep {
    /// Read what it wrote; it ended with this code.
    Collect(Option<i32>),
    /// Wait a little and look again.
    Wait,
    /// Stop it and give this error.
    Stop(String),
    /// Give this error.
    Fail(String),
}

/// What is said of a command whose time is up.
pub open spec fn timed_out() -> Seq<char> {
    "L'opération PowerShell a dépassé le délai."@
}

/// Decides what to do next about a command.
pub fn wait_step(event: WaitEvent) -> (r: WaitStep)
    ensures
        match (event, r) {
            (WaitEvent::Ended(code), WaitStep::Collect(given)) => given == code,
            (WaitEvent::Running { expired }, WaitStep::Wait) => !expired,
            (WaitEvent::Running { expired }, WaitStep::Stop(message)) => expired && message@
                == timed_out(),
            (WaitEvent::Failed(reason), WaitStep::Fail(message)) => message@
                == "Échec d'attente de PowerShell : "@ + reason@,
            _ => false,
        },
{
    match event {
        WaitEvent::Ended(code) => WaitStep::Collect(code),
        WaitEvent::Running { expired } => {
            if expired {
                WaitStep::Stop(text::owned("L'opération PowerShell a dépassé le délai."))
            } else {
                WaitStep::Wait
            }
        },
        WaitEvent::Failed(reason) => {
            let mut message = text::owned("Échec d'attente de PowerShell : ");
            message.append(reason.as_str());
            WaitStep::Fail(message)
        },
    }
}

/// What a command wrote and the code with which it ended.
#[derive(Debug)]
pub struct Captured {
    pub stdout: String,
    pub stderr: String,
    pub code: Option<i32>,
}

/// What a command that ended gave: `stdout` and `stderr` are missing where
/// reading them was interrupted.
pub fn run_capture(stdout: Option<String>, stderr: Option<String>, code: Option<i32>) -> (r: Result<
    Captured,
    String,
>)
    ensures
        match (r, stdout, stderr) {
            (Ok(captured), Some(out), Some(err)) => captured.stdout@ == out@ && captured.stderr@
                == err@ && captured.code == code,
            (Ok(_), _, _) => false,
            (Err(message), _, _) => (stdout is None || stderr is None) && message@
                == "Lecture PowerShell interrompue"@,
        },
{
    match (stdout, stderr) {
        (Some(stdout), Some(stderr)) => Ok(Captured { stdout, stderr, code }),
        _ => Err(text::owned("Lecture PowerShell interrompue")),
    }
}

/// Message for a program that cannot be started.
pub fn spawn_failure(reason: &str) -> (r: String)
    ensures
        r@ == "PowerShell indisponible : "@ + reason@,
{
    let mut message = text::owned("PowerShell indisponible : ");
    message.append(reason);
    message
}

// ---------------------------------------------------------------------------
// Answers
// ---------------------------------------------------------------------------

/// The value of the last line that is a JSON object, white space at its ends
/// aside.
pub open spec fn last_json(lines: Seq<Seq<char>>) -> Option<JsonView>
    decreases lines.len(),
{
    if lines.len() == 0 {
        None
    } else {
        match json_parse(trimmed(lines.last())) {
            Ok(JsonView::Object(members)) => Some(JsonView::Object(members)),
            _ => last_json(lines.drop_last()),
        }
    }
}

/// The start of a text, at most 200 characters of it.
pub open spec fn excerpt(s: Seq<char>) -> Seq<char> {
    if s.len() > 200 {
        s.take(200)
    } else {
        s
    }
}

/// The answer in what the script wrote: the last line that is a JSON object, as
/// cmdlets may write before it.
pub fn parse_json_output(stdout: &str) -> (r: Result<Json, String>)
    ensures
        match (r, last_json(lines_of(stdout@))) {
            (Ok(json), Some(expected)) => json.deep_view() == expected,
            (Err(message), None) => message@ == "Réponse audio invalide : "@ + excerpt(stdout@),
            _ => false,
        },
{
    let lines = text::lines(stdout);
    let ghost all = lines.deep_view();
    let mut n: usize = lines.len();
    assert(all.take(n as int) == all);
    while n > 0
        invariant
            n <= lines@.len(),
            all == lines.deep_view(),
            all == lines_of(stdout@),
            last_json(all) == last_json(all.take(n as int)),
        decreases n,
    {
        proof {
            assert(all.take(n as int).drop_last() == all.take(n - 1));
            assert(all.take(n as int).last() == lines@[n - 1]@);
        }
        let line = text::trim(lines[n - 1].as_str());
        match json::parse(line) {
            Ok(Json::Object(members)) => return Ok(Json::Object(members)),
            _ => {},
        }
        n -= 1;
    }
    let length: usize = stdout.unicode_len();
    let end: usize = if length > 200 {
        200
    } else {
        length
    };
    let mut message = text::owned("Réponse audio invalide : ");
    message.append(stdout.substring_char(0, end));
    proof {
        assert(stdout@.subrange(0, end as int) == excerpt(stdout@));
    }
    Err(message)
}

/// The code with which a command ended; -1 where it has none.
pub open spec fn shown_code(code: Option<i32>) -> int {
    match code {
        Some(code) => code as int,
        None => -1,
    }
}

/// What is said of an action that failed: what it wrote as errors, or else its
/// code.
pub open spec fn action_failure(
    action: Seq<char>,
    stderr: Seq<char>,
    code: Option<i32>,
) -> Seq<char> {
    if trimmed(stderr).len() > 0 {
        trimmed(stderr)
    } else {
        "L'action « "@ + action + " » a échoué (code "@ + signed_decimal(shown_code(code)) + ")"@
    }
}

fn code_text(code: Option<i32>) -> (r: String)
    ensures
        r@ == signed_decimal(shown_code(code)),
{
    match code {
        Some(code) => text::signed_text(code),
        None => text::signed_text(-1),
    }
}

fn ended_well(code: Option<i32>) -> (r: bool)
    ensures
        r == (code == Some(0i32)),
{
    match code {
        Some(code) => code == 0,
        None => false,
    }
}

/// The answer of the script to an action. `run` is what the command gave, or
/// why it could not be run.
pub fn run_script(action: &str, run: &Result<Captured, String>) -> (r: Result<Json, String>)
    ensures
        match *run {
            Err(reason) => r is Err && r->Err_0@ == reason@,
            Ok(captured) => if captured.code != Some(0i32) {
                r is Err && r->Err_0@ == action_failure(
                    action@,
                    captured.stderr@,
                    captured.code,
                )
            } else {
                match (r, last_json(lines_of(captured.stdout@))) {
                    (Ok(json), Some(expected)) => json.deep_view() == expected,
                    (Err(message), None) => message@ == "Réponse audio invalide : "@ + excerpt(
                        captured.stdout@,
                    ),
                    _ => false,
                }
            },
        },
{
    match run {
        Err(reason) => Err(reason.clone()),
        Ok(captured) => {
            if !ended_well(captured.code) {
                let detail = text::trim(captured.stderr.as_str());
                if !detail.is_empty() {
                    return Err(text::owned(detail));
                }
                let mut message = text::owned("L'action « ");
                message.append(action);
                message.append(" » a échoué (code ");
                message.append(code_text(captured.code).as_str());
                message.append(")");
                return Err(message);
            }
            parse_json_output(captured.stdout.as_str())
        },
    }
}

/// What is said of an installation that failed.
pub open spec fn install_failure(stderr: Seq<char>, code: Option<i32>) -> Seq<char> {
    if trimmed(stderr).len() > 0 {
        "Installation du module impossible : "@ + trimmed(stderr)
    } else {
        "Installation du module impossible (code "@ + signed_decimal(shown_code(code)) + ")"@
    }
}

/// Outcome of installing the audio module. `run` is what the command gave, or
/// why it could not be run.
pub fn install_audio_module(run: &Result<Captured, String>) -> (r: Result<String, String>)
    ensures
        match *run {
            Err(reason) => r is Err && r->Err_0@ == reason@,
            Ok(captured) => if captured.code == Some(0i32) {
                r is Ok && r->Ok_0@ == "Module AudioDeviceCmdlets installé."@
            } else {
                r is Err && r->Err_0@ == install_failure(captured.stderr@, captured.code)
            },
        },
{
    match run {
        Err(reason) => Err(reason.clone()),
        Ok(captured) => {
            if ended_well(captured.code) {
                return Ok(text::owned("Module AudioDeviceCmdlets installé."));
            }
            let detail = text::trim(captured.stderr.as_str());
            if !detail.is_empty() {
                let mut message = text::owned("Installation du module impossible : ");
                message.append(detail);
                Err(message)
            } else {
                let mut message = text::owned("Installation du module impossible (code ");
                message.append(code_text(captured.code).as_str());
                message.append(")");
                Err(message)
            }
        },
    }
}

/// Answer of the script to a restore.
#[derive(Debug)]
pub struct RestoreInfo {
    pub ok: bool,
    pub applied: u32,
    pub missing: Vec<String>,
}

/// Answer to a restore, as contracts speak of it.
pub struct RestoreInfoView {
    pub ok: bool,
    pub applied: u32,
    pub missing: Seq<Seq<char>>,
}

impl DeepView for RestoreInfo {
    type V = RestoreInfoView;

    open spec fn deep_view(&self) -> RestoreInfoView {
        RestoreInfoView {
            ok: self.ok,
            applied: self.applied,
            missing: self.missing.deep_view(),
        }
    }
}

/// Message for an array that is too short to be an answer to a restore.
pub open spec fn short_restore_info(n: nat) -> Seq<char> {
    "invalid length "@ + text::decimal(n) + ", expected struct RestoreInfo with 3 elements"@
}

/// The answer to a restore that a value stands for: an object with `ok`,
/// `applied` and `missing`, looked at in the order of their names, or an array
/// with the three in this order.
pub open spec fn decoded_restore_info(v: JsonView) -> Result<RestoreInfoView, Seq<char>> {
    match v {
        JsonView::Object(_) => {
            let applied = member(v, "applied"@);
            let missing = member(v, "missing"@);
            let ok = member(v, "ok"@);
            if applied is Some && decoded_u32(applied->Some_0) is Err {
                Err(decoded_u32(applied->Some_0)->Err_0)
            } else if missing is Some && decoded_text_list(missing->Some_0) is Err {
                Err(decoded_text_list(missing->Some_0)->Err_0)
            } else if ok is Some && decoded_bool(ok->Some_0) is Err {
                Err(decoded_bool(ok->Some_0)->Err_0)
            } else if ok is None {
                Err("missing field `ok`"@)
            } else if applied is None {
                Err("missing field `applied`"@)
            } else if missing is None {
                Err("missing field `missing`"@)
            } else {
                Ok(
                    RestoreInfoView {
                        ok: decoded_bool(ok->Some_0)->Ok_0,
                        applied: decoded_u32(applied->Some_0)->Ok_0,
                        missing: decoded_text_list(missing->Some_0)->Ok_0,
                    },
                )
            }
        },
        JsonView::Array(items) => if items.len() == 0 {
            Err(short_restore_info(0))
        } else if decoded_bool(items[0]) is Err {
            Err(decoded_bool(items[0])->Err_0)
        } else if items.len() == 1 {
            Err(short_restore_info(1))
        } else if decoded_u32(items[1]) is Err {
            Err(decoded_u32(items[1])->Err_0)
        } else if items.len() == 2 {
            Err(short_restore_info(2))
        } else if decoded_text_list(items[2]) is Err {
            Err(decoded_text_list(items[2])->Err_0)
        } else if items.len() > 3 {
            Err(too_long(items.len()))
        } else {
            Ok(
                RestoreInfoView {
                    ok: decoded_bool(items[0])->Ok_0,
                    applied: decoded_u32(items[1])->Ok_0,
                    missing: decoded_text_list(items[2])->Ok_0,
                },
            )
        },
        _ => Err(wrong_type(v, "struct RestoreInfo"@)),
    }
}

fn short_restore_info_message(n: usize) -> (r: String)
    ensures
        r@ == short_restore_info(n as nat),
{
    let mut out = text::owned("invalid length ");
    out.append(text::decimal_text(n as u64).as_str());
    out.append(", expected struct RestoreInfo with 3 elements");
    out
}

/// The answer to a restore that a value stands for.
pub fn restore_info_from_json(json: &Json) -> (r: Result<RestoreInfo, String>)
    ensures
        decoding(r) == decoded_restore_info(json.deep_view()),
{
    match json {
        Json::Object(_) => {
            let applied: Option<u32> = match json.get("applied") {
                Some(found) => match decode_u32(found) {
                    Ok(applied) => Some(applied),
                    Err(reason) => return Err(reason),
                },
                None => None,
            };
            let missing = match json.get("missing") {
                Some(found) => match decode_text_list(found) {
                    Ok(missing) => Some(missing),
                    Err(reason) => return Err(reason),
                },
                None => None,
            };
            let ok = match json.get("ok") {
                Some(found) => match decode_bool(found) {
                    Ok(ok) => ok,
                    Err(reason) => return Err(reason),
                },
                None => return Err(text::owned("missing field `ok`")),
            };
            match (applied, missing) {
                (None, _) => Err(text::owned("missing field `applied`")),
                (Some(_), None) => Err(text::owned("missing field `missing`")),
                (Some(applied), Some(missing)) => Ok(RestoreInfo { ok, applied, missing }),
            }
        },
        Json::Array(_) => match json.as_array() {
            None => Err(wrong_type_message(json, "struct RestoreInfo")),
            Some(items) => {
                if items.len() == 0 {
                    return Err(short_restore_info_message(0));
                }
                let ok = match decode_bool(&items[0]) {
                    Ok(ok) => ok,
                    Err(reason) => return Err(reason),
                };
                if items.len() == 1 {
                    return Err(short_restore_info_message(1));
                }
                let applied: u32 = match decode_u32(&items[1]) {
                    Ok(applied) => applied,
                    Err(reason) => return Err(reason),
                };
                if items.len() == 2 {
                    return Err(short_restore_info_message(2));
                }
                let missing = match decode_text_list(&items[2]) {
                    Ok(missing) => missing,
                    Err(reason) => return Err(reason),
                };
                if items.len() > 3 {
                    return Err(too_long_message(items.len()));
                }
                Ok(RestoreInfo { ok, applied, missing })
            },
        },
        _ => Err(wrong_type_message(json, "struct RestoreInfo")),
    }
}

} // verus!
