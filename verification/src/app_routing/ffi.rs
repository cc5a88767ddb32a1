//! What the routing engine's raw calls mean: result codes, identifiers,
//! Windows strings and the persisted-route interface.

use crate::app_routing::devices::{pack_device_id, unpack_device_id};
use crate::app_routing::Flow;
use crate::text;
use vstd::prelude::*;

use crate::app_routing::devices::{packed, unpacked};
use crate::app_routing::flow_label;
use crate::encoding::{utf16_text, utf16_units};

verus! {

// ---------------------------------------------------------------------------
// Identifiers and native records
// ---------------------------------------------------------------------------

/// An interface or class identifier.
#[derive(Debug, Clone, Copy, PartialEq)]
pub struct Guid {
    pub data1: u32,
    pub data2: u16,
    pub data3: u16,
    pub data4: [u8; 8],
}

/// Do the two identifiers have the same parts?
pub open spec fn same_guid(a: Guid, b: Guid) -> bool {
    a.data1 == b.data1 && a.data2 == b.data2 && a.data3 == b.data3 && a.data4@ == b.data4@
}

/// Is `g` the identifier with these parts?
pub open spec fn guid_is(g: Guid, data1: u32, data2: u16, data3: u16, data4: Seq<u8>) -> bool {
    g.data1 == data1 && g.data2 == data2 && g.data3 == data3 && g.data4@ == data4
}

impl Guid {
    /// Do the two identifiers have the same parts?
    pub fn same_as(&self, other: &Guid) -> (r: bool)
        ensures
            r == same_guid(*self, *other),
    {
        if self.data1 != other.data1 || self.data2 != other.data2 || self.data3 != other.data3 {
            return false;
        }
        let mut i: usize = 0;
        while i < 8
            invariant
                i <= 8,
                forall|j: int| 0 <= j < i ==> self.data4@[j] == other.data4@[j],
            decreases 8 - i,
        {
            if self.data4[i] != other.data4[i] {
                return false;
            }
            i += 1;
        }
        assert(self.data4@ == other.data4@);
        true
    }
}

/// Interface of the policy factory from Windows 11 21H2 on.
pub fn iid_policy_config_21h2() -> (r: Guid)
    ensures
        guid_is(
            r,
            0xab3d4648,
            0xe242,
            0x459f,
            seq![0xb0, 0x2f, 0x54, 0x1c, 0x70, 0x30, 0x63, 0x24],
        ),
{
    Guid {
        data1: 0xab3d4648,
        data2: 0xe242,
        data3: 0x459f,
        data4: [0xb0, 0x2f, 0x54, 0x1c, 0x70, 0x30, 0x63, 0x24],
    }
}

/// Interface of the policy factory before Windows 11 21H2.
pub fn iid_policy_config_downlevel() -> (r: Guid)
    ensures
        guid_is(
            r,
            0x2a59116d,
            0x6c4f,
            0x45e0,
            seq![0xa7, 0x4f, 0x70, 0x7e, 0x3f, 0xef, 0x92, 0x58],
        ),
{
    Guid {
        data1: 0x2a59116d,
        data2: 0x6c4f,
        data3: 0x45e0,
        data4: [0xa7, 0x4f, 0x70, 0x7e, 0x3f, 0xef, 0x92, 0x58],
    }
}

/// The interfaces under which the policy factory is asked for, newest first.
pub fn policy_config_iids() -> (r: [Guid; 2])
    ensures
        guid_is(
            r@[0],
            0xab3d4648,
            0xe242,
            0x459f,
            seq![0xb0, 0x2f, 0x54, 0x1c, 0x70, 0x30, 0x63, 0x24],
        ),
        guid_is(
            r@[1],
            0x2a59116d,
            0x6c4f,
            0x45e0,
            seq![0xa7, 0x4f, 0x70, 0x7e, 0x3f, 0xef, 0x92, 0x58],
        ),
{
    [iid_policy_config_21h2(), iid_policy_config_downlevel()]
}

/// Class of the device enumerator.
pub fn clsid_mmdevice_enumerator() -> (r: Guid)
    ensures
        guid_is(
            r,
            0xbcde0395,
            0xe52f,
            0x467c,
            seq![0x8e, 0x3d, 0xc4, 0x57, 0x92, 0x91, 0x69, 0x2e],
        ),
{
    Guid {
        data1: 0xbcde0395,
        data2: 0xe52f,
        data3: 0x467c,
        data4: [0x8e, 0x3d, 0xc4, 0x57, 0x92, 0x91, 0x69, 0x2e],
    }
}

/// Interface of the device enumerator.
pub fn iid_immdevice_enumerator() -> (r: Guid)
    ensures
        guid_is(
            r,
            0xa95664d2,
            0x9614,
            0x4f35,
            seq![0xa7, 0x46, 0xde, 0x8d, 0xb6, 0x36, 0x17, 0xe6],
        ),
{
    Guid {
        data1: 0xa95664d2,
        data2: 0x9614,
        data3: 0x4f35,
        data4: [0xa7, 0x46, 0xde, 0x8d, 0xb6, 0x36, 0x17, 0xe6],
    }
}

/// Interface of a device's session manager.
pub fn iid_iaudio_session_manager_2() -> (r: Guid)
    ensures
        guid_is(
            r,
            0x77aa99a0,
            0x1bd6,
            0x484f,
            seq![0x8b, 0xc7, 0x2c, 0x65, 0x4c, 0x9a, 0x9b, 0x6f],
        ),
{
    Guid {
        data1: 0x77aa99a0,
        data2: 0x1bd6,
        data3: 0x484f,
        data4: [0x8b, 0xc7, 0x2c, 0x65, 0x4c, 0x9a, 0x9b, 0x6f],
    }
}

/// Interface of a session that tells its process.
pub fn iid_iaudio_session_control_2() -> (r: Guid)
    ensures
        guid_is(
            r,
            0xbfb7ff88,
            0x7239,
            0x4fc9,
            seq![0x8f, 0xa2, 0x07, 0xc9, 0x50, 0xbe, 0x9c, 0x6d],
        ),
{
    Guid {
        data1: 0xbfb7ff88,
        data2: 0x7239,
        data3: 0x4fc9,
        data4: [0x8f, 0xa2, 0x07, 0xc9, 0x50, 0xbe, 0x9c, 0x6d],
    }
}

/// Key of a device property.
#[derive(Debug, Clone, Copy)]
pub struct PropertyKey {
    pub fmtid: Guid,
    pub pid: u32,
}

/// Key of the name that the Sound panel shows for a device.
pub fn pkey_device_friendly_name() -> (r: PropertyKey)
    ensures
        guid_is(
            r.fmtid,
            0xa45c254e,
            0xdf1c,
            0x4efd,
            seq![0x80, 0x20, 0x67, 0xd1, 0x46, 0xa8, 0x50, 0xe0],
        ),
        r.pid == 14,
{
    PropertyKey {
        fmtid: Guid {
            data1: 0xa45c254e,
            data2: 0xdf1c,
            data3: 0x4efd,
            data4: [0x80, 0x20, 0x67, 0xd1, 0x46, 0xa8, 0x50, 0xe0],
        },
        pid: 14,
    }
}

/// A device property as it was read: its type, and the address of its text
/// where it is a text (zero for none).
#[derive(Debug, Clone, Copy)]
pub struct PropVariant {
    pub vt: u16,
    pub w_reserved1: u16,
    pub w_reserved2: u16,
    pub w_reserved3: u16,
    pub psz_val: usize,
    pub rest: u64,
}

/// Type of a property that is a UTF-16 text.
pub const VT_LPWSTR: u16 = 31;

impl PropVariant {
    /// Does the property hold a text?
    pub open spec fn is_text(&self) -> bool {
        self.vt == VT_LPWSTR && self.psz_val != 0
    }

    /// Does the property hold a text?
    pub fn holds_text(&self) -> (r: bool)
        ensures
            r == self.is_text(),
    {
        self.vt == VT_LPWSTR && self.psz_val != 0
    }
}

/// Entry of a snapshot of the running processes.
#[derive(Debug, Clone, Copy)]
pub struct ProcessEntry32W {
    pub dw_size: u32,
    pub cnt_usage: u32,
    pub th32_process_id: u32,
    pub th32_default_heap_id: usize,
    pub th32_module_id: u32,
    pub cnt_threads: u32,
    pub th32_parent_process_id: u32,
    pub pc_pri_class_base: i32,
    pub dw_flags: u32,
    pub sz_exe_file: [u16; 260],
}

// ---------------------------------------------------------------------------
// Result codes
// ---------------------------------------------------------------------------

/// Result code of a process that has no persisted route.
pub const HR_ERROR_NOT_FOUND: i32 = -2147023728;

/// `before` followed by a result code in hexadecimal.
pub open spec fn coded(before: Seq<char>, hr: i32) -> Seq<char> {
    before + " (0x"@ + text::hex_code(hr as u32) + ")"@
}

/// A message that ends with a result code in hexadecimal.
pub fn coded_message(before: &str, hr: i32) -> (r: String)
    ensures
        r@ == coded(before@, hr),
{
    let mut out = text::owned(before);
    out.append(" (0x");
    out.append(text::hex_code_text(hr as u32).as_str());
    out.append(")");
    out
}

/// What a call that hands out an object returned: its result code, and whether
/// the object is there.
#[derive(Debug, Clone, Copy)]
pub struct ComCall {
    pub hr: i32,
    pub present: bool,
}

impl ComCall {
    /// Did the call succeed and hand out an object?
    pub open spec fn succeeded(&self) -> bool {
        self.hr >= 0 && self.present
    }

    /// Did the call succeed and hand out an object?
    pub fn ok(&self) -> (r: bool)
        ensures
            r == self.succeeded(),
    {
        self.hr >= 0 && self.present
    }
}

/// Outcome of making a Windows string, from its result code.
pub fn string_created(hr: i32) -> (r: Result<(), String>)
    ensures
        match r {
            Ok(()) => hr >= 0,
            Err(message) => hr < 0 && message@ == coded(
                "Création de chaîne Windows impossible"@,
                hr,
            ),
        },
{
    if hr < 0 {
        Err(coded_message("Création de chaîne Windows impossible", hr))
    } else {
        Ok(())
    }
}

/// Outcome of asking an object for an interface. `object_present` is false
/// where there was no object to ask.
pub fn query_interface(object_present: bool, call: ComCall) -> (r: Result<(), String>)
    ensures
        match r {
            Ok(()) => object_present && call.succeeded(),
            Err(message) => if !object_present {
                message@ == "Objet COM nul"@
            } else {
                !call.succeeded() && message@ == coded("Interface COM indisponible"@, call.hr)
            },
        },
{
    if !object_present {
        return Err(text::owned("Objet COM nul"));
    }
    if call.ok() {
        Ok(())
    } else {
        Err(coded_message("Interface COM indisponible", call.hr))
    }
}

/// Outcome of creating the device enumerator.
pub fn device_enumerator(call: ComCall) -> (r: Result<(), String>)
    ensures
        match r {
            Ok(()) => call.succeeded(),
            Err(message) => !call.succeeded() && message@ == coded(
                "Énumérateur audio indisponible"@,
                call.hr,
            ),
        },
{
    if call.ok() {
        Ok(())
    } else {
        Err(coded_message("Énumérateur audio indisponible", call.hr))
    }
}

// ---------------------------------------------------------------------------
// Engine
// ---------------------------------------------------------------------------

/// What is said where the routing engine's thread cannot be reached.
pub open spec fn engine_unreachable() -> Seq<char> {
    "Moteur de routage par application indisponible."@
}

/// What is said where the system has no routing engine.
pub open spec fn routing_unavailable() -> Seq<char> {
    "Routage par application indisponible sur ce système."@
}

/// Message for a routing engine whose thread cannot be reached.
pub fn engine_unreachable_message() -> (r: String)
    ensures
        r@ == engine_unreachable(),
{
    text::owned("Moteur de routage par application indisponible.")
}

/// Message for a system without a routing engine.
pub fn routing_unavailable_message() -> (r: String)
    ensures
        r@ == routing_unavailable(),
{
    text::owned("Routage par application indisponible sur ce système.")
}

/// Position of the first call that succeeded.
pub open spec fn first_success(calls: Seq<ComCall>) -> Option<int>
    decreases calls.len(),
{
    if calls.len() == 0 {
        None
    } else if calls[0].succeeded() {
        Some(0)
    } else {
        match first_success(calls.skip(1)) {
            Some(i) => Some(i + 1),
            None => None,
        }
    }
}

/// Outcome of activating the policy factory: `class` says whether its class
/// name could be made, `attempts` what asking for each interface returned, in
/// the order of `policy_config_iids`. Gives the attempt that counts.
pub fn policy_activated(class: Result<(), String>, attempts: &Vec<ComCall>) -> (r: Result<
    usize,
    String,
>)
    ensures
        match (class, r) {
            (Err(reason), Err(message)) => message@ == reason@,
            (Err(_), Ok(_)) => false,
            (Ok(_), Ok(at)) => first_success(attempts@) == Some(at as int),
            (Ok(_), Err(message)) => first_success(attempts@) is None && message@
                == routing_unavailable(),
        },
{
    match class {
        Err(reason) => Err(reason),
        Ok(_) => {
            let mut i: usize = 0;
            assert(attempts@.skip(0) == attempts@);
            while i < attempts.len()
                invariant
                    i <= attempts@.len(),
                    class is Ok,
                    first_success(attempts@) == (match first_success(attempts@.skip(i as int)) {
                        Some(k) => Some(k + i),
                        None => None,
                    }),
                decreases attempts@.len() - i,
            {
                if attempts[i].ok() {
                    return Ok(i);
                }
                assert(attempts@.skip(i as int).skip(1) == attempts@.skip(i + 1));
                i += 1;
            }
            Err(routing_unavailable_message())
        },
    }
}

/// Is routing available? `activation` is what activating the engine on its
/// thread gave, or why the thread could not be reached.
pub fn routing_available(activation: Result<Result<usize, String>, String>) -> (r: bool)
    ensures
        r == (activation is Ok && activation->Ok_0 is Ok),
{
    match activation {
        Ok(Ok(_)) => true,
        _ => false,
    }
}

// ---------------------------------------------------------------------------
// Persisted routes
// ---------------------------------------------------------------------------

/// Role for which a route is persisted.
#[derive(Debug, Clone, Copy, PartialEq, Eq, Structural)]
pub enum Role {
    Console,
    Multimedia,
}

/// What messages call a role.
pub open spec fn role_label(role: Role) -> Seq<char> {
    match role {
        Role::Console => "console"@,
        Role::Multimedia => "multimédia"@,
    }
}

impl Role {
    /// The number by which the engine knows the role (`ERole`).
    pub fn value(self) -> (r: i32)
        ensures
            r == (match self {
                Role::Console => 0i32,
                Role::Multimedia => 1i32,
            }),
    {
        match self {
            Role::Console => 0,
            Role::Multimedia => 1,
        }
    }

    /// What messages call the role.
    pub fn label(self) -> (r: &'static str)
        ensures
            r@ == role_label(self),
    {
        match self {
            Role::Console => "console",
            Role::Multimedia => "multimédia",
        }
    }
}

/// What to do next to persist a route.
#[derive(Debug)]
pub enum SetStep {
    /// Write the route for this role.
    Write(Role),
    /// The route is persisted, or cannot be.
    Finished(Result<(), String>),
}

/// What is said where a route cannot be persisted for a role.
pub open spec fn set_failure(flow: Flow, role: Role, hr: i32) -> Seq<char> {
    coded("Routage "@ + flow_label(flow) + " ("@ + role_label(role) + ") impossible"@, hr)
}

/// The text that the engine is given for a target: the packed identifier of
/// the device, or nothing to clear the route.
pub open spec fn route_text(flow: Flow, device_id: Option<Seq<char>>) -> Option<Seq<char>> {
    match device_id {
        Some(id) => Some(packed(flow, id)),
        None => None,
    }
}

/// The text that the engine is given for a target.
pub fn route_argument(flow: Flow, device_id: Option<&str>) -> (r: Option<String>)
    ensures
        r.deep_view() == route_text(flow, device_id.deep_view()),
{
    match device_id {
        Some(id) => Some(pack_device_id(flow, id)),
        None => None,
    }
}

/// First step of persisting a route; `argument` says whether the Windows
/// string for its target could be made.
pub fn begin_set(argument: Result<(), String>) -> (r: SetStep)
    ensures
        match (argument, r) {
            (Ok(_), SetStep::Write(role)) => role == Role::Console,
            (Err(reason), SetStep::Finished(Err(message))) => message@ == reason@,
            _ => false,
        },
{
    match argument {
        Ok(_) => SetStep::Write(Role::Console),
        Err(reason) => SetStep::Finished(Err(reason)),
    }
}

/// First step of routing a process: nothing is written where the engine could
/// not be activated or the Windows string for the target could not be made.
pub fn set_app_route(activation: Result<usize, String>, argument: Result<(), String>) -> (r:
    SetStep)
    ensures
        match (activation, argument, r) {
            (Err(reason), _, SetStep::Finished(Err(message))) => message@ == reason@,
            (Ok(_), Err(reason), SetStep::Finished(Err(message))) => message@ == reason@,
            (Ok(_), Ok(_), SetStep::Write(role)) => role == Role::Console,
            _ => false,
        },
{
    match activation {
        Err(reason) => SetStep::Finished(Err(reason)),
        Ok(_) => begin_set(argument),
    }
}

/// Step after the route was written for `role` with result `hr`: the console
/// role first, the multimedia role next, and no further after a failure.
pub fn continue_set(flow: Flow, role: Role, hr: i32) -> (r: SetStep)
    ensures
        match r {
            SetStep::Write(next) => hr >= 0 && role == Role::Console && next == Role::Multimedia,
            SetStep::Finished(Ok(_)) => hr >= 0 && role == Role::Multimedia,
            SetStep::Finished(Err(message)) => hr < 0 && message@ == set_failure(flow, role, hr),
        },
{
    if hr < 0 {
        let mut before = text::owned("Routage ");
        before.append(flow.label());
        before.append(" (");
        before.append(role.label());
        before.append(") impossible");
        return SetStep::Finished(Err(coded_message(before.as_str(), hr)));
    }
    match role {
        Role::Console => SetStep::Write(Role::Multimedia),
        Role::Multimedia => SetStep::Finished(Ok(())),
    }
}

/// The persisted route of a process: `hr` is the result code of reading it for
/// the multimedia role, `units` the string that came back (none where it is
/// null). A process without a route follows the system's default device.
pub open spec fn read_route(flow: Flow, hr: i32, units: Option<Seq<u16>>) -> Result<
    Option<Seq<char>>,
    Seq<char>,
> {
    if hr == HR_ERROR_NOT_FOUND {
        Ok(None)
    } else if hr < 0 {
        Err(coded("Lecture de la route "@ + flow_label(flow) + " impossible"@, hr))
    } else {
        match units {
            Some(units) => Ok(unpacked(utf16_text(units))),
            None => Ok(None),
        }
    }
}

/// The persisted route of a process, from what reading it gave.
pub fn persisted_route(flow: Flow, hr: i32, units: Option<&[u16]>) -> (r: Result<
    Option<String>,
    String,
>)
    ensures
        match (r, read_route(flow, hr, units_view(units))) {
            (Ok(route), Ok(expected)) => route.deep_view() == expected,
            (Err(message), Err(expected)) => message@ == expected,
            _ => false,
        },
{
    if hr == HR_ERROR_NOT_FOUND {
        return Ok(None);
    }
    if hr < 0 {
        let mut before = text::owned("Lecture de la route ");
        before.append(flow.label());
        before.append(" impossible");
        return Err(coded_message(before.as_str(), hr));
    }
    match units {
        None => Ok(None),
        Some(units) => {
            let packed = String::from_utf16_lossy(units);
            Ok(unpack_device_id(packed.as_str()))
        },
    }
}

/// The units of a string that came back, as contracts speak of them.
pub open spec fn units_view(units: Option<&[u16]>) -> Option<Seq<u16>> {
    match units {
        Some(units) => Some(units@),
        None => None,
    }
}

/// A route that was set reads back as the identifier that was set: reading
/// gives the units of the text that the engine was given, or says that there is
/// no route once it was cleared.
pub proof fn set_routes_read_back(flow: Flow, device_id: Option<Seq<char>>, hr: i32)
    requires
        hr >= 0 || (hr == HR_ERROR_NOT_FOUND && device_id is None),
    ensures
        read_route(
            flow,
            hr,
            match route_text(flow, device_id) {
                Some(given) => Some(utf16_units(given)),
                None => None,
            },
        ) == Ok::<Option<Seq<char>>, Seq<char>>(device_id),
{
    if let Some(id) = device_id {
        crate::encoding::utf16_reads_back(packed(flow, id));
        crate::app_routing::devices::unpack_inverts_pack(flow, id);
    }
}

} // verus!
