//! Per-application audio routing: which process plays through which device.
//!
//! The engine itself is Windows' internal `AudioPolicyConfig` factory and the
//! public MMDevice interfaces. The program makes those calls and hands what
//! they returned to the functions of this module, which decide what it means.

pub mod devices;
pub mod export;
pub mod ffi;
pub mod profile_apps;
pub mod profile_file;
pub mod restore;
pub mod round_trip;
pub mod sessions;
pub mod watch;

use crate::text;
use vstd::prelude::*;

verus! {

/// Direction of the sound: towards a playback device, or from a recording one.
#[derive(Debug, Clone, Copy, PartialEq, Eq, Structural)]
pub enum Flow {
    Output,
    Input,
}

/// What messages call a flow.
pub open spec fn flow_label(flow: Flow) -> Seq<char> {
    match flow {
        Flow::Output => "sortie"@,
        Flow::Input => "entrée"@,
    }
}

/// The name of a flow on the command line and in requests.
pub open spec fn flow_name(flow: Flow) -> Seq<char> {
    match flow {
        Flow::Output => "output"@,
        Flow::Input => "input"@,
    }
}

/// The flow that a name stands for.
pub open spec fn flow_named(name: Seq<char>) -> Option<Flow> {
    if name == "output"@ {
        Some(Flow::Output)
    } else if name == "input"@ {
        Some(Flow::Input)
    } else {
        None
    }
}

/// Every flow is found again by its name.
pub proof fn flow_named_by_its_name(flow: Flow)
    ensures
        flow_named(flow_name(flow)) == Some(flow),
{
    reveal_strlit("output");
    reveal_strlit("input");
    assert("output"@.len() == 6);
    assert("input"@.len() == 5);
}

impl Flow {
    /// The number by which the MMDevice interfaces know the flow (`EDataFlow`).
    pub fn value(self) -> (r: i32)
        ensures
            r == (match self {
                Flow::Output => 0i32,
                Flow::Input => 1i32,
            }),
    {
        match self {
            Flow::Output => 0,
            Flow::Input => 1,
        }
    }

    /// What messages call the flow.
    pub fn label(self) -> (r: &'static str)
        ensures
            r@ == flow_label(self),
    {
        match self {
            Flow::Output => "sortie",
            Flow::Input => "entrée",
        }
    }

    /// The name of the flow on the command line and in requests.
    pub fn name(self) -> (r: &'static str)
        ensures
            r@ == flow_name(self),
    {
        match self {
            Flow::Output => "output",
            Flow::Input => "input",
        }
    }
}

/// The flow that a name stands for; any other name is refused.
pub fn parse_flow(value: &str) -> (r: Result<Flow, String>)
    ensures
        match r {
            Ok(flow) => flow_named(value@) == Some(flow),
            Err(message) => flow_named(value@) is None && message@
                == "Flux audio inconnu (attendu « output » ou « input »)"@,
        },
{
    if text::same(value, "output") {
        Ok(Flow::Output)
    } else if text::same(value, "input") {
        Ok(Flow::Input)
    } else {
        Err(text::owned("Flux audio inconnu (attendu « output » ou « input »)"))
    }
}

/// Devices of a flow: identifier and name of each.
pub type DeviceList = Vec<(String, String)>;

/// Devices of a flow, as contracts speak of them.
pub type DeviceListView = Seq<(Seq<char>, Seq<char>)>;

} // verus!
