//! A process that only plays silence, to try routing on: which device it
//! opens and how much it plays.

use crate::app_routing::ffi::ComCall;
use crate::text;
use vstd::prelude::*;

verus! {

/// Positions of the devices that could be had.
pub open spec fn present_positions(items: Seq<ComCall>) -> Seq<usize>
    decreases items.len(),
{
    if items.len() == 0 {
        Seq::empty()
    } else if items.last().succeeded() {
        present_positions(items.drop_last()).push((items.len() - 1) as usize)
    } else {
        present_positions(items.drop_last())
    }
}

/// Playback devices, as positions in their collection: those that could be had,
/// where the system could be asked at all. `init_hr` is the outcome of starting
/// COM, `items` what getting each device returned.
pub fn render_devices(
    init_hr: i32,
    enumerator: ComCall,
    collection: ComCall,
    items: &Vec<ComCall>,
) -> (r: Vec<usize>)
    ensures
        r@ == (if init_hr >= 0 && enumerator.succeeded() && collection.succeeded() {
            present_positions(items@)
        } else {
            Seq::empty()
        }),
{
    let mut out: Vec<usize> = Vec::new();
    if init_hr < 0 || !enumerator.ok() || !collection.ok() {
        return out;
    }
    let mut i: usize = 0;
    while i < items.len()
        invariant
            i <= items@.len(),
            out@ == present_positions(items@.take(i as int)),
        decreases items@.len() - i,
    {
        proof {
            assert(items@.take(i + 1).drop_last() == items@.take(i as int));
            assert(items@.take(i + 1).last() == items@[i as int]);
        }
        if items[i].ok() {
            out.push(i);
        }
        i += 1;
    }
    assert(items@.take(i as int) == items@);
    out
}

/// A device to try: the default one, or one of the collection.
#[derive(Debug, Clone, Copy, PartialEq, Eq, Structural)]
pub enum Candidate {
    Preferred,
    Listed(usize),
}

/// Devices to try, in order: the default one first, where there is one, then
/// each of the collection; none where the collection is empty.
pub open spec fn tried(devices: Seq<usize>, has_default: bool) -> Seq<Candidate> {
    let listed = devices.map_values(|at: usize| Candidate::Listed(at));
    if devices.len() > 0 && has_default {
        seq![Candidate::Preferred] + listed
    } else {
        listed
    }
}

/// Devices to try, in order.
pub fn candidates(devices: &Vec<usize>, has_default: bool) -> (r: Vec<Candidate>)
    ensures
        r@ == tried(devices@, has_default),
{
    let mut out: Vec<Candidate> = Vec::new();
    if devices.len() > 0 && has_default {
        out.push(Candidate::Preferred);
    }
    let ghost head = out@;
    let ghost listed = devices@.map_values(|at: usize| Candidate::Listed(at));
    let mut i: usize = 0;
    assert(out@ == head + listed.take(0));
    while i < devices.len()
        invariant
            i <= devices@.len(),
            listed == devices@.map_values(|at: usize| Candidate::Listed(at)),
            out@ == head + listed.take(i as int),
        decreases devices@.len() - i,
    {
        out.push(Candidate::Listed(devices[i]));
        i += 1;
        assert(head + listed.take(i as int) == (head + listed.take(i - 1)).push(listed[i - 1]));
    }
    assert(listed.take(i as int) == listed);
    assert(out@ == tried(devices@, has_default));
    out
}

/// What opening a device for playing returned: activating its client and, where
/// that succeeded, starting it.
#[derive(Debug, Clone, Copy)]
pub struct OpenAttempt {
    pub client: ComCall,
    pub init_hr: i32,
}

/// Was the device opened?
pub open spec fn opened(attempt: OpenAttempt) -> bool {
    attempt.client.succeeded() && attempt.init_hr >= 0
}

/// Result code with which an attempt failed.
pub open spec fn failure_code(attempt: OpenAttempt) -> i32 {
    if attempt.client.succeeded() {
        attempt.init_hr
    } else {
        attempt.client.hr
    }
}

/// What is said where no device could be opened.
pub open spec fn not_opened(hr: i32) -> Seq<char> {
    "FAKEAUDIO_ERR : Initialize échoué sur tous les périphériques (dernier 0x"@ + text::hex_code(
        hr as u32,
    ) + ")"@
}

fn not_opened_message(hr: i32) -> (r: String)
    ensures
        r@ == not_opened(hr),
{
    let mut out = text::owned(
        "FAKEAUDIO_ERR : Initialize échoué sur tous les périphériques (dernier 0x",
    );
    out.append(text::hex_code_text(hr as u32).as_str());
    out.append(")");
    out
}

/// Outcome of trying devices until one opens; `attempts` are those made.
pub fn open_outcome(attempts: &Vec<OpenAttempt>) -> (r: Result<(), String>)
    ensures
        match r {
            Ok(_) => attempts@.len() > 0 && opened(attempts@.last()),
            Err(message) => if attempts@.len() == 0 {
                message@ == "FAKEAUDIO_ERR : aucun périphérique de rendu actif"@
            } else {
                !opened(attempts@.last()) && message@ == not_opened(
                    failure_code(attempts@.last()),
                )
            },
        },
{
    let n: usize = attempts.len();
    if n == 0 {
        return Err(text::owned("FAKEAUDIO_ERR : aucun périphérique de rendu actif"));
    }
    let last = attempts[n - 1];
    if !last.client.ok() {
        return Err(not_opened_message(last.client.hr));
    }
    if last.init_hr >= 0 {
        Ok(())
    } else {
        Err(not_opened_message(last.init_hr))
    }
}

/// Size of the buffer in frames; a tenth of a second where it is not known.
pub fn buffer_frames(reported: u32) -> (r: u32)
    ensures
        r == (if reported == 0 {
            4410u32
        } else {
            reported
        }),
{
    if reported == 0 {
        4410
    } else {
        reported
    }
}

/// Number of frames that can be written, given how many wait to be played.
pub fn available_frames(buffer: u32, padding: u32) -> (r: u32)
    ensures
        r == (if buffer >= padding {
            buffer - padding
        } else {
            0
        }),
{
    if buffer >= padding {
        buffer - padding
    } else {
        0
    }
}

} // verus!
