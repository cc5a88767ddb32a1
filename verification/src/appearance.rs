//! Appearance on Windows 11: the Mica backdrop and the accent colour.

use crate::text;
use vstd::prelude::*;

use crate::text::hex_digits;

verus! {

/// Was the backdrop applied to the window?
#[derive(Debug)]
pub struct BackdropState(pub bool);

/// Type of a registry value that is a 32-bit number.
pub const REG_DWORD: u32 = 4;

/// The number in a registry value: `open_status` is the outcome of opening its
/// key, `query_status` that of reading it, `kind` the type that it has.
pub fn reg_dword(open_status: i32, query_status: i32, kind: u32, value: u32) -> (r: Option<u32>)
    ensures
        r == (if open_status == 0 && query_status == 0 && kind == REG_DWORD {
            Some(value)
        } else {
            None
        }),
{
    if open_status != 0 {
        return None;
    }
    if query_status != 0 || kind != REG_DWORD {
        return None;
    }
    Some(value)
}

/// May the backdrop be applied? It may not in a remote session, nor where the
/// user switched transparency off.
pub fn mica_allowed(remote_session: i32, transparency: Option<u32>) -> (r: bool)
    ensures
        r == (remote_session == 0 && transparency != Some(0u32)),
{
    if remote_session != 0 {
        return false;
    }
    match transparency {
        Some(value) => value != 0,
        None => true,
    }
}

/// Was the backdrop applied? `effect` says whether the effect was set,
/// `background` whether the window was then made transparent.
pub fn mica_applied(allowed: bool, effect: bool, background: bool) -> (r: bool)
    ensures
        r == (allowed && effect && background),
{
    allowed && effect && background
}

/// Is the backdrop on?
pub fn backdrop_enabled(state: &BackdropState) -> (r: bool)
    ensures
        r == state.0,
{
    state.0
}

/// The colour in a registry value as `#rrggbb`: red is its lowest byte, then
/// come green and blue.
pub open spec fn colour_text(value: u32) -> Seq<char> {
    seq!['#'] + hex_digits((value % 256) as nat, 2) + hex_digits(((value / 256) % 256) as nat, 2)
        + hex_digits(((value / 65536) % 256) as nat, 2)
}

/// The accent colour as `#rrggbb`, from the value of the window manager or else
/// from that of the theme.
pub fn system_accent_color(primary: Option<u32>, fallback: Option<u32>) -> (r: Option<String>)
    ensures
        r.deep_view() == (match (primary, fallback) {
            (Some(value), _) => Some(colour_text(value)),
            (None, Some(value)) => Some(colour_text(value)),
            (None, None) => None,
        }),
{
    let value: u32 = match primary {
        Some(value) => value,
        None => match fallback {
            Some(value) => value,
            None => return None,
        },
    };
    let red: u8 = (value % 256) as u8;
    let green: u8 = ((value / 256) % 256) as u8;
    let blue: u8 = ((value / 65536) % 256) as u8;
    let mut out = String::new();
    out.push('#');
    out.append(text::hex_byte(red).as_str());
    out.append(text::hex_byte(green).as_str());
    out.append(text::hex_byte(blue).as_str());
    assert(out@ == colour_text(value));
    Some(out)
}

} // verus!
