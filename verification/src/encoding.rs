//! Text encodings and forms: UTF-8 decoding, UTF-16, Unicode lower case and
//! quotation.

use crate::text;
use vstd::prelude::*;
use vstd::utf8::{decode_utf8, valid_utf8};

use crate::text::ascii_folded;

verus! {

/// The Unicode lower-case form of `text`, as `str::to_lowercase` gives it.
pub uninterp spec fn lowercase(text: Seq<char>) -> Seq<char>;

/// Lower-case form of a text.
///
/// Calls `str::to_lowercase`. The mapping is Unicode's; it is only named here,
/// not written out: the same text always has the same lower-case form. Every
/// character gives one character or more, and in a text of ASCII characters
/// each letter gives its lower-case letter and nothing else changes.
#[verifier::external_body]
pub(crate) fn to_lowercase(text: &str) -> (r: String)
    ensures
        r@ == lowercase(text@),
        r@.len() >= text@.len(),
        is_ascii_text(text@) ==> r@ == ascii_folded(text@),
{
    text.to_lowercase()
}

/// Are all characters of the text ASCII characters?
pub open spec fn is_ascii_text(s: Seq<char>) -> bool {
    forall|i: int| 0 <= i < s.len() ==> #[trigger] (s[i] as u32) < 0x80
}

/// A text in quotation marks, with escapes, as its `Debug` form shows it.
pub uninterp spec fn debug_text(text: Seq<char>) -> Seq<char>;

/// A text in quotation marks, with escapes.
///
/// Calls the `Debug` of `str`. Which characters are escaped is only named: the
/// same text always has the same form.
#[verifier::external_body]
pub(crate) fn quoted(text: &str) -> (r: String)
    ensures
        r@ == debug_text(text@),
{
    format!("{:?}", text)
}

/// Is `unit` the first half of a surrogate pair?
pub open spec fn is_high_surrogate(unit: u16) -> bool {
    0xD800 <= unit <= 0xDBFF
}

/// Is `unit` the second half of a surrogate pair?
pub open spec fn is_low_surrogate(unit: u16) -> bool {
    0xDC00 <= unit <= 0xDFFF
}

/// The text that UTF-16 units stand for; each unpaired surrogate stands for
/// U+FFFD.
pub open spec fn utf16_text(units: Seq<u16>) -> Seq<char>
    decreases units.len(),
{
    if units.len() == 0 {
        Seq::empty()
    } else if !is_high_surrogate(units[0]) && !is_low_surrogate(units[0]) {
        seq![units[0] as char] + utf16_text(units.skip(1))
    } else if is_high_surrogate(units[0]) && units.len() > 1 && is_low_surrogate(units[1]) {
        seq![(0x10000 + (units[0] - 0xD800) * 0x400 + (units[1] - 0xDC00)) as char] + utf16_text(
            units.skip(2),
        )
    } else {
        seq!['\u{FFFD}'] + utf16_text(units.skip(1))
    }
}

/// `String::from_utf16_lossy` decodes UTF-16 and puts U+FFFD in place of every
/// unpaired surrogate.
pub assume_specification[ String::from_utf16_lossy ](units: &[u16]) -> (r: String)
    ensures
        r@ == utf16_text(units@),
;

/// The UTF-16 units of a character: itself, or a surrogate pair.
pub open spec fn char_units(c: char) -> Seq<u16> {
    let u = c as u32;
    if u < 0x10000 {
        seq![u as u16]
    } else {
        seq![
            (0xD800 + (u - 0x10000) / 0x400) as u16,
            (0xDC00 + (u - 0x10000) % 0x400) as u16,
        ]
    }
}

/// The UTF-16 units of a text.
pub open spec fn utf16_units(text: Seq<char>) -> Seq<u16>
    decreases text.len(),
{
    if text.len() == 0 {
        Seq::empty()
    } else {
        char_units(text[0]) + utf16_units(text.skip(1))
    }
}

/// The UTF-16 units of a text.
pub fn units_of(text: &str) -> (r: Vec<u16>)
    ensures
        r@ == utf16_units(text@),
{
    let x = text::chars_of(text);
    let mut units: Vec<u16> = Vec::new();
    let mut i: usize = 0;
    assert(x@.skip(0) == x@);
    while i < x.len()
        invariant
            i <= x@.len(),
            utf16_units(x@) == units@ + utf16_units(x@.skip(i as int)),
        decreases x@.len() - i,
    {
        let ghost before = units@;
        let c: char = x[i];
        let u: u32 = c as u32;
        assert(x@.skip(i as int)[0] == c);
        assert(x@.skip(i as int).skip(1) == x@.skip(i + 1));
        if u < 0x10000 {
            units.push(u as u16);
        } else {
            let beyond: u32 = u - 0x10000;
            units.push((0xD800 + beyond / 0x400) as u16);
            units.push((0xDC00 + beyond % 0x400) as u16);
        }
        assert(units@ =~= before + char_units(c));
        i += 1;
    }
    assert(utf16_units(x@.skip(i as int)) =~= Seq::<u16>::empty());
    assert(units@ + utf16_units(x@.skip(i as int)) =~= units@);
    units
}

proof fn char_reads_back(c: char, rest: Seq<u16>)
    ensures
        utf16_text(char_units(c) + rest) == seq![c] + utf16_text(rest),
{
    let u = c as u32;
    let units = char_units(c) + rest;
    assert(u < 0xD800 || 0xE000 <= u <= 0x10FFFF);
    if u < 0x10000 {
        assert(units[0] == u);
        assert(units.skip(1) =~= rest);
    } else {
        assert(units[0] == 0xD800 + (u - 0x10000) / 0x400);
        assert(units[1] == 0xDC00 + (u - 0x10000) % 0x400);
        assert(units.skip(2) =~= rest);
        assert((units[0] - 0xD800) * 0x400 + (units[1] - 0xDC00) == u - 0x10000);
    }
}

/// Decoding the UTF-16 units of a text gives the text back.
pub proof fn utf16_reads_back(text: Seq<char>)
    ensures
        utf16_text(utf16_units(text)) == text,
    decreases text.len(),
{
    if text.len() > 0 {
        utf16_reads_back(text.skip(1));
        char_reads_back(text[0], utf16_units(text.skip(1)));
        assert(seq![text[0]] + text.skip(1) =~= text);
    }
}

/// The text that bytes which are not valid UTF-8 stand for, as
/// `String::from_utf8_lossy` gives it.
pub uninterp spec fn utf8_lossy(bytes: Seq<u8>) -> Seq<char>;

/// The text that bytes stand for: what they encode where they are valid UTF-8,
/// else what is left once the invalid parts are replaced.
pub open spec fn bytes_text(bytes: Seq<u8>) -> Seq<char> {
    if valid_utf8(bytes) {
        decode_utf8(bytes)
    } else {
        utf8_lossy(bytes)
    }
}

/// The text that bytes stand for, invalid UTF-8 being replaced.
///
/// Calls `String::from_utf8_lossy`. Where the bytes are valid UTF-8 the result
/// is the text that they encode; how invalid bytes are grouped into
/// replacement characters is only named.
#[verifier::external_body]
pub(crate) fn decode_lossy(bytes: &[u8]) -> (r: String)
    ensures
        r@ == (if valid_utf8(bytes@) {
            decode_utf8(bytes@)
        } else {
            utf8_lossy(bytes@)
        }),
{
    String::from_utf8_lossy(bytes).into_owned()
}

/// The text that bytes encode in UTF-8, if they are valid.
///
/// Calls `std::str::from_utf8`, which succeeds on valid UTF-8 only and then
/// gives the text that the bytes encode.
#[verifier::external_body]
pub(crate) fn decode_strict(bytes: &[u8]) -> (r: Option<String>)
    ensures
        r.deep_view() == (if valid_utf8(bytes@) {
            Some(decode_utf8(bytes@))
        } else {
            None
        }),
{
    std::str::from_utf8(bytes).ok().map(String::from)
}

} // verus!
