//! Texts: letters in either case, order, white space, lines and numbers.

use vstd::prelude::*;

use crate::laws::{both_separate, same_but_case, same_file, same_letter};
use crate::app_routing::profile_apps::same_path;
use crate::text::{
    ascii_folded, ascii_lower, contains, decimal, eq_ascii_fold, first_line_end, is_white, joined,
    lines_of, padded, text_le, trim_end, trim_start, trimmed, unsigned_value, with_char_replaced,
};

verus! {

proof fn letters_fold(a: char, b: char)
    ensures
        ascii_lower(a) == ascii_lower(b) <==> same_letter(a, b),
{
    let x = a as u32;
    let y = b as u32;
    if 0x41 <= x <= 0x5A {
        assert(ascii_lower(a) as u32 == x + 0x20);
    }
    if 0x41 <= y <= 0x5A {
        assert(ascii_lower(b) as u32 == y + 0x20);
    }
}

/// Texts are compared up to the case of ASCII letters, and of nothing else:
/// every character counts, and each must be the other's or its other case.
pub proof fn only_ascii_case_is_overlooked(a: Seq<char>, b: Seq<char>)
    ensures
        eq_ascii_fold(a, b) <==> same_but_case(a, b),
{
    assert(ascii_folded(a).len() == a.len());
    assert(ascii_folded(b).len() == b.len());
    if eq_ascii_fold(a, b) {
        assert forall|i: int| 0 <= i < a.len() implies same_letter(#[trigger] a[i], b[i]) by {
            assert(ascii_folded(a)[i] == ascii_folded(b)[i]);
            letters_fold(a[i], b[i]);
        }
    }
    if same_but_case(a, b) {
        assert forall|i: int| 0 <= i < a.len() implies ascii_folded(a)[i] == ascii_folded(b)[i] by {
            assert(same_letter(a[i], b[i]));
            letters_fold(a[i], b[i]);
        }
        assert(ascii_folded(a) =~= ascii_folded(b));
    }
}

/// Paths are compared up to the case of ASCII letters and the slash that
/// separates their parts, and nothing else.
pub proof fn only_case_and_slashes_are_overlooked(a: Seq<char>, b: Seq<char>)
    ensures
        same_path(a, b) <==> same_file(a, b),
{
    let x = with_char_replaced(a, '/', '\\');
    let y = with_char_replaced(b, '/', '\\');
    only_ascii_case_is_overlooked(x, y);
    if same_path(a, b) {
        assert forall|i: int| 0 <= i < a.len() implies same_letter(#[trigger] a[i], b[i])
            || both_separate(a[i], b[i]) by {
            assert(same_letter(x[i], y[i]));
        }
    }
    if same_file(a, b) {
        assert forall|i: int| 0 <= i < x.len() implies same_letter(#[trigger] x[i], y[i]) by {
            assert(same_letter(a[i], b[i]) || both_separate(a[i], b[i]));
        }
    }
}

/// Texts are in the order of their first different characters; a text comes
/// after what it starts with.
pub proof fn first_difference_decides(a: Seq<char>, b: Seq<char>, i: int)
    requires
        0 <= i <= a.len(),
        i <= b.len(),
        forall|j: int| 0 <= j < i ==> a[j] == b[j],
        i < a.len() && i < b.len() ==> a[i] != b[i],
    ensures
        i == a.len() ==> text_le(a, b),
        i < a.len() && i == b.len() ==> !text_le(a, b),
        i < a.len() && i < b.len() ==> (text_le(a, b) <==> (a[i] as int) < (b[i] as int)),
    decreases i,
{
    if i > 0 {
        assert(a[0] == b[0]);
        assert forall|j: int| 0 <= j < i - 1 implies a.skip(1)[j] == b.skip(1)[j] by {
            assert(a[j + 1] == b[j + 1]);
        }
        first_difference_decides(a.skip(1), b.skip(1), i - 1);
    }
}

proof fn trim_start_drops_white(s: Seq<char>) -> (n: int)
    ensures
        0 <= n <= s.len(),
        trim_start(s) == s.skip(n),
        forall|i: int| 0 <= i < n ==> is_white(#[trigger] s[i]),
        n < s.len() ==> !is_white(s[n]),
    decreases s.len(),
{
    if s.len() > 0 && is_white(s[0]) {
        let n = trim_start_drops_white(s.skip(1));
        assert(s.skip(1).skip(n) == s.skip(n + 1));
        assert forall|i: int| 0 <= i < n + 1 implies is_white(#[trigger] s[i]) by {
            if i > 0 {
                assert(s.skip(1)[i - 1] == s[i]);
            }
        }
        n + 1
    } else {
        assert(s.skip(0) == s);
        0
    }
}

proof fn trim_end_drops_white(s: Seq<char>) -> (n: int)
    ensures
        0 <= n <= s.len(),
        trim_end(s) == s.take(n),
        forall|i: int| n <= i < s.len() ==> is_white(#[trigger] s[i]),
        n > 0 ==> !is_white(s[n - 1]),
    decreases s.len(),
{
    if s.len() > 0 && is_white(s.last()) {
        let n = trim_end_drops_white(s.drop_last());
        assert(s.drop_last().take(n) == s.take(n));
        assert forall|i: int| n <= i < s.len() implies is_white(#[trigger] s[i]) by {
            if i < s.len() - 1 {
                assert(s.drop_last()[i] == s[i]);
            }
        }
        n
    } else {
        assert(s.take(s.len() as int) == s);
        s.len() as int
    }
}

/// Trimming takes white space off both ends of a text and nothing else: what is
/// left is a stretch of the text, and all that was taken is white space.
pub proof fn trimming_takes_white_space_only(s: Seq<char>)
    ensures
        exists|from: int, to: int|
            0 <= from <= to <= s.len() && trimmed(s) == #[trigger] s.subrange(from, to) && (forall|
                i: int,
            |
                0 <= i < from || to <= i < s.len() ==> is_white(#[trigger] s[i])) && (from < to
                ==> !is_white(s[from]) && !is_white(s[to - 1])),
{
    let n = trim_start_drops_white(s);
    let m = trim_end_drops_white(s.skip(n));
    assert(s.skip(n).take(m) == s.subrange(n, n + m));
    assert forall|i: int| 0 <= i < n || n + m <= i < s.len() implies is_white(#[trigger] s[i]) by {
        if i >= n + m {
            assert(s.skip(n)[i - n] == s[i]);
        }
    }
    if m > 0 {
        assert(s.skip(n)[m - 1] == s[n + m - 1]);
    }
}

/// Spaces, tabs and the ends of lines are white space; letters, digits and the
/// other visible characters of ASCII are not.
pub proof fn visible_characters_are_not_white(c: char)
    ensures
        c == ' ' || c == '\t' || c == '\n' || c == '\r' || c == '\u{a0}' ==> is_white(c),
        '!' <= c <= '~' ==> !is_white(c),
{
}

proof fn line_ends_at_break(s: Seq<char>)
    ensures
        first_line_end(s) <= s.len(),
        forall|i: int| 0 <= i < first_line_end(s) ==> #[trigger] s[i] != '\n',
        first_line_end(s) < s.len() ==> s[first_line_end(s) as int] == '\n',
    decreases s.len(),
{
    if s.len() > 0 && s[0] != '\n' {
        line_ends_at_break(s.skip(1));
        assert forall|i: int| 0 <= i < first_line_end(s) implies #[trigger] s[i] != '\n' by {
            if i > 0 {
                assert(s.skip(1)[i - 1] == s[i]);
            }
        }
    }
}

/// Putting a line without breaks and a break in front of a text puts one line
/// in front of its lines.
pub proof fn a_break_ends_a_line(line: Seq<char>, rest: Seq<char>)
    requires
        forall|i: int| 0 <= i < line.len() ==> #[trigger] line[i] != '\n',
    ensures
        lines_of(line + seq!['\n'] + rest) == seq![line] + lines_of(rest),
        line.len() > 0 ==> lines_of(line) == seq![line],
{
    let whole = line + seq!['\n'] + rest;
    line_ends_at_break(whole);
    line_ends_at_break(line);
    let end = first_line_end(whole) as int;
    assert(whole[line.len() as int] == '\n');
    if end < line.len() {
        assert(whole[end] == line[end]);
    }
    assert(end == line.len());
    assert(whole.take(end) == line);
    assert(whole.skip(end + 1) == rest);
    if line.len() > 0 && first_line_end(line) < line.len() {
        assert(line[first_line_end(line) as int] != '\n');
    }
}

proof fn digits_are_digits(c: char)
    ensures
        crate::text::is_digit(c) <==> '0' <= c <= '9',
{
}

/// A text that holds anything but decimal digits, and a plus sign in front, is
/// no number.
pub proof fn only_digits_are_a_number(s: Seq<char>, i: int)
    requires
        0 <= i < s.len(),
        !('0' <= s[i] <= '9'),
        i > 0 || s[i] != '+',
    ensures
        unsigned_value(s) is None,
{
    let body = if s[0] == '+' {
        s.skip(1)
    } else {
        s
    };
    let k = if s[0] == '+' {
        i - 1
    } else {
        i
    };
    assert(body[k] == s[i]);
    digits_are_digits(body[k]);
}

/// A longer decimal number is the shorter one with a digit behind it.
pub proof fn decimal_digits(n: nat, d: nat)
    requires
        d < 10,
        n > 0,
    ensures
        decimal(10 * n + d) == decimal(n).push((0x30 + d) as char),
        decimal(d) == seq![(0x30 + d) as char],
{
    assert((10 * n + d) / 10 == n) by (nonlinear_arith)
        requires
            d < 10,
    ;
    assert((10 * n + d) % 10 == d) by (nonlinear_arith)
        requires
            d < 10,
    ;
}

/// A padded text is the text and then spaces, as many as are wanting to the
/// width; nothing is ever cut.
pub proof fn padding_adds_spaces_only(s: Seq<char>, width: nat)
    ensures
        padded(s, width).len() == (if s.len() >= width {
            s.len()
        } else {
            width
        }),
        padded(s, width).take(s.len() as int) == s,
        forall|i: int| s.len() <= i < padded(s, width).len() ==> #[trigger] padded(s, width)[i] == ' ',
{
}

/// Joining one piece more puts the separator and the piece behind.
pub proof fn joining_puts_separators_between(
    pieces: Seq<Seq<char>>,
    piece: Seq<char>,
    separator: Seq<char>,
)
    ensures
        joined(Seq::empty(), separator) == Seq::<char>::empty(),
        joined(seq![piece], separator) == piece,
        pieces.len() > 0 ==> joined(pieces.push(piece), separator) == joined(pieces, separator)
            + separator + piece,
{
    assert(pieces.push(piece).drop_last() == pieces);
}

/// A text holds a part exactly where it is something, the part and something.
pub proof fn parts_stand_inside(before: Seq<char>, part: Seq<char>, after: Seq<char>)
    ensures
        contains(before + part + after, part),
        forall|s: Seq<char>| #[trigger]
            contains(s, part) ==> exists|a: Seq<char>, b: Seq<char>| s == #[trigger] (a + part + b),
{
    let whole = before + part + after;
    let at = before.len() as int;
    assert(whole.subrange(at, at + part.len()) == part);
    assert(crate::text::occurs_at(whole, part, at));
    assert forall|s: Seq<char>| #[trigger] contains(s, part) implies exists|
        a: Seq<char>,
        b: Seq<char>,
    | s == #[trigger] (a + part + b) by {
        let at = choose|at: int| crate::text::occurs_at(s, part, at);
        let a = s.take(at);
        let b = s.skip(at + part.len());
        assert(s == a + part + b);
    }
}

} // verus!
