//! Text primitives: comparison, trimming, searching and number formatting
//! over sequences of characters.

use vstd::prelude::*;

verus! {

// ---------------------------------------------------------------------------
// Characters
// ---------------------------------------------------------------------------

/// Is `c` one of the twenty-six capital letters `A` to `Z`?
pub open spec fn is_ascii_capital(c: char) -> bool {
    0x41 <= c as u32 <= 0x5A
}

/// `c` with the letters `A` to `Z` turned into `a` to `z`, anything else kept.
pub open spec fn ascii_lower(c: char) -> char {
    if is_ascii_capital(c) {
        ((c as u32) + 0x20) as char
    } else {
        c
    }
}

/// Is `c` a decimal digit `0` to `9`?
pub open spec fn is_digit(c: char) -> bool {
    0x30 <= c as u32 <= 0x39
}

/// Does `c` have the Unicode property `White_Space`?
pub open spec fn is_white(c: char) -> bool {
    let u = c as u32;
    ||| 0x09 <= u <= 0x0D
    ||| u == 0x20
    ||| u == 0x85
    ||| u == 0xA0
    ||| u == 0x1680
    ||| 0x2000 <= u <= 0x200A
    ||| u == 0x2028
    ||| u == 0x2029
    ||| u == 0x202F
    ||| u == 0x205F
    ||| u == 0x3000
}

/// Lower-case form of an ASCII letter; other characters are returned as they are.
pub fn lower_ascii_char(c: char) -> (r: char)
    ensures
        r == ascii_lower(c),
{
    let u: u32 = c as u32;
    if 0x41 <= u && u <= 0x5A {
        (u as u8 + 0x20) as char
    } else {
        c
    }
}

/// Is the character white space in the Unicode sense?
pub fn char_is_white(c: char) -> (r: bool)
    ensures
        r == is_white(c),
{
    let u: u32 = c as u32;
    (0x09 <= u && u <= 0x0D) || u == 0x20 || u == 0x85 || u == 0xA0 || u == 0x1680 || (0x2000 <= u
        && u <= 0x200A) || u == 0x2028 || u == 0x2029 || u == 0x202F || u == 0x205F || u == 0x3000
}

// ---------------------------------------------------------------------------
// Building and taking apart
// ---------------------------------------------------------------------------

/// `String::push` appends one character.
pub assume_specification[ String::push ](s: &mut String, c: char)
    ensures
        final(s)@ == old(s)@.push(c),
;

/// The characters of a text, in order.
pub fn chars_of(text: &str) -> (r: Vec<char>)
    ensures
        r@ == text@,
{
    let mut out: Vec<char> = Vec::new();
    for c in it: text.chars()
        invariant
            out@ == it.seq().take(it.index()),
            it.seq() == text@,
    {
        out.push(c);
        assert(it.seq().take(it.index() + 1) == it.seq().take(it.index()).push(c));
    }
    assert(text@.take(text@.len() as int) == text@);
    out
}

/// The text made of the given characters.
pub fn text_of(chars: &[char]) -> (r: String)
    ensures
        r@ == chars@,
{
    let mut out = String::new();
    let mut i: usize = 0;
    while i < chars.len()
        invariant
            i <= chars@.len(),
            out@ == chars@.take(i as int),
        decreases chars@.len() - i,
    {
        out.push(chars[i]);
        i += 1;
        assert(chars@.take(i as int) == chars@.take(i - 1).push(chars@[i - 1]));
    }
    assert(chars@.take(chars@.len() as int) == chars@);
    out
}

/// An owned copy of a text.
pub fn owned(text: &str) -> (r: String)
    ensures
        r@ == text@,
{
    String::from_str(text)
}

// ---------------------------------------------------------------------------
// Equality and order
// ---------------------------------------------------------------------------

/// Are the two texts the same?
pub fn same(a: &str, b: &str) -> (r: bool)
    ensures
        r == (a@ == b@),
{
    let x = chars_of(a);
    let y = chars_of(b);
    if x.len() != y.len() {
        return false;
    }
    let mut i: usize = 0;
    while i < x.len()
        invariant
            i <= x@.len(),
            x@.len() == y@.len(),
            x@ == a@,
            y@ == b@,
            x@.take(i as int) == y@.take(i as int),
        decreases x@.len() - i,
    {
        if x[i] != y[i] {
            return false;
        }
        i += 1;
        assert(x@.take(i as int) == x@.take(i - 1).push(x@[i - 1]));
        assert(y@.take(i as int) == y@.take(i - 1).push(y@[i - 1]));
    }
    assert(x@.take(x@.len() as int) == x@);
    assert(y@.take(y@.len() as int) == y@);
    true
}

/// `s` with every ASCII letter in lower case.
pub open spec fn ascii_folded(s: Seq<char>) -> Seq<char> {
    Seq::new(s.len(), |i: int| ascii_lower(s[i]))
}

/// Are the two texts the same up to the case of ASCII letters?
pub open spec fn eq_ascii_fold(a: Seq<char>, b: Seq<char>) -> bool {
    ascii_folded(a) == ascii_folded(b)
}

/// Are the two texts the same up to the case of ASCII letters?
pub fn same_ignoring_ascii_case(a: &str, b: &str) -> (r: bool)
    ensures
        r == eq_ascii_fold(a@, b@),
{
    let x = chars_of(a);
    let y = chars_of(b);
    proof {
        assert(ascii_folded(a@).len() == a@.len());
        assert(ascii_folded(b@).len() == b@.len());
    }
    if x.len() != y.len() {
        return false;
    }
    let mut i: usize = 0;
    while i < x.len()
        invariant
            i <= x@.len(),
            x@.len() == y@.len(),
            x@ == a@,
            y@ == b@,
            forall|j: int| 0 <= j < i ==> ascii_lower(#[trigger] x@[j]) == ascii_lower(y@[j]),
        decreases x@.len() - i,
    {
        if lower_ascii_char(x[i]) != lower_ascii_char(y[i]) {
            proof {
                assert(ascii_folded(a@)[i as int] != ascii_folded(b@)[i as int]);
            }
            return false;
        }
        i += 1;
    }
    assert(ascii_folded(a@) =~= ascii_folded(b@));
    true
}

/// Order of texts: by the first character in which they differ, a text before
/// every longer text that it starts.
pub open spec fn text_le(a: Seq<char>, b: Seq<char>) -> bool
    decreases a.len(),
{
    if a.len() == 0 {
        true
    } else if b.len() == 0 {
        false
    } else if a[0] != b[0] {
        (a[0] as int) < (b[0] as int)
    } else {
        text_le(a.skip(1), b.skip(1))
    }
}

/// The order of texts is total.
pub proof fn text_le_total(a: Seq<char>, b: Seq<char>)
    ensures
        text_le(a, b) || text_le(b, a),
    decreases a.len(),
{
    if a.len() > 0 && b.len() > 0 && a[0] == b[0] {
        text_le_total(a.skip(1), b.skip(1));
    }
}

/// The order of texts is transitive.
pub proof fn text_le_transitive(a: Seq<char>, b: Seq<char>, c: Seq<char>)
    requires
        text_le(a, b),
        text_le(b, c),
    ensures
        text_le(a, c),
    decreases a.len(),
{
    if a.len() > 0 && b.len() > 0 && c.len() > 0 && a[0] == b[0] && b[0] == c[0] {
        text_le_transitive(a.skip(1), b.skip(1), c.skip(1));
    }
}

/// Two texts that are each before the other are the same text.
pub proof fn text_le_antisymmetric(a: Seq<char>, b: Seq<char>)
    requires
        text_le(a, b),
        text_le(b, a),
    ensures
        a == b,
    decreases a.len(),
{
    if a.len() > 0 && b.len() > 0 {
        text_le_antisymmetric(a.skip(1), b.skip(1));
        assert(a == seq![a[0]] + a.skip(1));
        assert(b == seq![b[0]] + b.skip(1));
    } else {
        assert(a == b);
    }
}

/// Does the first text come before the second, or are they the same?
pub fn at_most(a: &str, b: &str) -> (r: bool)
    ensures
        r == text_le(a@, b@),
{
    let x = chars_of(a);
    let y = chars_of(b);
    let mut i: usize = 0;
    assert(a@.skip(0) == a@);
    assert(b@.skip(0) == b@);
    while i < x.len()
        invariant
            i <= x@.len(),
            i <= y@.len(),
            x@ == a@,
            y@ == b@,
            text_le(a@, b@) == text_le(a@.skip(i as int), b@.skip(i as int)),
        decreases x@.len() - i,
    {
        if i >= y.len() {
            return false;
        }
        if x[i] != y[i] {
            let u: char = x[i];
            let v: char = y[i];
            return u < v;
        }
        proof {
            assert(a@.skip(i as int).skip(1) == a@.skip(i + 1));
            assert(b@.skip(i as int).skip(1) == b@.skip(i + 1));
        }
        i += 1;
    }
    true
}

// ---------------------------------------------------------------------------
// Ends of a text
// ---------------------------------------------------------------------------

/// `s` without its leading white space.
pub open spec fn trim_start(s: Seq<char>) -> Seq<char>
    decreases s.len(),
{
    if s.len() > 0 && is_white(s[0]) {
        trim_start(s.skip(1))
    } else {
        s
    }
}

/// `s` without its trailing white space.
pub open spec fn trim_end(s: Seq<char>) -> Seq<char>
    decreases s.len(),
{
    if s.len() > 0 && is_white(s.last()) {
        trim_end(s.drop_last())
    } else {
        s
    }
}

/// `s` without the white space at both ends.
pub open spec fn trimmed(s: Seq<char>) -> Seq<char> {
    trim_end(trim_start(s))
}

/// What is left after trimming has no white space at its ends.
pub proof fn trimmed_has_bare_ends(s: Seq<char>)
    ensures
        trimmed(s).len() > 0 ==> !is_white(trimmed(s)[0]) && !is_white(trimmed(s).last()),
{
    trim_start_starts_bare(s);
    trim_end_keeps_start(trim_start(s));
}

proof fn trim_start_starts_bare(s: Seq<char>)
    ensures
        trim_start(s).len() > 0 ==> !is_white(trim_start(s)[0]),
    decreases s.len(),
{
    if s.len() > 0 && is_white(s[0]) {
        trim_start_starts_bare(s.skip(1));
    }
}

proof fn trim_end_keeps_start(s: Seq<char>)
    ensures
        trim_end(s).len() <= s.len(),
        trim_end(s).len() > 0 ==> trim_end(s)[0] == s[0] && !is_white(trim_end(s).last()),
    decreases s.len(),
{
    if s.len() > 0 && is_white(s.last()) {
        trim_end_keeps_start(s.drop_last());
    }
}

/// Trimming a trimmed text changes nothing.
pub proof fn trimming_twice_is_trimming_once(s: Seq<char>)
    ensures
        trimmed(trimmed(s)) == trimmed(s),
{
    trimmed_has_bare_ends(s);
}

/// The text without the white space at both ends.
pub fn trim<'a>(text: &'a str) -> (r: &'a str)
    ensures
        r@ == trimmed(text@),
{
    let x = chars_of(text);
    let mut start: usize = 0;
    assert(x@.skip(0) == x@);
    while start < x.len() && char_is_white(x[start])
        invariant
            start <= x@.len(),
            trim_start(x@) == trim_start(x@.skip(start as int)),
        decreases x@.len() - start,
    {
        assert(x@.skip(start as int).skip(1) == x@.skip(start + 1));
        start += 1;
    }
    let ghost rest = x@.skip(start as int);
    assert(trim_start(x@) == rest);
    let mut end: usize = x.len();
    assert(rest == x@.subrange(start as int, end as int));
    while end > start && char_is_white(x[end - 1])
        invariant
            start <= end <= x@.len(),
            trim_end(rest) == trim_end(x@.subrange(start as int, end as int)),
        decreases end,
    {
        assert(x@.subrange(start as int, end as int).drop_last() == x@.subrange(
            start as int,
            end - 1,
        ));
        end -= 1;
    }
    text.substring_char(start, end)
}

/// The text after `prefix`, if it starts with it.
pub open spec fn after_prefix(s: Seq<char>, prefix: Seq<char>) -> Option<Seq<char>> {
    if prefix.is_prefix_of(s) {
        Some(s.skip(prefix.len() as int))
    } else {
        None
    }
}

/// The text before `suffix`, if it ends with it.
pub open spec fn before_suffix(s: Seq<char>, suffix: Seq<char>) -> Option<Seq<char>> {
    if suffix.is_suffix_of(s) {
        Some(s.take(s.len() - suffix.len()))
    } else {
        None
    }
}

/// The text after `prefix`, if it starts with it.
pub fn strip_prefix<'a>(text: &'a str, prefix: &str) -> (r: Option<&'a str>)
    ensures
        r.deep_view() == after_prefix(text@, prefix@),
{
    let n: usize = text.unicode_len();
    let k: usize = prefix.unicode_len();
    if k > n {
        return None;
    }
    let head = text.substring_char(0, k);
    if same(head, prefix) {
        assert(prefix@ == text@.subrange(0, prefix@.len() as int));
        assert(text@.subrange(k as int, n as int) == text@.skip(k as int));
        Some(text.substring_char(k, n))
    } else {
        None
    }
}

/// The text before `suffix`, if it ends with it.
pub fn strip_suffix<'a>(text: &'a str, suffix: &str) -> (r: Option<&'a str>)
    ensures
        r.deep_view() == before_suffix(text@, suffix@),
{
    let n: usize = text.unicode_len();
    let k: usize = suffix.unicode_len();
    if k > n {
        return None;
    }
    let tail = text.substring_char(n - k, n);
    if same(tail, suffix) {
        assert(suffix@ == text@.subrange(text@.len() - suffix@.len(), text@.len() as int));
        assert(text@.subrange(0, n - k) == text@.take(n - k));
        Some(text.substring_char(0, n - k))
    } else {
        None
    }
}

// ---------------------------------------------------------------------------
// Searching
// ---------------------------------------------------------------------------

/// Does `needle` stand in `s` at position `at`?
pub open spec fn occurs_at(s: Seq<char>, needle: Seq<char>, at: int) -> bool {
    0 <= at <= s.len() - needle.len() && s.subrange(at, at + needle.len()) == needle
}

/// Does `needle` stand anywhere in `s`?
pub open spec fn contains(s: Seq<char>, needle: Seq<char>) -> bool {
    exists|at: int| occurs_at(s, needle, at)
}

/// Is `r` the last position at which `needle` stands in `s`?
pub open spec fn is_last_occurrence(s: Seq<char>, needle: Seq<char>, r: Option<usize>) -> bool {
    match r {
        Some(at) => occurs_at(s, needle, at as int) && forall|later: int|
            later > at ==> !occurs_at(s, needle, later),
        None => !contains(s, needle),
    }
}

/// Last position at which `needle` stands in `s`.
pub open spec fn last_occurrence(s: Seq<char>, needle: Seq<char>) -> Option<int>
    decreases s.len(),
{
    if s.len() < needle.len() {
        None
    } else if needle.is_suffix_of(s) {
        Some(s.len() - needle.len())
    } else if s.len() == 0 {
        None
    } else {
        last_occurrence(s.drop_last(), needle)
    }
}

/// The last position at which `needle` stands in `s` is the one after which it
/// stands no more.
pub proof fn last_occurrence_is_last(s: Seq<char>, needle: Seq<char>, r: Option<usize>)
    requires
        is_last_occurrence(s, needle, r),
    ensures
        last_occurrence(s, needle) == (match r {
            Some(at) => Some(at as int),
            None => None,
        }),
    decreases s.len(),
{
    if s.len() >= needle.len() {
        let end = s.len() - needle.len();
        if needle.is_suffix_of(s) {
            assert(occurs_at(s, needle, end));
        } else {
            assert(!occurs_at(s, needle, end));
            if s.len() > 0 {
                let init = s.drop_last();
                assert forall|at: int| occurs_at(init, needle, at) == occurs_at(s, needle, at) by {
                    if 0 <= at <= init.len() - needle.len() {
                        assert(init.subrange(at, at + needle.len()) == s.subrange(
                            at,
                            at + needle.len(),
                        ));
                    }
                }
                if r is None {
                    assert(!contains(init, needle));
                }
                last_occurrence_is_last(init, needle, r);
            } else {
                assert(s.subrange(0, 0) == needle);
            }
        }
    } else {
        if let Some(at) = r {
            assert(occurs_at(s, needle, at as int));
        }
    }
}

/// Last position, counted in characters, at which `needle` stands in `text`.
pub fn last_position(text: &str, needle: &str) -> (r: Option<usize>)
    ensures
        is_last_occurrence(text@, needle@, r),
{
    let n: usize = text.unicode_len();
    let k: usize = needle.unicode_len();
    if k > n {
        return None;
    }
    let mut at: usize = n - k;
    loop
        invariant
            n == text@.len(),
            k == needle@.len(),
            at + k <= n,
            forall|later: int| later > at ==> !occurs_at(text@, needle@, later),
        decreases at,
    {
        let part = text.substring_char(at, at + k);
        if same(part, needle) {
            assert(occurs_at(text@, needle@, at as int));
            return Some(at);
        }
        assert(!occurs_at(text@, needle@, at as int));
        if at == 0 {
            return None;
        }
        at -= 1;
    }
}

/// Does `needle` stand anywhere in `text`?
pub fn holds(text: &str, needle: &str) -> (r: bool)
    ensures
        r == contains(text@, needle@),
{
    match last_position(text, needle) {
        Some(at) => {
            assert(occurs_at(text@, needle@, at as int));
            true
        },
        None => false,
    }
}

/// `s` with every `from` replaced by `to`.
pub open spec fn with_char_replaced(s: Seq<char>, from: char, to: char) -> Seq<char> {
    Seq::new(
        s.len(),
        |i: int|
            if s[i] == from {
                to
            } else {
                s[i]
            },
    )
}

/// The text with every `from` replaced by `to`.
pub fn replace_char(text: &str, from: char, to: char) -> (r: String)
    ensures
        r@ == with_char_replaced(text@, from, to),
{
    let x = chars_of(text);
    let mut out = String::new();
    let mut i: usize = 0;
    while i < x.len()
        invariant
            i <= x@.len(),
            x@ == text@,
            out@ == with_char_replaced(text@, from, to).take(i as int),
        decreases x@.len() - i,
    {
        let c: char = x[i];
        out.push(
            if c == from {
                to
            } else {
                c
            },
        );
        i += 1;
        assert(with_char_replaced(text@, from, to).take(i as int) == with_char_replaced(
            text@,
            from,
            to,
        ).take(i - 1).push(with_char_replaced(text@, from, to)[i - 1]));
    }
    assert(with_char_replaced(text@, from, to).take(text@.len() as int) == with_char_replaced(
        text@,
        from,
        to,
    ));
    out
}

/// The lines of `s`: the pieces between line feeds, without an empty piece
/// after a final line feed.
pub open spec fn lines_of(s: Seq<char>) -> Seq<Seq<char>>
    decreases s.len(),
{
    if s.len() == 0 {
        Seq::empty()
    } else {
        let end = first_line_end(s);
        if end < s.len() {
            seq![s.take(end as int)] + lines_of(s.skip(end as int + 1))
        } else {
            seq![s]
        }
    }
}

/// Number of characters before the first line feed of `s` (all of them when
/// there is none).
pub open spec fn first_line_end(s: Seq<char>) -> nat
    decreases s.len(),
{
    if s.len() == 0 || s[0] == '\n' {
        0
    } else {
        1 + first_line_end(s.skip(1))
    }
}

proof fn first_line_end_stops(s: Seq<char>, n: nat)
    requires
        n <= s.len(),
        forall|j: int| 0 <= j < n ==> s[j] != '\n',
        n < s.len() ==> s[n as int] == '\n',
    ensures
        first_line_end(s) == n,
    decreases s.len(),
{
    if s.len() > 0 && s[0] != '\n' {
        assert forall|j: int| 0 <= j < n - 1 implies s.skip(1)[j] != '\n' by {
            assert(s.skip(1)[j] == s[j + 1]);
        }
        first_line_end_stops(s.skip(1), (n - 1) as nat);
    }
}

/// The lines of a text, without their line feeds.
pub fn lines(text: &str) -> (r: Vec<String>)
    ensures
        r.deep_view() == lines_of(text@),
{
    let x = chars_of(text);
    let mut out: Vec<String> = Vec::new();
    let mut start: usize = 0;
    assert(x@.skip(0) == x@);
    assert(out.deep_view() =~= Seq::<Seq<char>>::empty());
    while start < x.len()
        invariant
            start <= x@.len(),
            x@ == text@,
            lines_of(text@) == out.deep_view() + lines_of(x@.skip(start as int)),
        decreases x@.len() - start,
    {
        let mut end: usize = start;
        while end < x.len() && x[end] != '\n'
            invariant
                start <= end <= x@.len(),
                forall|j: int| start <= j < end ==> x@[j] != '\n',
            decreases x@.len() - end,
        {
            end += 1;
        }
        let ghost rest = x@.skip(start as int);
        let ghost before = out.deep_view();
        proof {
            first_line_end_stops(rest, (end - start) as nat);
        }
        out.push(text_of(slice_range(&x, start, end)));
        assert(out.deep_view() =~= before.push(x@.subrange(start as int, end as int)));
        if end < x.len() {
            proof {
                assert(rest.take(end - start) == x@.subrange(start as int, end as int));
                assert(rest.skip(end - start + 1) == x@.skip(end + 1));
                assert(before + (seq![rest.take(end - start)] + lines_of(x@.skip(end + 1)))
                    == before.push(rest.take(end - start)) + lines_of(x@.skip(end + 1)));
            }
            start = end + 1;
        } else {
            proof {
                assert(rest == x@.subrange(start as int, end as int));
                assert(x@.skip(end as int) == Seq::<char>::empty());
                assert(before + seq![rest] == before.push(rest) + Seq::<Seq<char>>::empty());
            }
            start = end;
        }
    }
    assert(x@.skip(start as int) == Seq::<char>::empty());
    assert(out.deep_view() + Seq::<Seq<char>>::empty() == out.deep_view());
    out
}

fn slice_range<T>(items: &Vec<T>, start: usize, end: usize) -> (r: &[T])
    requires
        start <= end <= items@.len(),
    ensures
        r@ == items@.subrange(start as int, end as int),
{
    vstd::slice::slice_subrange(items.as_slice(), start, end)
}

// ---------------------------------------------------------------------------
// Numbers
// ---------------------------------------------------------------------------

/// The digit that stands for `d`, in lower case from ten up.
pub open spec fn digit_char(d: nat) -> char {
    if d < 10 {
        (0x30 + d) as char
    } else {
        (0x57 + d) as char
    }
}

/// `n` in decimal notation, without leading zeros.
pub open spec fn decimal(n: nat) -> Seq<char>
    decreases n,
{
    if n < 10 {
        seq![digit_char(n)]
    } else {
        decimal(n / 10).push(digit_char(n % 10))
    }
}

/// `n` in decimal notation, with a minus sign in front where it is negative.
pub open spec fn signed_decimal(n: int) -> Seq<char> {
    if n < 0 {
        seq!['-'] + decimal((-n) as nat)
    } else {
        decimal(n as nat)
    }
}

/// The last `width` hexadecimal digits of `n`, in lower case.
pub open spec fn hex_digits(n: nat, width: nat) -> Seq<char>
    decreases width,
{
    if width == 0 {
        Seq::empty()
    } else {
        hex_digits(n / 16, (width - 1) as nat).push(digit_char(n % 16))
    }
}

/// `c` in capitals where it is one of the letters `a` to `z`.
pub open spec fn ascii_upper(c: char) -> char {
    if 0x61 <= c as u32 <= 0x7A {
        ((c as u32) - 0x20) as char
    } else {
        c
    }
}

/// Eight capital hexadecimal digits, as in `0x80070490`.
pub open spec fn hex_code(n: u32) -> Seq<char> {
    let low = hex_digits(n as nat, 8);
    Seq::new(low.len(), |i: int| ascii_upper(low[i]))
}

/// The number that a sequence of decimal digits stands for.
pub open spec fn digits_value(s: Seq<char>) -> nat
    decreases s.len(),
{
    if s.len() == 0 {
        0
    } else {
        10 * digits_value(s.drop_last()) + (s.last() as u32 - 0x30) as nat
    }
}

/// Are all the characters decimal digits?
pub open spec fn all_digits(s: Seq<char>) -> bool {
    forall|i: int| 0 <= i < s.len() ==> is_digit(#[trigger] s[i])
}

/// The number written in `s`: decimal digits, with a plus sign allowed in
/// front, as long as the value fits in 32 bits.
pub open spec fn unsigned_value(s: Seq<char>) -> Option<u32> {
    let body = if s.len() > 0 && s[0] == '+' {
        s.skip(1)
    } else {
        s
    };
    if body.len() > 0 && all_digits(body) && digits_value(body) <= u32::MAX {
        Some(digits_value(body) as u32)
    } else {
        None
    }
}

fn digit(d: u64) -> (r: char)
    requires
        d < 16,
    ensures
        r == digit_char(d as nat),
{
    let b: u8 = d as u8;
    if b < 10 {
        (0x30 + b) as char
    } else {
        (0x57 + b) as char
    }
}

/// `n` in decimal notation.
pub fn decimal_text(n: u64) -> (r: String)
    ensures
        r@ == decimal(n as nat),
    decreases n,
{
    if n < 10 {
        let mut out = String::new();
        out.push(digit(n));
        assert(out@ == seq![digit_char(n as nat)]);
        out
    } else {
        let mut out = decimal_text(n / 10);
        out.push(digit(n % 10));
        out
    }
}

/// `n` in decimal notation, with its sign.
pub fn signed_text(n: i32) -> (r: String)
    ensures
        r@ == signed_decimal(n as int),
{
    if n < 0 {
        let wide: i64 = n as i64;
        let mut out = String::new();
        out.push('-');
        out.append(decimal_text((-wide) as u64).as_str());
        assert(out@ == seq!['-'] + decimal((-n) as nat));
        out
    } else {
        decimal_text(n as u64)
    }
}

fn hex_text(n: u64, width: usize) -> (r: String)
    ensures
        r@ == hex_digits(n as nat, width as nat),
    decreases width,
{
    if width == 0 {
        String::new()
    } else {
        let mut out = hex_text(n / 16, width - 1);
        out.push(digit(n % 16));
        out
    }
}

/// Two lower-case hexadecimal digits.
pub fn hex_byte(n: u8) -> (r: String)
    ensures
        r@ == hex_digits(n as nat, 2),
{
    hex_text(n as u64, 2)
}

/// Eight capital hexadecimal digits.
pub fn hex_code_text(n: u32) -> (r: String)
    ensures
        r@ == hex_code(n),
{
    let low = hex_text(n as u64, 8);
    let x = chars_of(low.as_str());
    let mut out = String::new();
    let mut i: usize = 0;
    while i < x.len()
        invariant
            i <= x@.len(),
            x@ == hex_digits(n as nat, 8),
            out@ == hex_code(n).take(i as int),
        decreases x@.len() - i,
    {
        let c: char = x[i];
        let u: u32 = c as u32;
        out.push(
            if 0x61 <= u && u <= 0x7A {
                (u as u8 - 0x20) as char
            } else {
                c
            },
        );
        i += 1;
        assert(hex_code(n).take(i as int) == hex_code(n).take(i - 1).push(hex_code(n)[i - 1]));
    }
    assert(hex_code(n).take(x@.len() as int) == hex_code(n));
    out
}

proof fn digits_value_grows(s: Seq<char>, n: int)
    requires
        0 <= n <= s.len(),
        all_digits(s),
    ensures
        digits_value(s.take(n)) <= digits_value(s),
    decreases s.len(),
{
    if n < s.len() {
        assert(s.take(n) == s.drop_last().take(n));
        assert(is_digit(s.last()));
        assert(all_digits(s.drop_last())) by {
            assert forall|i: int| 0 <= i < s.drop_last().len() implies is_digit(
                #[trigger] s.drop_last()[i],
            ) by {
                assert(s.drop_last()[i] == s[i]);
            }
        }
        digits_value_grows(s.drop_last(), n);
    } else {
        assert(s.take(n) == s);
    }
}

/// The number written in `text`, if it is one that fits in 32 bits.
pub fn parse_unsigned(text: &str) -> (r: Option<u32>)
    ensures
        r == unsigned_value(text@),
{
    let x = chars_of(text);
    let start: usize = if x.len() > 0 && x[0] == '+' {
        1
    } else {
        0
    };
    let ghost body = x@.skip(start as int);
    proof {
        assert(x@.skip(0) == x@);
    }
    if start == x.len() {
        return None;
    }
    let mut value: u64 = 0;
    let mut i: usize = start;
    while i < x.len()
        invariant
            start <= i <= x@.len(),
            start < x@.len(),
            body == x@.skip(start as int),
            value <= u32::MAX,
            value == digits_value(body.take(i - start)),
            forall|j: int| 0 <= j < i - start ==> is_digit(#[trigger] body[j]),
            unsigned_value(text@) == (if all_digits(body) && digits_value(body) <= u32::MAX {
                Some(digits_value(body) as u32)
            } else {
                None::<u32>
            }),
        decreases x@.len() - i,
    {
        let u: u32 = x[i] as u32;
        assert(body[i - start] == x@[i as int]);
        if u < 0x30 || u > 0x39 {
            assert(!is_digit(body[i - start]));
            return None;
        }
        value = value * 10 + (u - 0x30) as u64;
        i += 1;
        proof {
            assert(body.take(i - start).drop_last() == body.take(i - start - 1));
            assert(body.take(i - start).last() == body[i - start - 1]);
            if all_digits(body) {
                digits_value_grows(body, i - start);
            }
        }
        if value > 4294967295 {
            return None;
        }
    }
    assert(body.take(i - start) == body);
    Some(value as u32)
}

proof fn decimal_digits(n: nat)
    ensures
        decimal(n).len() > 0,
        all_digits(decimal(n)),
        digits_value(decimal(n)) == n,
    decreases n,
{
    if n < 10 {
        assert(decimal(n) == seq![digit_char(n)]);
        assert(decimal(n).drop_last() == Seq::<char>::empty());
        assert(digits_value(Seq::<char>::empty()) == 0);
        assert(digits_value(decimal(n)) == 10 * digits_value(decimal(n).drop_last()) + n);
    } else {
        decimal_digits(n / 10);
        let before = decimal(n / 10);
        let s = decimal(n);
        assert(s.drop_last() == before);
        assert(s.last() == digit_char(n % 10));
        assert(digits_value(s) == 10 * digits_value(before) + n % 10);
        assert forall|i: int| 0 <= i < s.len() implies is_digit(#[trigger] s[i]) by {
            if i < before.len() {
                assert(s[i] == before[i]);
            }
        }
    }
}

/// A number that is written in decimal reads as itself.
pub proof fn decimal_reads_as_itself(n: u32)
    ensures
        unsigned_value(decimal(n as nat)) == Some(n),
{
    decimal_digits(n as nat);
    assert(is_digit(decimal(n as nat)[0]));
}

// ---------------------------------------------------------------------------
// Layout
// ---------------------------------------------------------------------------

/// `s` followed by spaces up to `width` characters; a longer `s` is kept whole.
pub open spec fn padded(s: Seq<char>, width: nat) -> Seq<char> {
    if s.len() >= width {
        s
    } else {
        s + Seq::new((width - s.len()) as nat, |i: int| ' ')
    }
}

/// The text followed by spaces up to `width` characters.
pub fn pad(text: &str, width: usize) -> (r: String)
    ensures
        r@ == padded(text@, width as nat),
{
    let n: usize = text.unicode_len();
    let mut out = owned(text);
    let mut i: usize = n;
    assert(out@ == text@ + Seq::new(0, |i: int| ' '));
    while i < width
        invariant
            n == text@.len(),
            n <= i,
            i <= width || i == n,
            out@ == text@ + Seq::new((i - n) as nat, |i: int| ' '),
        decreases width - i,
    {
        out.push(' ');
        i += 1;
        assert(out@ == text@ + Seq::new((i - n) as nat, |i: int| ' '));
    }
    assert(text@ + Seq::new(0, |i: int| ' ') == text@);
    out
}

/// The pieces one after the other, with `separator` between them.
pub open spec fn joined(pieces: Seq<Seq<char>>, separator: Seq<char>) -> Seq<char>
    decreases pieces.len(),
{
    if pieces.len() == 0 {
        Seq::empty()
    } else if pieces.len() == 1 {
        pieces[0]
    } else {
        joined(pieces.drop_last(), separator) + separator + pieces.last()
    }
}

/// The pieces one after the other, with `separator` between them.
pub fn join(pieces: &Vec<String>, separator: &str) -> (r: String)
    ensures
        r@ == joined(pieces.deep_view(), separator@),
{
    let mut out = String::new();
    let mut i: usize = 0;
    while i < pieces.len()
        invariant
            i <= pieces@.len(),
            out@ == joined(pieces.deep_view().take(i as int), separator@),
        decreases pieces@.len() - i,
    {
        let ghost before = pieces.deep_view().take(i as int);
        let ghost after = pieces.deep_view().take(i + 1);
        proof {
            assert(after.drop_last() == before);
            assert(after.last() == pieces@[i as int]@);
        }
        if i > 0 {
            out.append(separator);
        }
        out.append(pieces[i].as_str());
        proof {
            if i == 0 {
                assert(out@ == after[0]);
            }
        }
        i += 1;
    }
    assert(pieces.deep_view().take(i as int) == pieces.deep_view());
    out
}

} // verus!
