//! Windows file names: the last part of a path, its stem and its extension.

use crate::text;
use vstd::prelude::*;

verus! {

/// Does the character separate the parts of a path?
pub open spec fn is_separator(c: char) -> bool {
    c == '\\' || c == '/'
}

/// Is the path verbatim: does it start with `\\?\`, all of it backslashes?
pub open spec fn is_verbatim(path: Seq<char>) -> bool {
    path.len() >= 4 && path[0] == '\\' && path[1] == '\\' && path[2] == '?' && path[3] == '\\'
}

/// Does the character separate the parts of a path? Those of a verbatim path
/// only a backslash separates.
pub open spec fn separates(verbatim: bool, c: char) -> bool {
    c == '\\' || (!verbatim && c == '/')
}

/// Number of characters of `s` up to and with its last separator.
pub open spec fn last_part_start(verbatim: bool, s: Seq<char>) -> nat
    decreases s.len(),
{
    if s.len() == 0 {
        0
    } else if separates(verbatim, s.last()) {
        s.len()
    } else {
        last_part_start(verbatim, s.drop_last())
    }
}

/// Number of characters of `s` from a place up to the next separator.
pub open spec fn part_length(verbatim: bool, s: Seq<char>, at: int) -> nat
    decreases s.len() - at,
{
    if 0 <= at < s.len() && !separates(verbatim, s[at]) {
        1 + part_length(verbatim, s, at + 1)
    } else {
        0
    }
}

/// Does a drive, such as `C:`, stand at a place of the path?
pub open spec fn has_drive(path: Seq<char>, at: int) -> bool {
    at + 2 <= path.len() && path[at + 1] == ':' && (0x41 <= path[at] as u32 <= 0x5A || 0x61
        <= path[at] as u32 <= 0x7A)
}

/// Length of the prefix of a verbatim path: a share such as
/// `\\?\UNC\server\share`, a drive such as `\\?\C:`, or a single part.
pub open spec fn verbatim_length(path: Seq<char>) -> nat {
    if path.len() >= 8 && path[4] == 'U' && path[5] == 'N' && path[6] == 'C' && path[7] == '\\' {
        let server = part_length(true, path, 8);
        let share = part_length(true, path, 9 + server as int);
        8 + server + (if share > 0 {
            1 + share
        } else {
            0
        })
    } else if has_drive(path, 4) && (path.len() == 6 || path[6] == '\\') {
        6
    } else {
        4 + part_length(true, path, 4)
    }
}

/// Length of the prefix that stands in front of the parts of a path: a drive, a
/// share of a server such as `\\server\share`, a device such as `\\.\COM1`, or
/// that of a verbatim path; zero where there is none.
pub open spec fn prefix_length(path: Seq<char>) -> nat {
    if is_verbatim(path) {
        verbatim_length(path)
    } else if has_drive(path, 0) {
        2
    } else if path.len() >= 2 && is_separator(path[0]) && is_separator(path[1]) {
        if path.len() >= 4 && path[2] == '.' && is_separator(path[3]) {
            4 + part_length(false, path, 4)
        } else {
            let server = part_length(false, path, 2);
            let share = part_length(false, path, 3 + server as int);
            if server > 0 && share > 0 {
                3 + server + share
            } else {
                0
            }
        }
    } else {
        0
    }
}

/// `s` without the separators at its end, nor parts that are a single dot; in a
/// verbatim path a dot is a part like another.
pub open spec fn without_empty_end(verbatim: bool, s: Seq<char>) -> Seq<char>
    decreases s.len(),
{
    if s.len() > 0 && separates(verbatim, s.last()) {
        without_empty_end(verbatim, s.drop_last())
    } else if !verbatim && s.len() > 1 && s.last() == '.' && is_separator(s[s.len() - 2]) {
        without_empty_end(verbatim, s.drop_last())
    } else {
        s
    }
}

/// The last part of a path that names a file or a folder; a path that ends in
/// `..`, or has no part but dots, names none, nor does a verbatim one that ends
/// in a dot.
pub open spec fn file_name(path: Seq<char>) -> Option<Seq<char>> {
    let verbatim = is_verbatim(path);
    let whole = without_empty_end(verbatim, path.skip(prefix_length(path) as int));
    let last = whole.skip(last_part_start(verbatim, whole) as int);
    if last.len() == 0 || last == seq!['.'] || last == seq!['.', '.'] {
        None
    } else {
        Some(last)
    }
}

/// Number of characters of `s` up to and with its last dot.
pub open spec fn after_last_dot(s: Seq<char>) -> nat
    decreases s.len(),
{
    if s.len() == 0 {
        0
    } else if s.last() == '.' {
        s.len()
    } else {
        after_last_dot(s.drop_last())
    }
}

/// Does a file name have an extension? It does where a dot stands in it, other
/// than as its first character.
pub open spec fn has_extension(name: Seq<char>) -> bool {
    after_last_dot(name) > 1
}

/// The part of a file name before its extension.
pub open spec fn file_stem(name: Seq<char>) -> Seq<char> {
    if has_extension(name) {
        name.take(after_last_dot(name) - 1)
    } else {
        name
    }
}

/// The extension of a file name, without the dot.
pub open spec fn extension(name: Seq<char>) -> Option<Seq<char>> {
    if has_extension(name) {
        Some(name.skip(after_last_dot(name) as int))
    } else {
        None
    }
}

fn find_after_last_dot(name: &str) -> (r: usize)
    ensures
        r == after_last_dot(name@),
        r <= name@.len(),
{
    let x = text::chars_of(name);
    let mut n: usize = x.len();
    assert(x@.take(n as int) == x@);
    while n > 0 && x[n - 1] != '.'
        invariant
            n <= x@.len(),
            x@ == name@,
            after_last_dot(x@) == after_last_dot(x@.take(n as int)),
        decreases n,
    {
        assert(x@.take(n as int).drop_last() == x@.take(n - 1));
        n -= 1;
    }
    n
}

/// The part of a file name before its extension.
pub fn stem_of(name: &str) -> (r: &str)
    ensures
        r@ == file_stem(name@),
{
    let n: usize = find_after_last_dot(name);
    if n > 1 {
        assert(name@.subrange(0, n - 1) == name@.take(n - 1));
        name.substring_char(0, n - 1)
    } else {
        name
    }
}

/// The extension of a file name, without the dot.
pub fn extension_of(name: &str) -> (r: Option<&str>)
    ensures
        r.deep_view() == extension(name@),
{
    let n: usize = find_after_last_dot(name);
    if n > 1 {
        let end: usize = name.unicode_len();
        assert(name@.subrange(n as int, end as int) == name@.skip(n as int));
        Some(name.substring_char(n, end))
    } else {
        None
    }
}

fn is_between(verbatim: bool, c: char) -> (r: bool)
    ensures
        r == separates(verbatim, c),
{
    c == '\\' || (!verbatim && c == '/')
}

fn starts_verbatim(x: &Vec<char>) -> (r: bool)
    ensures
        r == is_verbatim(x@),
{
    x.len() >= 4 && x[0] == '\\' && x[1] == '\\' && x[2] == '?' && x[3] == '\\'
}

fn part_length_at(verbatim: bool, x: &Vec<char>, at: usize) -> (r: usize)
    ensures
        r == part_length(verbatim, x@, at as int),
        r > 0 ==> at + r <= x@.len(),
{
    let mut end: usize = at;
    while end < x.len() && !is_between(verbatim, x[end])
        invariant
            at <= end,
            end > at ==> end <= x@.len(),
            part_length(verbatim, x@, at as int) == (end - at) + part_length(
                verbatim,
                x@,
                end as int,
            ),
        decreases x@.len() - end,
    {
        end += 1;
    }
    end - at
}

fn drive_at(x: &Vec<char>, at: usize) -> (r: bool)
    requires
        at <= 4,
    ensures
        r == has_drive(x@, at as int),
{
    if x.len() >= at + 2 && x[at + 1] == ':' {
        let u: u32 = x[at] as u32;
        (0x41 <= u && u <= 0x5A) || (0x61 <= u && u <= 0x7A)
    } else {
        false
    }
}

fn verbatim_end(x: &Vec<char>) -> (r: usize)
    requires
        is_verbatim(x@),
    ensures
        r == verbatim_length(x@),
        r <= x@.len(),
{
    let n: usize = x.len();
    if n >= 8 && x[4] == 'U' && x[5] == 'N' && x[6] == 'C' && x[7] == '\\' {
        let server: usize = part_length_at(true, x, 8);
        if server + 8 == n {
            assert(part_length(true, x@, 9 + server as int) == 0);
            return 8 + server;
        }
        let share: usize = part_length_at(true, x, 9 + server);
        if share > 0 {
            9 + server + share
        } else {
            8 + server
        }
    } else if drive_at(x, 4) && (n == 6 || x[6] == '\\') {
        6
    } else {
        4 + part_length_at(true, x, 4)
    }
}

fn prefix_end(x: &Vec<char>) -> (r: usize)
    ensures
        r == prefix_length(x@),
        r <= x@.len(),
{
    if starts_verbatim(x) {
        return verbatim_end(x);
    }
    if drive_at(x, 0) {
        return 2;
    }
    let n: usize = x.len();
    if n < 2 || !is_between(false, x[0]) || !is_between(false, x[1]) {
        return 0;
    }
    if n >= 4 && x[2] == '.' && is_between(false, x[3]) {
        return 4 + part_length_at(false, x, 4);
    }
    let server: usize = part_length_at(false, x, 2);
    if server == 0 {
        return 0;
    }
    if server + 2 == n {
        assert(part_length(false, x@, 3 + server as int) == 0);
        return 0;
    }
    let share: usize = part_length_at(false, x, 3 + server);
    if share == 0 {
        0
    } else {
        3 + server + share
    }
}

fn parts_end(verbatim: bool, x: &Vec<char>, from: usize) -> (r: usize)
    requires
        from <= x@.len(),
    ensures
        from <= r <= x@.len(),
        x@.subrange(from as int, r as int) == without_empty_end(verbatim, x@.skip(from as int)),
{
    let mut end: usize = x.len();
    let ghost parts = x@.skip(from as int);
    assert(x@.subrange(from as int, end as int) == parts);
    while end > from && (is_between(verbatim, x[end - 1]) || (!verbatim && end - from > 1 && x[end
        - 1] == '.' && is_between(false, x[end - 2])))
        invariant
            from <= end <= x@.len(),
            without_empty_end(verbatim, parts) == without_empty_end(
                verbatim,
                x@.subrange(from as int, end as int),
            ),
        decreases end,
    {
        assert(x@.subrange(from as int, end as int).drop_last() == x@.subrange(
            from as int,
            end - 1,
        ));
        end -= 1;
    }
    assert(without_empty_end(verbatim, parts) == x@.subrange(from as int, end as int));
    end
}

/// The last part of a path that names a file or a folder.
pub fn file_name_of(path: &str) -> (r: Option<&str>)
    ensures
        r.deep_view() == file_name(path@),
{
    let x = text::chars_of(path);
    let verbatim = starts_verbatim(&x);
    let root: usize = prefix_end(&x);
    let end: usize = parts_end(verbatim, &x, root);
    let ghost whole = x@.subrange(root as int, end as int);
    let mut start: usize = end;
    assert(whole.take(start - root) == whole);
    while start > root && !is_between(verbatim, x[start - 1])
        invariant
            root <= start <= end <= x@.len(),
            whole == x@.subrange(root as int, end as int),
            last_part_start(verbatim, whole) == last_part_start(
                verbatim,
                whole.take(start - root),
            ),
        decreases start,
    {
        assert(whole.take(start - root).drop_last() == whole.take(start - root - 1));
        start -= 1;
    }
    let last = path.substring_char(start, end);
    assert(last@ == whole.skip(start - root));
    let n: usize = end - start;
    if n == 0 {
        return None;
    }
    if n == 1 && x[start] == '.' {
        assert(last@ =~= seq!['.']);
        return None;
    }
    if n == 2 && x[start] == '.' && x[start + 1] == '.' {
        assert(last@ =~= seq!['.', '.']);
        return None;
    }
    proof {
        if last@ == seq!['.'] {
            assert(last@.len() == 1 && last@[0] == '.');
        }
        if last@ == seq!['.', '.'] {
            assert(last@.len() == 2 && last@[0] == '.' && last@[1] == '.');
        }
    }
    Some(last)
}

/// Is the path only a drive, such as `C:`?
pub open spec fn is_drive(path: Seq<char>) -> bool {
    path.len() == 2 && has_drive(path, 0)
}

/// `s` with one backslash in place of several.
pub open spec fn with_single_separators(s: Seq<char>) -> Seq<char>
    decreases s.len(),
{
    if s.len() == 0 {
        s
    } else if s.len() > 1 && s.last() == '\\' && s[s.len() - 2] == '\\' {
        with_single_separators(s.drop_last())
    } else {
        with_single_separators(s.drop_last()).push(s.last())
    }
}

/// The path of `name` in `folder`. A name with a prefix of its own takes the
/// place of the folder, and one that starts with a separator is looked for on
/// the drive of the folder. Else a backslash is put between them, unless there
/// is a separator already or the folder is empty or only a drive. A verbatim
/// folder loses its empty parts.
pub open spec fn in_folder(folder: Seq<char>, name: Seq<char>) -> Seq<char> {
    let prefix = folder.take(prefix_length(folder) as int);
    if prefix_length(name) > 0 {
        name
    } else if name.len() > 0 && is_separator(name[0]) {
        prefix + name
    } else if is_verbatim(folder) && name.len() > 0 {
        prefix + with_single_separators(
            without_empty_end(true, folder.skip(prefix_length(folder) as int)),
        ) + seq!['\\'] + name
    } else if folder.len() == 0 || is_separator(folder.last()) || is_drive(folder) {
        folder + name
    } else {
        folder + seq!['\\'] + name
    }
}

fn push_parts(out: &mut String, x: &Vec<char>, from: usize, end: usize)
    requires
        from <= end <= x@.len(),
    ensures
        final(out)@ == old(out)@ + with_single_separators(x@.subrange(from as int, end as int)),
{
    let ghost start = out@;
    let mut i: usize = from;
    assert(x@.subrange(from as int, i as int) == Seq::<char>::empty());
    assert(start + Seq::<char>::empty() == start);
    while i < end
        invariant
            from <= i <= end <= x@.len(),
            out@ == start + with_single_separators(x@.subrange(from as int, i as int)),
        decreases end - i,
    {
        let ghost before = out@;
        assert(x@.subrange(from as int, i + 1).drop_last() == x@.subrange(from as int, i as int));
        if !(i > from && x[i] == '\\' && x[i - 1] == '\\') {
            out.push(x[i]);
            assert(out@ =~= start + with_single_separators(x@.subrange(from as int, i + 1)));
        }
        i += 1;
    }
}

/// The path of `name` in `folder`.
pub fn join(folder: &str, name: &str) -> (r: String)
    ensures
        r@ == in_folder(folder@, name@),
{
    let x = text::chars_of(folder);
    let y = text::chars_of(name);
    let n: usize = x.len();
    if prefix_end(&y) > 0 {
        return text::owned(name);
    }
    let root: usize = prefix_end(&x);
    if y.len() > 0 && is_between(false, y[0]) {
        let mut out = text::owned(folder.substring_char(0, root));
        assert(folder@.subrange(0, root as int) == folder@.take(root as int));
        out.append(name);
        return out;
    }
    if y.len() > 0 && starts_verbatim(&x) {
        let end: usize = parts_end(true, &x, root);
        let mut out = text::owned(folder.substring_char(0, root));
        assert(folder@.subrange(0, root as int) == folder@.take(root as int));
        push_parts(&mut out, &x, root, end);
        let ghost before = out@;
        out.push('\\');
        assert(out@ == before + seq!['\\']);
        out.append(name);
        return out;
    }
    let mut out = text::owned(folder);
    let bare = if n == 0 {
        true
    } else if is_between(false, x[n - 1]) {
        true
    } else {
        n == 2 && drive_at(&x, 0)
    };
    if !bare {
        out.push('\\');
        assert(out@ == folder@ + seq!['\\']);
    }
    out.append(name);
    out
}

} // verus!
