//! Paths: file names, their stems and extensions, and files in folders.

use vstd::prelude::*;

use crate::paths::{
    after_last_dot, extension, file_name, file_stem, has_drive, in_folder, is_separator,
    is_verbatim, last_part_start, prefix_length, without_empty_end,
};

verus! {

/// Is it a plain name of a file: not empty, no dots alone, and without
/// separators and colons?
pub open spec fn is_plain_name(name: Seq<char>) -> bool {
    &&& name.len() > 0
    &&& name != seq!['.']
    &&& name != seq!['.', '.']
    &&& forall|i: int|
        0 <= i < name.len() ==> #[trigger] name[i] != '/' && name[i] != '\\' && name[i] != ':'
}

proof fn last_part_of(before: Seq<char>, name: Seq<char>)
    requires
        forall|i: int| 0 <= i < name.len() ==> #[trigger] name[i] != '/' && name[i] != '\\',
        before.len() == 0 || is_separator(before.last()),
    ensures
        last_part_start(false, before + name) == before.len(),
    decreases name.len(),
{
    let whole = before + name;
    if name.len() > 0 {
        assert(whole.last() == name.last());
        assert(whole.drop_last() == before + name.drop_last());
        last_part_of(before, name.drop_last());
    } else {
        assert(whole == before);
    }
}

/// A path that does not start with a separator has no prefix but a drive.
proof fn only_a_drive_stands_in_front(path: Seq<char>)
    requires
        path.len() > 0 ==> !is_separator(path[0]),
    ensures
        !is_verbatim(path),
        prefix_length(path) == (if has_drive(path, 0) {
            2nat
        } else {
            0
        }),
{
}

proof fn name_after(path: Seq<char>, before: Seq<char>, name: Seq<char>)
    requires
        is_plain_name(name),
        path.len() > 0 ==> !is_separator(path[0]),
        path.skip(prefix_length(path) as int) == before + name,
        prefix_length(path) <= path.len(),
        before.len() == 0 || is_separator(before.last()),
    ensures
        file_name(path) == Some(name),
{
    only_a_drive_stands_in_front(path);
    let rest = before + name;
    assert(rest.last() == name.last());
    assert(without_empty_end(false, rest) == rest) by {
        if rest.len() > 1 && rest.last() == '.' && is_separator(rest[rest.len() - 2]) {
            if name.len() > 1 {
                assert(rest[rest.len() - 2] == name[name.len() - 2]);
            } else {
                assert(name =~= seq!['.']);
            }
        }
    }
    last_part_of(before, name);
    assert(rest.skip(before.len() as int) == name);
}

/// A plain name is its own file name.
pub proof fn plain_names_are_file_names(name: Seq<char>)
    requires
        is_plain_name(name),
    ensures
        file_name(name) == Some(name),
{
    only_a_drive_stands_in_front(name);
    assert(name.skip(0) == Seq::<char>::empty() + name);
    name_after(name, Seq::empty(), name);
}

/// A file in a folder has the name that it was given there. The folder is one on
/// a drive, or one that is not looked for from a root.
pub proof fn files_have_their_names_in_folders(folder: Seq<char>, name: Seq<char>)
    requires
        is_plain_name(name),
        folder.len() > 0 ==> !is_separator(folder[0]),
    ensures
        file_name(in_folder(folder, name)) == Some(name),
        folder.is_prefix_of(in_folder(folder, name)),
        in_folder(folder, name).len() <= folder.len() + 1 + name.len(),
{
    let path = in_folder(folder, name);
    only_a_drive_stands_in_front(name);
    only_a_drive_stands_in_front(folder);
    if folder.len() == 0 {
        assert(path == name);
        plain_names_are_file_names(name);
        assert(folder =~= path.subrange(0, 0));
    } else {
        let bare = is_separator(folder.last()) || (folder.len() == 2 && has_drive(folder, 0));
        let base = if bare {
            folder
        } else {
            folder + seq!['\\']
        };
        assert(path == base + name);
        assert(folder =~= path.subrange(0, folder.len() as int));
        only_a_drive_stands_in_front(path);
        assert(path[0] == folder[0]);
        if has_drive(path, 0) {
            assert(folder.len() >= 2) by {
                if folder.len() == 1 {
                    assert(path[1] == base[1] || path[1] == name[0]);
                }
            }
            assert(path[1] == folder[1]);
            let before = base.skip(2);
            assert(path.skip(2) == before + name);
            name_after(path, before, name);
        } else {
            if folder.len() >= 2 {
                assert(path[1] == folder[1]);
            }
            assert(path.skip(0) == base + name);
            name_after(path, base, name);
        }
    }
}

proof fn after_the_last_dot(name: Seq<char>)
    ensures
        after_last_dot(name) <= name.len(),
        after_last_dot(name) > 0 ==> name[after_last_dot(name) - 1] == '.',
        forall|i: int| after_last_dot(name) <= i < name.len() ==> #[trigger] name[i] != '.',
    decreases name.len(),
{
    if name.len() > 0 && name.last() != '.' {
        after_the_last_dot(name.drop_last());
        let n = after_last_dot(name);
        if n > 0 {
            assert(name.drop_last()[n - 1] == name[n - 1]);
        }
        assert forall|i: int| n <= i < name.len() implies #[trigger] name[i] != '.' by {
            if i < name.len() - 1 {
                assert(name.drop_last()[i] == name[i]);
            }
        }
    }
}

/// A file name with a dot inside it is its stem, the last dot and its extension;
/// one without is all stem.
pub proof fn names_are_stem_and_extension(stem: Seq<char>, ext: Seq<char>)
    requires
        stem.len() > 0,
        forall|i: int| 0 <= i < ext.len() ==> #[trigger] ext[i] != '.',
    ensures
        file_stem(stem + seq!['.'] + ext) == stem,
        extension(stem + seq!['.'] + ext) == Some(ext),
        file_stem(ext) == ext,
        extension(ext) is None,
{
    let name = stem + seq!['.'] + ext;
    after_the_last_dot(name);
    after_the_last_dot(ext);
    let n = after_last_dot(name) as int;
    assert(name[stem.len() as int] == '.');
    if n > stem.len() + 1 {
        assert(name[n - 1] == ext[n - 2 - stem.len()]);
    }
    assert(n == stem.len() + 1);
    assert(name.take(n - 1) == stem);
    assert(name.skip(n) == ext);
    if after_last_dot(ext) > 0 {
        assert(ext[after_last_dot(ext) - 1] != '.');
    }
}

/// Does the name end in `.json`, with something in front of it?
pub open spec fn ends_in_json(name: Seq<char>) -> bool {
    name.len() > 5 && name.skip(name.len() - 5) == seq!['.', 'j', 's', 'o', 'n']
}

/// The extension of a file is `json` exactly where its name ends in `.json`
/// behind something else.
pub proof fn json_files_end_in_json(name: Seq<char>)
    ensures
        extension(name) == Some("json"@) <==> ends_in_json(name),
{
    reveal_strlit("json");
    let ext = "json"@;
    after_the_last_dot(name);
    let n = after_last_dot(name) as int;
    if ends_in_json(name) {
        let tail = name.skip(name.len() - 5);
        let stem = name.take(name.len() - 5);
        assert(tail[0] == '.' && tail[1] == 'j' && tail[2] == 's' && tail[3] == 'o' && tail[4]
            == 'n');
        assert(ext =~= seq!['j', 's', 'o', 'n']);
        assert(name =~= stem + seq!['.'] + ext);
        names_are_stem_and_extension(stem, ext);
    }
    if extension(name) == Some(ext) {
        assert(name.skip(n) == ext);
        assert(ext.len() == 4);
        assert(n == name.len() - 4);
        assert forall|i: int| 0 <= i < 4 implies name[n + i] == ext[i] by {
            assert(name.skip(n)[i] == name[n + i]);
        }
        let tail = name.skip(name.len() - 5);
        assert(ext =~= seq!['j', 's', 'o', 'n']);
        assert(name[n] == ext[0] && name[n + 1] == ext[1] && name[n + 2] == ext[2] && name[n + 3]
            == ext[3]);
        assert(tail[0] == '.' && tail[1] == 'j' && tail[2] == 's' && tail[3] == 'o' && tail[4]
            == 'n');
        assert(tail =~= seq!['.', 'j', 's', 'o', 'n']);
    }
}

} // verus!
