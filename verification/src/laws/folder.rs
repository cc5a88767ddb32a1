//! The folder of profiles: which files are listed, how backups are called and
//! which of them go.

use vstd::prelude::*;

use crate::clock::is_local_text;
use crate::laws::paths::{
    ends_in_json, is_plain_name, json_files_end_in_json, names_are_stem_and_extension,
    plain_names_are_file_names,
};
use crate::order::ordered_from;
use crate::profiles::{
    are_rows_of, beyond, candidate, dated_le, is_profile_file, is_profile_list, is_prune,
    is_versioned, rows_newest_first, stamp_of, stamp_has_two_names, version_le, version_of,
    versions, versions_are_distinct, versions_are_versioned, versions_in_order, DatedView,
    FolderEntry, ProfileEntryView, VersionView,
};
use crate::text::{decimal, text_le, text_le_total};

verus! {

/// Is it an entry that is listed: a plain file whose name ends in `.json` behind
/// something else?
pub open spec fn is_listed(entry: FolderEntry) -> bool {
    entry.facts is Some && entry.facts->Some_0.is_file && ends_in_json(entry.name@)
}

/// Is it the row of the entry: its name, its path, its size and its time?
pub open spec fn is_row_of(row: ProfileEntryView, entry: FolderEntry) -> bool {
    &&& row.name == entry.name@
    &&& row.path == entry.path@
    &&& row.size == entry.facts->Some_0.size
    &&& match entry.facts->Some_0.modified {
        Some(time) => is_local_text(time, row.modified),
        None => row.modified.len() == 0,
    }
}

/// Was the first file modified after the second? One whose time is not known
/// counts as the oldest.
pub open spec fn is_newer(a: FolderEntry, b: FolderEntry) -> bool {
    match (a.facts->Some_0.modified, b.facts->Some_0.modified) {
        (Some(a), Some(b)) => a.0 > b.0 || (a.0 == b.0 && a.1 > b.1),
        (Some(_), None) => true,
        (None, _) => false,
    }
}

proof fn places_of_filter(
    entries: Seq<FolderEntry>,
    f: spec_fn(FolderEntry) -> bool,
) -> (from: Seq<int>)
    ensures
        from.len() == entries.filter(f).len(),
        forall|i: int|
            0 <= i < from.len() ==> 0 <= #[trigger] from[i] < entries.len() && f(entries[from[i]])
                && entries.filter(f)[i] == entries[from[i]],
        forall|i: int, j: int| 0 <= i < j < from.len() ==> #[trigger] from[i] < #[trigger] from[j],
        forall|k: int| 0 <= k < entries.len() && f(#[trigger] entries[k]) ==> from.contains(k),
    decreases entries.len(),
{
    if entries.len() == 0 {
        reveal(Seq::filter);
        Seq::empty()
    } else {
        let init = entries.drop_last();
        let last = entries.last();
        assert(init.push(last) == entries);
        init.lemma_filter_push(last, f);
        let before = places_of_filter(init, f);
        let from = if f(last) {
            before.push(entries.len() - 1)
        } else {
            before
        };
        assert forall|i: int| 0 <= i < from.len() implies 0 <= #[trigger] from[i] < entries.len()
            && f(entries[from[i]]) && entries.filter(f)[i] == entries[from[i]] by {
            if i < before.len() {
                assert(from[i] == before[i]);
                assert(init[before[i]] == entries[before[i]]);
            }
        }
        assert forall|k: int| 0 <= k < entries.len() && f(
            #[trigger] entries[k],
        ) implies from.contains(k) by {
            if k < init.len() {
                assert(init[k] == entries[k]);
                assert(before.contains(k));
                let i = choose|i: int| 0 <= i < before.len() && before[i] == k;
                assert(from[i] == k);
            } else {
                assert(from[before.len() as int] == k);
            }
        }
        from
    }
}

/// `from` tells which entry of the folder each row of the list is of.
pub open spec fn rows_are_of(
    entries: Seq<FolderEntry>,
    listed: Seq<ProfileEntryView>,
    from: Seq<int>,
) -> bool {
    &&& from.len() == listed.len()
    &&& forall|i: int|
        0 <= i < listed.len() ==> 0 <= #[trigger] from[i] < entries.len() && is_listed(
            entries[from[i]],
        ) && is_row_of(listed[i], entries[from[i]])
    &&& forall|k: int|
        0 <= k < entries.len() && is_listed(#[trigger] entries[k]) ==> from.contains(k)
    &&& forall|i: int, j: int|
        0 <= i < j < from.len() ==> #[trigger] from[i] != #[trigger] from[j] && !is_newer(
            entries[from[j]],
            entries[from[i]],
        ) && (is_newer(entries[from[i]], entries[from[j]]) || from[i] < from[j])
}

/// The list of profiles has exactly one row for every plain file whose name ends
/// in `.json`, backups among them, and no other row; the files that were
/// modified last come first, those of one time in the order of the folder.
pub proof fn every_json_file_is_listed_once(
    entries: Seq<FolderEntry>,
    listed: Seq<ProfileEntryView>,
)
    requires
        is_profile_list(entries, listed),
    ensures
        exists|from: Seq<int>| rows_are_of(entries, listed, from),
{
    let (rows, sorted) = choose|rows: Seq<DatedView>, sorted: Seq<DatedView>| #[trigger]
        are_rows_of(entries, rows) && #[trigger] rows_newest_first(rows, sorted) && listed
            == sorted.map_values(|row: DatedView| row.1);
    let le = |a: DatedView, b: DatedView| dated_le(a, b);
    let origin = choose|origin: Seq<int>| ordered_from(rows, sorted, le, origin);
    let f = |entry: FolderEntry| is_profile_file(entry);
    let places = places_of_filter(entries, f);
    assert forall|e: FolderEntry| #[trigger] is_listed(e) <==> is_profile_file(e) by {
        json_files_end_in_json(e.name@);
    }
    let from = Seq::new(listed.len(), |i: int| places[origin[i]]);
    assert forall|i: int| 0 <= i < listed.len() implies 0 <= #[trigger] from[i] < entries.len()
        && is_listed(entries[from[i]]) && is_row_of(listed[i], entries[from[i]]) by {
        assert(sorted[i] == rows[origin[i]]);
        let p = places[origin[i]];
        assert(f(entries[p]));
        assert(is_listed(entries[p]));
        assert(entries.filter(f)[origin[i]] == entries[p]);
    }
    assert forall|k: int| 0 <= k < entries.len() && is_listed(
        #[trigger] entries[k],
    ) implies from.contains(k) by {
        assert(f(entries[k]));
        let p = choose|p: int| 0 <= p < places.len() && places[p] == k;
        assert(origin.contains(p));
        let i = choose|i: int| 0 <= i < origin.len() && origin[i] == p;
        assert(from[i] == k);
    }
    assert forall|i: int, j: int| 0 <= i < j < from.len() implies #[trigger] from[i]
        != #[trigger] from[j] && !is_newer(entries[from[j]], entries[from[i]]) && (is_newer(
        entries[from[i]],
        entries[from[j]],
    ) || from[i] < from[j]) by {
        assert(origin[i] != origin[j]);
        if origin[i] < origin[j] {
            assert(places[origin[i]] < places[origin[j]]);
        } else {
            assert(places[origin[j]] < places[origin[i]]);
        }
        assert(sorted[i] == rows[origin[i]]);
        assert(sorted[j] == rows[origin[j]]);
        assert(entries.filter(f)[origin[i]] == entries[from[i]]);
        assert(entries.filter(f)[origin[j]] == entries[from[j]]);
        assert(rows[origin[i]].0 == entries[from[i]].facts->Some_0.modified);
        assert(rows[origin[j]].0 == entries[from[j]].facts->Some_0.modified);
        assert(dated_le(sorted[i], sorted[j]));
        if !is_newer(entries[from[i]], entries[from[j]]) {
            assert(dated_le(sorted[j], sorted[i]));
            assert(origin[i] < origin[j]);
        }
    }
    assert(rows_are_of(entries, listed, from));
}

// ---------------------------------------------------------------------------
// Names of backups
// ---------------------------------------------------------------------------

/// Is it a date and a time, such as `2026-09-07 08-00-00`?
pub open spec fn is_date_and_time(s: Seq<char>) -> bool {
    &&& s.len() == 19
    &&& s[4] == '-' && s[7] == '-' && s[10] == ' ' && s[13] == '-' && s[16] == '-'
    &&& forall|i: int|
        0 <= i < 19 && i != 4 && i != 7 && i != 10 && i != 13 && i != 16 ==> '0' <= #[trigger] s[i]
            <= '9'
}

proof fn digit(c: char)
    ensures
        crate::text::is_digit(c) <==> '0' <= c <= '9',
{
}

/// A file is a backup exactly where its name is a date and a time and `.json`,
/// alone or behind `Avant restauration `; that is its stamp.
pub proof fn backups_are_told_by_their_names(name: Seq<char>, stamp: Seq<char>)
    ensures
        stamp_of(name) == Some(stamp) <==> is_date_and_time(stamp) && (name == stamp + ".json"@
            || name == "Avant restauration "@ + stamp + ".json"@),
        is_versioned(name) <==> stamp_of(name) is Some,
{
    assert(crate::profiles::is_stamp(stamp) <==> is_date_and_time(stamp)) by {
        if stamp.len() == 19 {
            if crate::profiles::is_stamp(stamp) {
                assert(stamp[4] == '-' && stamp[7] == '-' && stamp[10] == ' ' && stamp[13] == '-'
                    && stamp[16] == '-');
                assert forall|i: int|
                    0 <= i < 19 && i != 4 && i != 7 && i != 10 && i != 13 && i
                        != 16 implies '0' <= #[trigger] stamp[i] <= '9' by {
                    digit(stamp[i]);
                }
            }
            if is_date_and_time(stamp) {
                assert forall|i: int| 0 <= i < 19 implies (if i == 4 || i == 7 || i == 13 || i
                    == 16 {
                    #[trigger] stamp[i] == '-'
                } else if i == 10 {
                    stamp[i] == ' '
                } else {
                    crate::text::is_digit(stamp[i])
                }) by {
                    digit(stamp[i]);
                }
            }
        }
    }
    if stamp_of(name) == Some(stamp) {
        stamp_has_two_names(name, stamp);
    }
    if is_date_and_time(stamp) {
        crate::profiles::backups_are_recognised(stamp);
    }
}

/// Where a name is taken, the next one tried has a number behind its stem, and
/// the extension of the name.
pub proof fn taken_names_are_numbered(stem: Seq<char>, ext: Seq<char>, attempt: nat)
    requires
        attempt >= 2,
        stem.len() > 0,
        is_plain_name(stem + seq!['.'] + ext),
        forall|i: int| 0 <= i < ext.len() ==> #[trigger] ext[i] != '.',
    ensures
        candidate(stem + seq!['.'] + ext, 1) == stem + seq!['.'] + ext,
        candidate(stem + seq!['.'] + ext, attempt) == stem + seq![' ', '('] + decimal(attempt)
            + seq![')', '.'] + ext,
{
    let name = stem + seq!['.'] + ext;
    plain_names_are_file_names(name);
    names_are_stem_and_extension(stem, ext);
    reveal_strlit(" (");
    reveal_strlit(").");
    assert(" ("@ =~= seq![' ', '(']);
    assert(")."@ =~= seq![')', '.']);
}

// ---------------------------------------------------------------------------
// Retention
// ---------------------------------------------------------------------------

/// The backups among some names.
pub open spec fn backups(names: Seq<Seq<char>>) -> Seq<Seq<char>> {
    names.filter(|name: Seq<char>| stamp_of(name) is Some)
}

proof fn backups_are_the_versions(names: Seq<Seq<char>>)
    ensures
        versions(names).len() == backups(names).len(),
        forall|i: int|
            0 <= i < versions(names).len() ==> (#[trigger] versions(names)[i]).1
                == backups(names)[i],
    decreases names.len(),
{
    let f = |name: Seq<char>| version_of(name);
    let g = |name: Seq<char>| stamp_of(name) is Some;
    if names.len() == 0 {
        reveal(Seq::filter);
    } else {
        let init = names.drop_last();
        backups_are_the_versions(init);
        assert(names.take(names.len() as int) == names);
        assert(names.take(names.len() - 1) == init);
        names.lemma_filter_map_take_succ(f, names.len() - 1);
        assert(init.push(names.last()) == names);
        init.lemma_filter_push(names.last(), g);
    }
}

/// Retention deletes all backups but the newest, and nothing else: as many are
/// left as are to be kept, or all where there are no more; each deleted file is
/// a backup of the folder, named once, and none that is left is older than one
/// that is deleted. Nothing is deleted where none are to be kept.
pub proof fn retention_leaves_the_newest(
    names: Seq<Seq<char>>,
    keep: nat,
    doomed: Seq<Seq<char>>,
)
    requires
        names.no_duplicates(),
        is_prune(names, keep, doomed),
    ensures
        keep == 0 ==> doomed.len() == 0,
        keep > 0 ==> {
            &&& doomed.len() == (if backups(names).len() > keep {
                backups(names).len() - keep
            } else {
                0
            })
            &&& doomed.no_duplicates()
            &&& forall|i: int|
                0 <= i < doomed.len() ==> names.contains(#[trigger] doomed[i]) && stamp_of(
                    doomed[i],
                ) is Some
            &&& forall|i: int, other: Seq<char>|
                0 <= i < doomed.len() && names.contains(other) && stamp_of(other) is Some
                    && !doomed.contains(other) ==> text_le(
                    stamp_of(#[trigger] doomed[i])->Some_0,
                    (#[trigger] stamp_of(other))->Some_0,
                )
        },
{
    if keep > 0 {
        let all = versions(names);
        let le = |a: VersionView, b: VersionView| version_le(a, b);
        let sorted = choose|sorted: Seq<VersionView>| #[trigger]
            versions_in_order(all, sorted) && doomed == beyond(sorted, keep);
        let origin = choose|origin: Seq<int>| ordered_from(all, sorted, le, origin);
        versions_are_versioned(names);
        versions_are_distinct(names);
        backups_are_the_versions(names);
        crate::profiles::only_backups_are_pruned(names, keep, doomed);
        assert forall|i: int, j: int| 0 <= i < j < doomed.len() implies doomed[i] != doomed[j] by {
            let a = keep + i;
            let b = keep + j;
            assert(doomed[i] == sorted[a].1 && doomed[j] == sorted[b].1);
            assert(sorted[a] == all[origin[a]] && sorted[b] == all[origin[b]]);
            assert(origin[a] != origin[b]);
        }
        assert forall|i: int, other: Seq<char>|
            0 <= i < doomed.len() && names.contains(other) && stamp_of(other) is Some
                && !doomed.contains(other) implies text_le(
            stamp_of(#[trigger] doomed[i])->Some_0,
            (#[trigger] stamp_of(other))->Some_0,
        ) by {
            let g = |name: Seq<char>| stamp_of(name) is Some;
            let k = choose|k: int| 0 <= k < names.len() && names[k] == other;
            names.lemma_filter_contains(g, k);
            let at = choose|at: int| 0 <= at < backups(names).len() && backups(names)[at] == other;
            assert(all[at].1 == other);
            assert(origin.contains(at));
            let o = choose|o: int| 0 <= o < origin.len() && origin[o] == at;
            assert(sorted[o] == all[at]);
            if o >= keep {
                assert(doomed[o - keep] == other);
            }
            let v = sorted[keep + i];
            assert(doomed[i] == v.1);
            assert(v == all[origin[keep + i]]);
            assert(stamp_of(v.1) == Some(v.0));
            assert(stamp_of(all[at].1) == Some(all[at].0));
            assert(version_le(sorted[o], v));
            text_le_total(v.0, v.0);
        }
    }
}

} // verus!
