//! The folder of profiles: listing, free names and retention of backups.

use crate::clock;
use crate::order::{stable_sort, Ranked};
use crate::paths;
use crate::text;
use vstd::prelude::*;

use crate::clock::{is_file_time, rfc3339};
use crate::order::stably_ordered;
use crate::text::{after_prefix, before_suffix, decimal, is_digit, text_le};

verus! {

// ---------------------------------------------------------------------------
// Free names
// ---------------------------------------------------------------------------

/// Stem of a numbered name: that of the name, or `profil` for an empty name.
pub open spec fn numbered_stem(name: Seq<char>) -> Seq<char> {
    match paths::file_name(name) {
        Some(file) => paths::file_stem(file),
        None => "profil"@,
    }
}

/// Extension of a numbered name: that of the name, or `json` where it has none.
pub open spec fn numbered_extension(name: Seq<char>) -> Seq<char> {
    match paths::file_name(name) {
        Some(file) => match paths::extension(file) {
            Some(ext) => ext,
            None => "json"@,
        },
        None => "json"@,
    }
}

/// The names that are tried for a profile: the name itself, then `stem (2).ext`,
/// `stem (3).ext` and so on.
pub open spec fn candidate(name: Seq<char>, attempt: nat) -> Seq<char> {
    if attempt <= 1 {
        name
    } else {
        numbered_stem(name) + " ("@ + decimal(attempt) + ")."@ + numbered_extension(name)
    }
}

/// Number of names that are tried at most.
pub const MAX_ATTEMPT: u32 = 2147483647;

fn candidate_name(name: &str, attempt: u32) -> (r: String)
    ensures
        r@ == candidate(name@, attempt as nat),
{
    if attempt <= 1 {
        return text::owned(name);
    }
    let file = paths::file_name_of(name);
    let stem = match file {
        Some(file) => paths::stem_of(file),
        None => "profil",
    };
    let ext = match file {
        Some(file) => match paths::extension_of(file) {
            Some(ext) => ext,
            None => "json",
        },
        None => "json",
    };
    let mut out = text::owned(stem);
    out.append(" (");
    out.append(text::decimal_text(attempt as u64).as_str());
    out.append(").");
    out.append(ext);
    out
}

/// The first name of its candidates that is free, where `taken` tells which
/// are not; nothing where all of them are.
pub fn unique_path<F: Fn(&String) -> bool>(name: &str, taken: F) -> (r: Option<String>)
    requires
        forall|s: &String| call_requires(taken, (s,)),
    ensures
        match r {
            Some(free) => call_ensures(taken, (&free,), false) && exists|attempt: nat|
                1 <= attempt <= MAX_ATTEMPT && free@ == #[trigger] candidate(name@, attempt)
                    && all_taken(name@, taken, attempt),
            None => all_taken(name@, taken, (MAX_ATTEMPT + 1) as nat),
        },
{
    let mut attempt: u32 = 1;
    loop
        invariant
            1 <= attempt <= MAX_ATTEMPT,
            forall|s: &String| call_requires(taken, (s,)),
            all_taken(name@, taken, attempt as nat),
        decreases MAX_ATTEMPT - attempt,
    {
        let tried = candidate_name(name, attempt);
        if !taken(&tried) {
            assert(tried@ == candidate(name@, attempt as nat));
            return Some(tried);
        }
        assert(was_taken(name@, taken, attempt as nat));
        if attempt == MAX_ATTEMPT {
            return None;
        }
        attempt += 1;
    }
}

/// `taken` said of a candidate that it is taken.
pub open spec fn was_taken<F: Fn(&String) -> bool>(
    name: Seq<char>,
    taken: F,
    attempt: nat,
) -> bool {
    exists|s: &String| s@ == candidate(name, attempt) && #[trigger] call_ensures(taken, (s,), true)
}

/// `taken` said of all candidates before `attempt` that they are taken.
pub open spec fn all_taken<F: Fn(&String) -> bool>(
    name: Seq<char>,
    taken: F,
    attempt: nat,
) -> bool {
    forall|earlier: nat| 1 <= earlier < attempt ==> #[trigger] was_taken(name, taken, earlier)
}

// ---------------------------------------------------------------------------
// Backups
// ---------------------------------------------------------------------------

/// Has the text the form of a stamp, such as `2026-09-07 08-00-00`?
pub open spec fn is_stamp(s: Seq<char>) -> bool {
    &&& s.len() == 19
    &&& forall|i: int|
        0 <= i < 19 ==> (if i == 4 || i == 7 || i == 13 || i == 16 {
            #[trigger] s[i] == '-'
        } else if i == 10 {
            s[i] == ' '
        } else {
            is_digit(s[i])
        })
}

/// The name of a backup without the words that mark one made before a restore.
pub open spec fn unmarked(name: Seq<char>) -> Seq<char> {
    match after_prefix(name, "Avant restauration "@) {
        Some(rest) => rest,
        None => name,
    }
}

/// The stamp in the name of a backup; other names have none.
pub open spec fn stamp_of(name: Seq<char>) -> Option<Seq<char>> {
    match before_suffix(unmarked(name), ".json"@) {
        Some(stem) => if is_stamp(stem) {
            Some(stem)
        } else {
            None
        },
        None => None,
    }
}

/// Is it the name of a backup, with or without the mark?
pub open spec fn is_versioned(name: Seq<char>) -> bool {
    stamp_of(name) is Some
}

fn has_stamp_form(text: &str) -> (r: bool)
    ensures
        r == is_stamp(text@),
{
    let x = text::chars_of(text);
    if x.len() != 19 {
        return false;
    }
    let mut i: usize = 0;
    while i < 19
        invariant
            i <= 19,
            x@ == text@,
            x@.len() == 19,
            forall|j: int|
                0 <= j < i ==> (if j == 4 || j == 7 || j == 13 || j == 16 {
                    #[trigger] x@[j] == '-'
                } else if j == 10 {
                    x@[j] == ' '
                } else {
                    is_digit(x@[j])
                }),
        decreases 19 - i,
    {
        let c: char = x[i];
        let u: u32 = c as u32;
        let fits = if i == 4 || i == 7 || i == 13 || i == 16 {
            c == '-'
        } else if i == 10 {
            c == ' '
        } else {
            0x30 <= u && u <= 0x39
        };
        if !fits {
            return false;
        }
        i += 1;
    }
    true
}

fn stamp_in_name(name: &str) -> (r: Option<String>)
    ensures
        r.deep_view() == stamp_of(name@),
{
    let base = match text::strip_prefix(name, "Avant restauration ") {
        Some(rest) => rest,
        None => name,
    };
    match text::strip_suffix(base, ".json") {
        Some(stem) => {
            if has_stamp_form(stem) {
                Some(text::owned(stem))
            } else {
                None
            }
        },
        None => None,
    }
}

/// Is it the name of a backup: a stamp and `.json`, after `Avant restauration`
/// where it was made before a restore?
pub fn is_versioned_name(name: &str) -> (r: bool)
    ensures
        r == is_versioned(name@),
{
    stamp_in_name(name).is_some()
}

/// A backup under its stamp.
pub type VersionView = (Seq<char>, Seq<char>);

/// Order of backups: the newest stamp first; of two with one stamp, the name
/// that comes last in alphabetical order.
pub open spec fn version_le(a: VersionView, b: VersionView) -> bool {
    if a.0 == b.0 {
        text_le(b.1, a.1)
    } else {
        text_le(b.0, a.0)
    }
}

/// A file under the stamp in its name, if it has one.
pub open spec fn version_of(name: Seq<char>) -> Option<VersionView> {
    match stamp_of(name) {
        Some(stamp) => Some((stamp, name)),
        None => None,
    }
}

/// The backups among some files.
pub open spec fn versions(names: Seq<Seq<char>>) -> Seq<VersionView> {
    names.filter_map(|name: Seq<char>| version_of(name))
}

/// `sorted` holds the backups in their order, newest first.
pub open spec fn versions_in_order(all: Seq<VersionView>, sorted: Seq<VersionView>) -> bool {
    stably_ordered(all, sorted, |a: VersionView, b: VersionView| version_le(a, b))
}

/// `doomed` are the names of the backups beyond the `keep` newest ones, and
/// none where `keep` is zero.
pub open spec fn is_prune(names: Seq<Seq<char>>, keep: nat, doomed: Seq<Seq<char>>) -> bool {
    if keep == 0 {
        doomed.len() == 0
    } else {
        exists|sorted: Seq<VersionView>| #[trigger]
            versions_in_order(versions(names), sorted) && doomed == beyond(sorted, keep)
    }
}

/// The names of the backups after the first `keep`.
pub open spec fn beyond(sorted: Seq<VersionView>, keep: nat) -> Seq<Seq<char>> {
    if keep < sorted.len() {
        sorted.skip(keep as int).map_values(|v: VersionView| v.1)
    } else {
        Seq::empty()
    }
}

/// A backup under its stamp.
struct Version(String, String);

impl DeepView for Version {
    type V = VersionView;

    closed spec fn deep_view(&self) -> VersionView {
        (self.0@, self.1@)
    }
}

impl Ranked for Version {
    open spec fn le(a: VersionView, b: VersionView) -> bool {
        version_le(a, b)
    }

    proof fn le_total(a: VersionView, b: VersionView) {
        text::text_le_total(a.0, b.0);
        text::text_le_total(a.1, b.1);
    }

    proof fn le_transitive(a: VersionView, b: VersionView, c: VersionView) {
        if a.0 == b.0 && b.0 == c.0 {
            text::text_le_transitive(c.1, b.1, a.1);
        } else if a.0 != b.0 && b.0 != c.0 {
            text::text_le_transitive(c.0, b.0, a.0);
            if a.0 == c.0 {
                text::text_le_antisymmetric(a.0, b.0);
            }
        }
    }

    fn ranks_at_most(&self, other: &Self) -> (r: bool) {
        if self.0 == other.0 {
            text::at_most(other.1.as_str(), self.1.as_str())
        } else {
            text::at_most(other.0.as_str(), self.0.as_str())
        }
    }
}

/// Are all backups kept, so that the folder need not be looked at?
pub fn keeps_all(keep: u32) -> (r: bool)
    ensures
        r == (keep == 0),
{
    keep == 0
}

/// The files to delete so that only the `keep` newest backups are left; zero
/// keeps all of them. `listing` has the names of the files in the folder, or
/// the reason why it could not be opened. A file that is no backup is never
/// deleted.
pub fn prune_versions(listing: &Result<Vec<String>, String>, keep: u32) -> (r: Result<
    Vec<String>,
    String,
>)
    ensures
        match (r, *listing) {
            (Ok(doomed), Ok(names)) => is_prune(names.deep_view(), keep as nat, doomed.deep_view()),
            (Ok(doomed), Err(_)) => keep == 0 && doomed@.len() == 0,
            (Err(message), Err(reason)) => keep != 0 && message@
                == "Ouverture du dossier des profils impossible : "@ + reason@,
            (Err(_), Ok(_)) => false,
        },
{
    let mut doomed: Vec<String> = Vec::new();
    assert(doomed.deep_view() =~= Seq::<Seq<char>>::empty());
    if keep == 0 {
        return Ok(doomed);
    }
    match listing {
        Err(reason) => {
            let mut message = text::owned("Ouverture du dossier des profils impossible : ");
            message.append(reason.as_str());
            Err(message)
        },
        Ok(names) => {
            let ghost all = names.deep_view();
            let ghost f = |name: Seq<char>| version_of(name);
            let mut found: Vec<Version> = Vec::new();
            assert(found.deep_view() =~= Seq::<VersionView>::empty());
            let mut i: usize = 0;
            while i < names.len()
                invariant
                    i <= names@.len(),
                    all == names.deep_view(),
                    f == (|name: Seq<char>| version_of(name)),
                    found.deep_view() == all.take(i as int).filter_map(f),
                decreases names@.len() - i,
            {
                let ghost before = found.deep_view();
                proof {
                    all.lemma_filter_map_take_succ(f, i as int);
                }
                match stamp_in_name(names[i].as_str()) {
                    Some(stamp) => {
                        found.push(Version(stamp, names[i].clone()));
                        assert(found.deep_view() =~= before.push((stamp@, names@[i as int]@)));
                    },
                    None => {},
                }
                i += 1;
            }
            assert(all.take(i as int) == all);
            let ghost unsorted = found.deep_view();
            let sorted = stable_sort(found);
            proof {
                assert((|a: VersionView, b: VersionView| version_le(a, b)) =~= (|
                    a: VersionView,
                    b: VersionView,
                | <Version as Ranked>::le(a, b)));
                assert(unsorted == versions(all));
                assert(versions_in_order(versions(all), sorted.deep_view()));
            }
            let mut k: usize = keep as usize;
            let ghost start = k as int;
            while k < sorted.len()
                invariant
                    start <= k,
                    k <= sorted@.len() || k == start,
                    doomed@.len() == k - start,
                    forall|j: int|
                        0 <= j < k - start ==> (#[trigger] doomed@[j])@ == sorted@[start + j].1@,
                decreases sorted@.len() - k,
            {
                doomed.push(sorted[k].1.clone());
                k += 1;
            }
            proof {
                assert(doomed.deep_view() =~= beyond(sorted.deep_view(), keep as nat));
            }
            Ok(doomed)
        },
    }
}

/// Number of files that were deleted, from whether each deletion succeeded.
pub open spec fn deletions(outcomes: Seq<bool>) -> nat
    decreases outcomes.len(),
{
    if outcomes.len() == 0 {
        0
    } else {
        deletions(outcomes.drop_last()) + (if outcomes.last() {
            1nat
        } else {
            0
        })
    }
}

/// Number of files that were deleted, from whether each deletion succeeded.
pub fn count_deletions(outcomes: &Vec<bool>) -> (r: usize)
    ensures
        r == deletions(outcomes@),
{
    let mut n: usize = 0;
    let mut i: usize = 0;
    while i < outcomes.len()
        invariant
            i <= outcomes@.len(),
            n <= i,
            n == deletions(outcomes@.take(i as int)),
        decreases outcomes@.len() - i,
    {
        proof {
            assert(outcomes@.take(i + 1).drop_last() == outcomes@.take(i as int));
        }
        if outcomes[i] {
            n += 1;
        }
        i += 1;
    }
    assert(outcomes@.take(i as int) == outcomes@);
    n
}

proof fn two_digits_are_digits(n: nat)
    ensures
        clock::two_digits(n).len() == 2,
        is_digit(clock::two_digits(n)[0]),
        is_digit(clock::two_digits(n)[1]),
{
}

/// The stamp of a moment of the years 0 to 9999 has the form of a stamp.
pub proof fn moments_have_stamps(m: clock::Moment)
    requires
        0 <= m.year <= 9999,
    ensures
        is_stamp(clock::stamp_text(m)),
{
    let n = m.year as nat;
    two_digits_are_digits(n / 100);
    two_digits_are_digits(n % 100);
    two_digits_are_digits(m.month);
    two_digits_are_digits(m.day);
    two_digits_are_digits(m.hour);
    two_digits_are_digits(m.minute);
    two_digits_are_digits(m.second);
    let s = clock::stamp_text(m);
    assert(s.len() == 19);
    assert(s[0] == clock::two_digits(n / 100)[0] && s[1] == clock::two_digits(n / 100)[1]);
    assert(s[2] == clock::two_digits(n % 100)[0] && s[3] == clock::two_digits(n % 100)[1]);
    assert(s[4] == '-' && s[7] == '-' && s[10] == ' ' && s[13] == '-' && s[16] == '-');
    assert(s[5] == clock::two_digits(m.month)[0] && s[6] == clock::two_digits(m.month)[1]);
    assert(s[8] == clock::two_digits(m.day)[0] && s[9] == clock::two_digits(m.day)[1]);
    assert(s[11] == clock::two_digits(m.hour)[0] && s[12] == clock::two_digits(m.hour)[1]);
    assert(s[14] == clock::two_digits(m.minute)[0] && s[15] == clock::two_digits(m.minute)[1]);
    assert(s[17] == clock::two_digits(m.second)[0] && s[18] == clock::two_digits(m.second)[1]);
}

/// The name of a backup made at a stamp.
pub open spec fn backup_name(stamp: Seq<char>) -> Seq<char> {
    stamp + ".json"@
}

/// The name of a backup made at a stamp, before a restore.
pub open spec fn restore_backup_name(stamp: Seq<char>) -> Seq<char> {
    "Avant restauration "@ + stamp + ".json"@
}

/// Backups are recognised by their names: the stamp of a backup is found in the
/// name that is tried first for it, so that retention counts it.
pub proof fn backups_are_recognised(stamp: Seq<char>)
    requires
        is_stamp(stamp),
    ensures
        stamp_of(backup_name(stamp)) == Some(stamp),
        stamp_of(restore_backup_name(stamp)) == Some(stamp),
{
    reveal_strlit("Avant restauration ");
    reveal_strlit(".json");
    let mark = "Avant restauration "@;
    let end = ".json"@;
    let plain = backup_name(stamp);
    assert(mark[0] == 'A');
    assert(plain[0] == stamp[0]);
    assert(is_digit(stamp[0]));
    assert(!mark.is_prefix_of(plain)) by {
        if mark.is_prefix_of(plain) {
            assert(mark[0] == plain.subrange(0, mark.len() as int)[0]);
        }
    }
    assert(plain.subrange(plain.len() - end.len(), plain.len() as int) == end);
    assert(plain.take(plain.len() - end.len()) == stamp);
    let marked = restore_backup_name(stamp);
    assert(marked.subrange(0, mark.len() as int) == mark);
    assert(marked.skip(mark.len() as int) == plain);
}

/// The name of a backup made at a stamp.
pub fn backup_file_name(stamp: &str) -> (r: String)
    ensures
        r@ == backup_name(stamp@),
{
    let mut out = text::owned(stamp);
    out.append(".json");
    out
}

/// The name of a backup made at a stamp, before a restore.
pub fn restore_backup_file_name(stamp: &str) -> (r: String)
    ensures
        r@ == restore_backup_name(stamp@),
{
    let mut out = text::owned("Avant restauration ");
    out.append(stamp);
    out.append(".json");
    out
}

/// Each backup is a file of the folder, under its own stamp.
pub proof fn versions_are_versioned(names: Seq<Seq<char>>)
    ensures
        forall|i: int|
            0 <= i < versions(names).len() ==> names.contains((#[trigger] versions(names)[i]).1)
                && stamp_of(versions(names)[i].1) == Some(versions(names)[i].0),
    decreases names.len(),
{
    let f = |name: Seq<char>| version_of(name);
    if names.len() > 0 {
        let init = names.drop_last();
        versions_are_versioned(init);
        assert(names.take(names.len() as int) == names);
        assert(names.take(names.len() - 1) == init);
        names.lemma_filter_map_take_succ(f, names.len() - 1);
        assert forall|i: int| 0 <= i < versions(names).len() implies names.contains(
            (#[trigger] versions(names)[i]).1,
        ) && stamp_of(versions(names)[i].1) == Some(versions(names)[i].0) by {
            if i < versions(init).len() {
                assert(versions(names)[i] == versions(init)[i]);
                let k = choose|k: int| 0 <= k < init.len() && init[k] == versions(init)[i].1;
                assert(names[k] == versions(init)[i].1);
            } else {
                assert(versions(names)[i].1 == names.last());
            }
        }
    }
}

/// Retention deletes only files of the folder that are backups.
pub proof fn only_backups_are_pruned(names: Seq<Seq<char>>, keep: nat, doomed: Seq<Seq<char>>)
    requires
        is_prune(names, keep, doomed),
    ensures
        forall|i: int|
            0 <= i < doomed.len() ==> names.contains(#[trigger] doomed[i]) && is_versioned(
                doomed[i],
            ),
{
    if keep != 0 {
        let all = versions(names);
        let sorted = choose|sorted: Seq<VersionView>| #[trigger]
            versions_in_order(all, sorted) && doomed == beyond(sorted, keep);
        crate::order::ordering_keeps_items(
            all,
            sorted,
            |a: VersionView, b: VersionView| version_le(a, b),
        );
        versions_are_versioned(names);
        assert forall|i: int| 0 <= i < doomed.len() implies names.contains(#[trigger] doomed[i])
            && is_versioned(doomed[i]) by {
            let v = sorted[keep + i];
            assert(doomed[i] == v.1);
            assert(sorted.contains(v));
            assert(all.contains(v));
            let k = choose|k: int| 0 <= k < all.len() && all[k] == v;
            assert(all[k].1 == doomed[i]);
        }
    }
}

/// Retention leaves the `keep` newest backups: all but that many are deleted,
/// and no backup that is left is older than one that is deleted.
pub proof fn newest_backups_are_kept(names: Seq<Seq<char>>, keep: nat, doomed: Seq<Seq<char>>)
    requires
        keep > 0,
        is_prune(names, keep, doomed),
    ensures
        doomed.len() == (if versions(names).len() > keep {
            versions(names).len() - keep
        } else {
            0
        }),
        exists|kept: Seq<VersionView>|
            kept.len() + doomed.len() == versions(names).len() && #[trigger] are_the_newest(
                kept,
                doomed,
            ) && (forall|v: VersionView|
                versions(names).contains(v) ==> #[trigger] kept.contains(v) || doomed.contains(
                    v.1,
                )),
{
    let all = versions(names);
    let sorted = choose|sorted: Seq<VersionView>| #[trigger]
        versions_in_order(all, sorted) && doomed == beyond(sorted, keep);
    crate::order::ordering_keeps_items(
        all,
        sorted,
        |a: VersionView, b: VersionView| version_le(a, b),
    );
    versions_are_versioned(names);
    let kept = if keep < sorted.len() {
        sorted.take(keep as int)
    } else {
        sorted
    };
    assert forall|v: VersionView| all.contains(v) implies #[trigger] kept.contains(v)
        || doomed.contains(v.1) by {
        assert(sorted.contains(v));
        let k = choose|k: int| 0 <= k < sorted.len() && sorted[k] == v;
        if k < kept.len() {
            assert(kept[k] == v);
        } else {
            assert(doomed[k - keep] == v.1);
        }
    }
    earlier_are_newer(names, sorted, keep, kept, doomed);
}

/// Where no name occurs twice, no backup does.
pub proof fn versions_are_distinct(names: Seq<Seq<char>>)
    requires
        names.no_duplicates(),
    ensures
        forall|i: int, j: int|
            0 <= i < j < versions(names).len() ==> (#[trigger] versions(names)[i]).1 != (
            #[trigger] versions(names)[j]).1,
    decreases names.len(),
{
    let f = |name: Seq<char>| version_of(name);
    if names.len() > 0 {
        let init = names.drop_last();
        assert(init.no_duplicates());
        versions_are_distinct(init);
        versions_are_versioned(init);
        assert(names.take(names.len() as int) == names);
        assert(names.take(names.len() - 1) == init);
        names.lemma_filter_map_take_succ(f, names.len() - 1);
        assert forall|i: int, j: int| 0 <= i < j < versions(names).len() implies (
        #[trigger] versions(names)[i]).1 != (#[trigger] versions(names)[j]).1 by {
            assert(versions(names)[i] == versions(init)[i]);
            if j < versions(init).len() {
                assert(versions(names)[j] == versions(init)[j]);
            } else {
                assert(versions(names)[j].1 == names.last());
                let k = choose|k: int| 0 <= k < init.len() && init[k] == versions(init)[i].1;
                assert(names[k] == versions(init)[i].1);
            }
        }
    }
}

/// A backup of a stamp has one of two names.
pub proof fn stamp_has_two_names(name: Seq<char>, stamp: Seq<char>)
    requires
        stamp_of(name) == Some(stamp),
    ensures
        name == backup_name(stamp) || name == restore_backup_name(stamp),
{
    let mark = "Avant restauration "@;
    let end = ".json"@;
    if mark.is_prefix_of(name) {
        let plain = name.skip(mark.len() as int);
        assert(name == mark + plain);
        assert(plain == stamp + end);
        assert(name == restore_backup_name(stamp));
    } else {
        assert(name == stamp + end);
    }
}

/// The backup that was just made survives retention: a file is not deleted
/// where no backup in the folder has a newer stamp. A second backup of the same
/// second is in the way only where a single one is kept and the other name
/// ranks first.
pub proof fn newest_backup_is_kept(
    names: Seq<Seq<char>>,
    keep: nat,
    doomed: Seq<Seq<char>>,
    name: Seq<char>,
)
    requires
        keep > 0,
        names.no_duplicates(),
        is_prune(names, keep, doomed),
        stamp_of(name) matches Some(stamp) ==> forall|other: Seq<char>| #[trigger]
            names.contains(other) && other != name && stamp_of(other) is Some ==> text_le(
                stamp_of(other)->Some_0,
                stamp,
            ) && (stamp_of(other)->Some_0 == stamp ==> keep >= 2 || text_le(other, name)),
    ensures
        !doomed.contains(name),
{
    if doomed.contains(name) {
        let all = versions(names);
        let le = |a: VersionView, b: VersionView| version_le(a, b);
        let sorted = choose|sorted: Seq<VersionView>| #[trigger]
            versions_in_order(all, sorted) && doomed == beyond(sorted, keep);
        let origin = choose|origin: Seq<int>|
            crate::order::ordered_from(all, sorted, le, origin);
        versions_are_versioned(names);
        versions_are_distinct(names);
        let j = choose|j: int| 0 <= j < doomed.len() && doomed[j] == name;
        let m = keep + j;
        assert(sorted[m].1 == name);
        assert(sorted[m] == all[origin[m]]);
        let stamp = sorted[m].0;
        assert(stamp_of(name) == Some(stamp));
        assert forall|i: int| 0 <= i < m implies (#[trigger] sorted[i]).0 == stamp && sorted[i].1
            != name && keep >= 2 by {
            assert(sorted[i] == all[origin[i]]);
            assert(origin[i] != origin[m]);
            let other = sorted[i].1;
            assert(names.contains(other));
            assert(stamp_of(other) == Some(sorted[i].0));
            assert(version_le(sorted[i], sorted[m]));
            if sorted[i].0 != stamp {
                text::text_le_antisymmetric(sorted[i].0, stamp);
            } else if keep < 2 {
                text::text_le_antisymmetric(other, name);
            }
        }
        assert(sorted[0].0 == stamp && sorted[1].0 == stamp);
        assert(sorted[0] == all[origin[0]] && sorted[1] == all[origin[1]]);
        assert(origin[0] != origin[1]);
        stamp_has_two_names(sorted[0].1, stamp);
        stamp_has_two_names(sorted[1].1, stamp);
        stamp_has_two_names(name, stamp);
    }
}

proof fn mark_has_no_bracket(k: int)
    ensures
        0 <= k < "Avant restauration "@.len() ==> "Avant restauration "@[k] != '(',
        0 <= k < ".json"@.len() ==> ".json"@[k] != '(',
{
    reveal_strlit("Avant restauration ");
    reveal_strlit(".json");
    if k < 6 {
    } else if k < 12 {
    } else {
    }
}

proof fn versioned_names_have_no_bracket(name: Seq<char>, k: int)
    requires
        is_versioned(name),
        0 <= k < name.len(),
    ensures
        name[k] != '(',
{
    let mark = "Avant restauration "@;
    let stamp = stamp_of(name)->Some_0;
    stamp_has_two_names(name, stamp);
    let at = if name == backup_name(stamp) {
        k
    } else {
        k - mark.len()
    };
    mark_has_no_bracket(k);
    mark_has_no_bracket(at - 19);
    if 0 <= at < 19 {
        assert(name[k] == stamp[at]);
    } else if at >= 19 {
        assert(name[k] == ".json"@[at - 19]);
    } else {
        assert(name[k] == mark[k]);
    }
}

/// A name that is tried for a backup has the stamp of the backup, or none that
/// retention would count.
pub proof fn backup_names_have_their_stamp(stamp: Seq<char>, attempt: nat)
    requires
        clock::is_stamp_text(stamp),
    ensures
        stamp_of(candidate(backup_name(stamp), attempt)) matches Some(found) ==> found == stamp,
{
    let name = candidate(backup_name(stamp), attempt);
    let mark = "Avant restauration "@;
    reveal_strlit("Avant restauration ");
    reveal_strlit(" (");
    if attempt <= 1 {
        let m = choose|m: clock::Moment| clock::is_moment(m) && stamp == #[trigger]
            clock::stamp_text(m);
        let year = clock::year_text(m.year);
        assert(year.len() > 0 && year[0] != 'A');
        assert(stamp[0] == year[0]);
        assert(!mark.is_prefix_of(name)) by {
            if mark.is_prefix_of(name) {
                assert(mark[0] == name.subrange(0, mark.len() as int)[0]);
            }
        }
        assert(name.take(name.len() - ".json"@.len()) == stamp);
    } else if is_versioned(name) {
        let k = numbered_stem(backup_name(stamp)).len() as int + 1;
        assert(name[k] == " ("@[1]);
        versioned_names_have_no_bracket(name, k);
    }
}

proof fn earlier_are_newer(
    names: Seq<Seq<char>>,
    sorted: Seq<VersionView>,
    keep: nat,
    kept: Seq<VersionView>,
    doomed: Seq<Seq<char>>,
)
    requires
        versions_in_order(versions(names), sorted),
        kept.len() <= keep,
        kept.len() <= sorted.len(),
        forall|i: int| 0 <= i < kept.len() ==> #[trigger] kept[i] == sorted[i],
        doomed == beyond(sorted, keep),
    ensures
        are_the_newest(kept, doomed),
{
    let all = versions(names);
    crate::order::ordering_keeps_items(
        all,
        sorted,
        |a: VersionView, b: VersionView| version_le(a, b),
    );
    versions_are_versioned(names);
    assert forall|i: int, j: int|
        0 <= i < kept.len() && 0 <= j < doomed.len() implies #[trigger] no_newer(
        doomed[j],
        kept[i],
    ) by {
        let v = sorted[keep + j];
        assert(sorted[i] == kept[i]);
        assert(doomed[j] == v.1);
        assert(version_le(sorted[i], v));
        assert(sorted.contains(v));
        assert(all.contains(v));
        let k = choose|k: int| 0 <= k < all.len() && all[k] == v;
        assert(stamp_of(all[k].1) == Some(all[k].0));
        if kept[i].0 == v.0 {
            text::text_le_total(v.0, v.0);
        }
    }
}

/// Is the deleted backup no newer than the kept one?
pub open spec fn no_newer(doomed: Seq<char>, kept: VersionView) -> bool {
    match stamp_of(doomed) {
        Some(stamp) => text_le(stamp, kept.0),
        None => false,
    }
}

/// No backup of `kept` is older than one of `doomed`.
pub open spec fn are_the_newest(kept: Seq<VersionView>, doomed: Seq<Seq<char>>) -> bool {
    forall|i: int, j: int|
        0 <= i < kept.len() && 0 <= j < doomed.len() ==> #[trigger] no_newer(doomed[j], kept[i])
}

// ---------------------------------------------------------------------------
// Listing
// ---------------------------------------------------------------------------

/// A profile of the folder.
#[derive(Debug)]
pub struct ProfileEntry {
    pub name: String,
    pub path: String,
    pub modified: String,
    pub size: u64,
}

/// A listed profile, as contracts speak of it.
pub struct ProfileEntryView {
    pub name: Seq<char>,
    pub path: Seq<char>,
    pub modified: Seq<char>,
    pub size: u64,
}

impl DeepView for ProfileEntry {
    type V = ProfileEntryView;

    open spec fn deep_view(&self) -> ProfileEntryView {
        ProfileEntryView {
            name: self.name@,
            path: self.path@,
            modified: self.modified@,
            size: self.size,
        }
    }
}

/// What was read of a file of the folder: whether it is a plain file, when it
/// was modified (seconds from 1970 and nanoseconds) and its size.
#[derive(Debug, Clone, Copy)]
pub struct FileFacts {
    pub is_file: bool,
    pub modified: Option<(i64, u32)>,
    pub size: u64,
}

/// An entry of the folder; its facts are missing where they could not be read.
#[derive(Debug)]
pub struct FolderEntry {
    pub name: String,
    pub path: String,
    pub facts: Option<FileFacts>,
}

/// Is the entry a profile: a plain file with the extension `json`?
pub open spec fn is_profile_file(entry: FolderEntry) -> bool {
    paths::extension(entry.name@) == Some("json"@) && entry.facts is Some
        && entry.facts->Some_0.is_file
}

/// Is `modified` the text of the time at which the file was modified? It is
/// empty where that is not known.
pub open spec fn is_modified_text(facts: FileFacts, modified: Seq<char>) -> bool {
    match facts.modified {
        None => modified.len() == 0,
        Some(time) => clock::is_local_text(time, modified),
    }
}

/// Is `listed` the row of the entry?
pub open spec fn is_listed_as(entry: FolderEntry, listed: ProfileEntryView) -> bool {
    listed.name == entry.name@ && listed.path == entry.path@ && listed.size
        == entry.facts->Some_0.size && is_modified_text(entry.facts->Some_0, listed.modified)
}

/// Was the first time not before the second? A time that is not known counts as
/// the oldest.
pub open spec fn newer_or_same(a: Option<(i64, u32)>, b: Option<(i64, u32)>) -> bool {
    match (a, b) {
        (_, None) => true,
        (None, Some(_)) => false,
        (Some(a), Some(b)) => a.0 > b.0 || (a.0 == b.0 && a.1 >= b.1),
    }
}

/// A row under the time at which its file was modified.
pub type DatedView = (Option<(i64, u32)>, ProfileEntryView);

/// Order of the list: last modified first.
pub open spec fn dated_le(a: DatedView, b: DatedView) -> bool {
    newer_or_same(a.0, b.0)
}

/// `rows` are the rows of the profiles among the entries, in the order of the
/// folder.
pub open spec fn are_rows_of(entries: Seq<FolderEntry>, rows: Seq<DatedView>) -> bool {
    let files = entries.filter(|entry: FolderEntry| is_profile_file(entry));
    &&& rows.len() == files.len()
    &&& forall|i: int|
        0 <= i < files.len() ==> (#[trigger] rows[i]).0 == files[i].facts->Some_0.modified
            && is_listed_as(files[i], rows[i].1)
}

/// `sorted` holds the rows, last modified first.
pub open spec fn rows_newest_first(rows: Seq<DatedView>, sorted: Seq<DatedView>) -> bool {
    stably_ordered(rows, sorted, |a: DatedView, b: DatedView| dated_le(a, b))
}

/// `listed` is the list of the profiles among the entries: one row for each,
/// last modified first, files of the same time in the order of the folder.
pub open spec fn is_profile_list(
    entries: Seq<FolderEntry>,
    listed: Seq<ProfileEntryView>,
) -> bool {
    exists|rows: Seq<DatedView>, sorted: Seq<DatedView>| #[trigger]
        are_rows_of(entries, rows) && #[trigger] rows_newest_first(rows, sorted) && listed
            == sorted.map_values(|row: DatedView| row.1)
}

struct Dated(Option<(i64, u32)>, ProfileEntry);

impl DeepView for Dated {
    type V = DatedView;

    closed spec fn deep_view(&self) -> DatedView {
        (self.0, self.1.deep_view())
    }
}

impl Ranked for Dated {
    open spec fn le(a: DatedView, b: DatedView) -> bool {
        dated_le(a, b)
    }

    proof fn le_total(a: DatedView, b: DatedView) {
    }

    proof fn le_transitive(a: DatedView, b: DatedView, c: DatedView) {
    }

    fn ranks_at_most(&self, other: &Self) -> (r: bool) {
        match (self.0, other.0) {
            (_, None) => true,
            (None, Some(_)) => false,
            (Some(a), Some(b)) => a.0 > b.0 || (a.0 == b.0 && a.1 >= b.1),
        }
    }
}

fn row_for(entry: &FolderEntry) -> (r: Option<Dated>)
    requires
        entry.facts is Some && entry.facts->Some_0.modified is Some ==> is_file_time(
            entry.facts->Some_0.modified->Some_0,
        ),
    ensures
        match r {
            Some(row) => is_profile_file(*entry) && row.0 == entry.facts->Some_0.modified
                && is_listed_as(*entry, row.1.deep_view()),
            None => !is_profile_file(*entry),
        },
{
    match paths::extension_of(entry.name.as_str()) {
        Some(ext) => {
            if !text::same(ext, "json") {
                return None;
            }
        },
        None => return None,
    }
    match entry.facts {
        None => None,
        Some(facts) => {
            if !facts.is_file {
                return None;
            }
            let modified = match facts.modified {
                None => String::new(),
                Some(time) => {
                    let (local, offset) = clock::local_text(time.0, time.1);
                    assert(local@ == rfc3339(time.0 as int, time.1 as int, offset as int));
                    local
                },
            };
            Some(
                Dated(
                    facts.modified,
                    ProfileEntry {
                        name: entry.name.clone(),
                        path: entry.path.clone(),
                        modified,
                        size: facts.size,
                    },
                ),
            )
        },
    }
}

/// Lists the profiles of the folder, last modified first. `listing` has the
/// entries of the folder, or the reason why it could not be opened.
pub fn list_profiles(listing: &Result<Vec<FolderEntry>, String>) -> (r: Result<
    Vec<ProfileEntry>,
    String,
>)
    requires
        *listing matches Ok(entries) ==> forall|i: int|
            0 <= i < entries@.len() && (#[trigger] entries@[i]).facts is Some
                && entries@[i].facts->Some_0.modified is Some ==> is_file_time(
                entries@[i].facts->Some_0.modified->Some_0,
            ),
    ensures
        match (r, *listing) {
            (Ok(listed), Ok(entries)) => is_profile_list(entries@, listed.deep_view()),
            (Err(message), Err(reason)) => message@
                == "Ouverture du dossier des profils impossible : "@ + reason@,
            _ => false,
        },
{
    match listing {
        Err(reason) => {
            let mut message = text::owned("Ouverture du dossier des profils impossible : ");
            message.append(reason.as_str());
            Err(message)
        },
        Ok(entries) => {
            let ghost f = |entry: FolderEntry| is_profile_file(entry);
            let mut rows: Vec<Dated> = Vec::new();
            let mut i: usize = 0;
            proof {
                reveal(Seq::filter);
                assert(entries@.take(0).filter(f).len() == 0);
            }
            while i < entries.len()
                invariant
                    i <= entries@.len(),
                    f == (|entry: FolderEntry| is_profile_file(entry)),
                    forall|j: int|
                        0 <= j < entries@.len() && (#[trigger] entries@[j]).facts is Some
                            && entries@[j].facts->Some_0.modified is Some ==> is_file_time(
                            entries@[j].facts->Some_0.modified->Some_0,
                        ),
                    rows@.len() == entries@.take(i as int).filter(f).len(),
                    forall|j: int|
                        0 <= j < rows@.len() ==> (#[trigger] rows@[j]).0 == entries@.take(
                            i as int,
                        ).filter(f)[j].facts->Some_0.modified && is_listed_as(
                            entries@.take(i as int).filter(f)[j],
                            rows@[j].1.deep_view(),
                        ),
                decreases entries@.len() - i,
            {
                proof {
                    assert(entries@.take(i + 1) == entries@.take(i as int).push(
                        entries@[i as int],
                    ));
                    entries@.take(i as int).lemma_filter_push(entries@[i as int], f);
                }
                match row_for(&entries[i]) {
                    Some(row) => rows.push(row),
                    None => {},
                }
                i += 1;
            }
            proof {
                assert(entries@.take(i as int) == entries@);
            }
            let ghost unsorted = rows.deep_view();
            proof {
                assert(are_rows_of(entries@, unsorted));
            }
            let sorted = stable_sort(rows);
            let ghost all = sorted@;
            proof {
                assert((|a: DatedView, b: DatedView| dated_le(a, b)) =~= (|
                    a: DatedView,
                    b: DatedView,
                | <Dated as Ranked>::le(a, b)));
                assert(rows_newest_first(unsorted, sorted.deep_view()));
            }
            let mut listed: Vec<ProfileEntry> = Vec::new();
            for row in it: sorted
                invariant
                    it.seq() == all,
                    listed@.len() == it.index(),
                    forall|j: int| 0 <= j < it.index() ==> #[trigger] listed@[j] == all[j].1,
            {
                listed.push(row.1);
            }
            assert(listed.deep_view() =~= sorted.deep_view().map_values(|row: DatedView| row.1));
            Ok(listed)
        },
    }
}

} // verus!
