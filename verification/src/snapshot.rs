//! The snapshot manager's part that computes: where the copy of each file
//! goes, and which copies make up the snapshot set.
//!
//! A backup is named after the file and the time of capture, so that
//! successive snapshots of one file never collide. Capturing is best
//! effort: a file whose copy could not be made is left out of the set.

use vstd::prelude::*;
use vstd::string::*;
use crate::models::{BackupPair, PairsView};
use crate::text::{decimal, decimal_digits, digit_char, lemma_mentions_empty, mentions};

verus! {

/// Calls `Path::file_name` on `path`. Trusted: the name, where there is
/// one, is the final component of the path and so a part of its text;
/// which part depends on the platform's path syntax.
#[verifier::external_body]
pub(crate) fn file_name_of(path: &str) -> (name: Option<String>)
    ensures
        name is Some ==> mentions(path@, name->0@),
{
    match std::path::Path::new(path).file_name() {
        Some(name) => Some(name.to_string_lossy().into_owned()),
        None => None,
    }
}

/// Calls `Path::join` to put `name` under the directory `dir`. Trusted:
/// nothing is claimed of the result, which depends on the platform.
#[verifier::external_body]
pub(crate) fn join_path(dir: &str, name: &str) -> (path: String) {
    std::path::Path::new(dir).join(name).to_string_lossy().into_owned()
}

/// How the copy of one file is captured.
#[derive(Clone, Copy, Debug, PartialEq, Eq, Structural)]
pub enum CaptureMethod {
    /// The live session saves a copy of its state, unsaved edits included.
    LiveCopy,
    /// The file on disk is copied.
    FileCopy,
}

/// Chooses how to capture a file: by the live session where one holds the
/// file, with its unsaved edits; by a copy of the file where none does.
pub fn capture_method(held_by_live_session: bool) -> (method: CaptureMethod)
    ensures
        method == if held_by_live_session {
            CaptureMethod::LiveCopy
        } else {
            CaptureMethod::FileCopy
        },
{
    if held_by_live_session {
        CaptureMethod::LiveCopy
    } else {
        CaptureMethod::FileCopy
    }
}

/// The name of the backup of the file called `file_name`, captured at
/// `timestamp`.
pub open spec fn backup_name(file_name: Seq<char>, timestamp: nat) -> Seq<char> {
    file_name + "."@ + decimal_digits(timestamp) + ".bak"@
}

/// Builds the name of a backup: the file's name, the time of capture in
/// decimal, and the extension `bak`, separated by dots.
pub fn backup_file_name(file_name: &str, timestamp: u128) -> (name: String)
    ensures
        name@ == backup_name(file_name@, timestamp as nat),
{
    let mut name = file_name.to_owned();
    name.append(".");
    name.append(decimal(timestamp).as_str());
    name.append(".bak");
    name
}

/// The display name of a file: the last component of its path, which is a
/// part of the path; the empty name where the path has no last component.
pub(crate) fn display_name(path: &str) -> (name: String)
    ensures
        mentions(path@, name@),
{
    proof { lemma_mentions_empty(path@); }
    name_or_empty(file_name_of(path))
}

/// The path of the backup of `path` under `backup_dir`, captured at `timestamp`.
fn backup_target(backup_dir: &str, path: &str, timestamp: u128) -> (target: String) {
    let name = display_name(path);
    let file = backup_file_name(name.as_str(), timestamp);
    join_path(backup_dir, file.as_str())
}

/// The name that was found, or the empty name where none was.
pub fn name_or_empty(found: Option<String>) -> (name: String)
    ensures
        name@ == match found {
            Some(n) => n@,
            None => Seq::<char>::empty(),
        },
{
    match found {
        Some(name) => name,
        None => String::new(),
    }
}

/// Plans a snapshot of `paths`: one candidate pair per path, in order, each
/// made of the path and the place of its backup under `backup_dir`.
pub fn plan_snapshots(paths: &Vec<String>, backup_dir: &str, timestamp: u128) -> (candidates: Vec<
    BackupPair,
>)
    ensures
        candidates.len() == paths.len(),
        forall|i: int| 0 <= i < paths.len() ==> (#[trigger] candidates[i]).0@ == paths[i]@,
{
    let mut candidates: Vec<BackupPair> = Vec::new();
    let mut i: usize = 0;
    while i < paths.len()
        invariant
            i <= paths.len(),
            candidates.len() == i,
            forall|k: int| 0 <= k < i ==> (#[trigger] candidates[k]).0@ == paths[k]@,
        decreases paths.len() - i,
    {
        let target = backup_target(backup_dir, paths[i].as_str(), timestamp);
        candidates.push((paths[i].clone(), target));
        i += 1;
    }
    candidates
}

/// The candidates whose copy was made, in order. A candidate without a flag
/// counts as not captured.
pub open spec fn captured_pairs(candidates: PairsView, captured: Seq<bool>) -> PairsView
    decreases candidates.len(),
{
    if candidates.len() == 0 {
        Seq::empty()
    } else {
        let earlier = captured_pairs(candidates.drop_last(), captured);
        let last = candidates.len() - 1;
        if last < captured.len() && captured[last] {
            earlier.push(candidates.last())
        } else {
            earlier
        }
    }
}

/// Keeps the candidates whose copy was made: the snapshot set. A file that
/// could not be backed up is left out, which never fails the snapshot.
pub fn keep_captured(candidates: Vec<BackupPair>, captured: &Vec<bool>) -> (pairs: Vec<BackupPair>)
    ensures
        pairs.deep_view() == captured_pairs(candidates.deep_view(), captured@),
{
    let ghost all = candidates.deep_view();
    let mut candidates = candidates;
    let mut pairs: Vec<BackupPair> = Vec::new();
    let mut i: usize = 0;
    let n = candidates.len();
    assert(all.take(0) =~= Seq::empty());
    assert(pairs.deep_view() =~= Seq::empty());
    while i < n
        invariant
            i <= n,
            n == candidates.len(),
            all == candidates.deep_view(),
            pairs.deep_view() == captured_pairs(all.take(i as int), captured@),
        decreases n - i,
    {
        let ghost before = pairs.deep_view();
        let ghost prefix = all.take(i + 1);
        assert(prefix.drop_last() =~= all.take(i as int));
        assert(prefix.last() == all[i as int]);
        if i < captured.len() && captured[i] {
            let pair = (candidates[i].0.clone(), candidates[i].1.clone());
            pairs.push(pair);
            assert(pairs.deep_view() =~= before.push(all[i as int]));
        }
        i += 1;
    }
    assert(all.take(n as int) =~= all);
    pairs
}

/// The paths of the candidates whose copy was not made, in order.
pub open spec fn skipped_paths(candidates: PairsView, captured: Seq<bool>) -> Seq<Seq<char>>
    decreases candidates.len(),
{
    if candidates.len() == 0 {
        Seq::empty()
    } else {
        let earlier = skipped_paths(candidates.drop_last(), captured);
        let last = candidates.len() - 1;
        if last < captured.len() && captured[last] {
            earlier
        } else {
            earlier.push(candidates.last().0)
        }
    }
}

/// Lists the files that could not be backed up, for the operation's log.
pub fn list_skipped(candidates: &Vec<BackupPair>, captured: &Vec<bool>) -> (skipped: Vec<String>)
    ensures
        skipped.deep_view() == skipped_paths(candidates.deep_view(), captured@),
{
    let ghost all = candidates.deep_view();
    let mut skipped: Vec<String> = Vec::new();
    let mut i: usize = 0;
    assert(all.take(0) =~= Seq::empty());
    assert(skipped.deep_view() =~= Seq::empty());
    while i < candidates.len()
        invariant
            i <= candidates.len(),
            all == candidates.deep_view(),
            skipped.deep_view() == skipped_paths(all.take(i as int), captured@),
        decreases candidates.len() - i,
    {
        let ghost before = skipped.deep_view();
        let ghost prefix = all.take(i + 1);
        assert(prefix.drop_last() =~= all.take(i as int));
        assert(prefix.last() == all[i as int]);
        if !(i < captured.len() && captured[i]) {
            skipped.push(candidates[i].0.clone());
            assert(skipped.deep_view() =~= before.push(all[i as int].0));
        }
        i += 1;
    }
    assert(all.take(i as int) =~= all);
    skipped
}

/// A number has at least one decimal digit.
pub proof fn lemma_decimal_not_empty(n: nat)
    ensures
        decimal_digits(n).len() >= 1,
    decreases n,
{
    if n >= 10 {
        lemma_decimal_not_empty(n / 10);
    }
}

/// Two numbers with the same decimal digits are the same number.
pub proof fn lemma_decimal_injective(a: nat, b: nat)
    requires
        decimal_digits(a) == decimal_digits(b),
    ensures
        a == b,
    decreases a,
{
    let da = decimal_digits(a);
    let db = decimal_digits(b);
    if a < 10 && b < 10 {
        assert(da[0] == digit_char(a));
        assert(db[0] == digit_char(b));
    } else if a < 10 {
        lemma_decimal_not_empty(b / 10);
        assert(db.len() >= 2);
    } else if b < 10 {
        lemma_decimal_not_empty(a / 10);
        assert(da.len() >= 2);
    } else {
        let pa = decimal_digits(a / 10);
        let pb = decimal_digits(b / 10);
        assert(da.drop_last() =~= pa);
        assert(db.drop_last() =~= pb);
        assert(da.last() == digit_char(a % 10));
        assert(db.last() == digit_char(b % 10));
        lemma_decimal_injective(a / 10, b / 10);
    }
}

/// Successive snapshots never collide: the backups of one file captured at
/// two different times have different names.
pub proof fn lemma_backup_names_differ(file_name: Seq<char>, first: nat, second: nat)
    requires
        first != second,
    ensures
        backup_name(file_name, first) != backup_name(file_name, second),
{
    let a = decimal_digits(first);
    let b = decimal_digits(second);
    let head = file_name + "."@;
    let na = backup_name(file_name, first);
    let nb = backup_name(file_name, second);
    if na == nb {
        assert(na.len() == head.len() + a.len() + ".bak"@.len());
        assert(nb.len() == head.len() + b.len() + ".bak"@.len());
        assert(a.len() == b.len());
        assert forall|i: int| 0 <= i < a.len() implies a[i] == b[i] by {
            assert(na[head.len() + i] == a[i]);
            assert(nb[head.len() + i] == b[i]);
        }
        assert(a =~= b);
        lemma_decimal_injective(first, second);
    }
}

} // verus!
