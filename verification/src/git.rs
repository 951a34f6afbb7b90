//! Git state: the porcelain v2 status format, and how the statuses of one path
//! combine.

use vstd::prelude::*;
use vstd::string::*;

use crate::bytes::{copy_range, pieces_view, split, split_at_most, split_bytes, split_bytes_at_most};
use crate::path::{
    copy_option_path, join_paths, joined_bytes, option_view, option_written, parse_path, Component,
    Part, PathBuf,
};
use crate::text::{decimal, decimal_string};

verus! {

/// Default maximum number of changes in one snapshot, and of children loaded
/// from one directory.
pub const DEFAULT_ENTRY_CAP: usize = 10_000;

#[derive(Debug, Clone, Copy, PartialEq, Eq, Hash, Structural)]
pub enum GitStatus {
    Modified,
    Added,
    Deleted,
    Renamed,
    Conflict,
    Untracked,
}

#[derive(Debug, Clone, Copy, PartialEq, Eq)]
pub struct GitDecoration {
    pub status: Option<GitStatus>,
    pub dirty_descendant: bool,
}

impl Default for GitDecoration {
    fn default() -> (decoration: GitDecoration)
        ensures
            decoration == no_decoration(),
    {
        GitDecoration { status: None, dirty_descendant: false }
    }
}

/// The decoration of a path that Git says nothing about.
pub open spec fn no_decoration() -> GitDecoration {
    GitDecoration { status: None, dirty_descendant: false }
}

#[derive(Debug, Clone, PartialEq, Eq)]
pub struct GitChange {
    /// Workspace-relative path, with its bytes as they came.
    pub path: PathBuf,
    pub original_path: Option<PathBuf>,
    pub status: GitStatus,
}

/// What a [`GitChange`] is, as a value.
pub struct Change {
    pub path: Seq<Part>,
    /// The bytes that the path is written with.
    pub text: Seq<u8>,
    pub original_path: Option<Seq<Part>>,
    pub original_text: Option<Seq<u8>>,
    pub status: GitStatus,
}

impl View for GitChange {
    type V = Change;

    open spec fn view(&self) -> Change {
        Change {
            path: self.path@,
            text: self.path.written(),
            original_path: option_view(self.original_path),
            original_text: option_written(self.original_path),
            status: self.status,
        }
    }
}

/// The changes in a list.
pub open spec fn changes_view(changes: Seq<GitChange>) -> Seq<Change> {
    changes.map_values(|change: GitChange| change@)
}

impl GitChange {
    /// A copy.
    pub fn duplicate(&self) -> (copy: GitChange)
        ensures
            copy@ == self@,
    {
        GitChange {
            path: self.path.duplicate(),
            original_path: copy_option_path(&self.original_path),
            status: self.status,
        }
    }
}

/// Which of two statuses of one path is shown: the higher one.
pub open spec fn priority_of(status: GitStatus) -> nat {
    match status {
        GitStatus::Conflict => 6,
        GitStatus::Deleted => 5,
        GitStatus::Renamed => 4,
        GitStatus::Added => 3,
        GitStatus::Modified => 2,
        GitStatus::Untracked => 1,
    }
}

/// The status shown for a path that had `existing` and is reported `incoming`.
pub open spec fn merged(existing: Option<GitStatus>, incoming: GitStatus) -> GitStatus {
    match existing {
        Some(status) => if priority_of(status) >= priority_of(incoming) {
            status
        } else {
            incoming
        },
        None => incoming,
    }
}

fn priority(status: GitStatus) -> (priority: u8)
    ensures
        priority == priority_of(status),
{
    match status {
        GitStatus::Conflict => 6,
        GitStatus::Deleted => 5,
        GitStatus::Renamed => 4,
        GitStatus::Added => 3,
        GitStatus::Modified => 2,
        GitStatus::Untracked => 1,
    }
}

/// Combines the status that a path already has with one more.
pub fn merge_status(existing: Option<GitStatus>, incoming: GitStatus) -> (status: GitStatus)
    ensures
        status == merged(existing, incoming),
{
    match existing {
        Some(status) => if priority(status) >= priority(incoming) {
            status
        } else {
            incoming
        },
        None => incoming,
    }
}

/// The order in which two statuses of one path are reported does not matter,
/// and reporting one twice adds nothing.
pub proof fn law_merge_order(existing: Option<GitStatus>, first: GitStatus, second: GitStatus)
    ensures
        merged(Some(merged(existing, first)), second) == merged(
            Some(merged(existing, second)),
            first,
        ),
        merged(Some(merged(existing, first)), first) == merged(existing, first),
        priority_of(merged(existing, first)) >= priority_of(first),
{
}


/// The status that a pair of index and worktree letters stands for.
pub open spec fn xy_status(xy: Seq<u8>) -> Result<GitStatus, Seq<char>> {
    if xy.len() != 2 {
        Err("malformed porcelain v2 XY status"@)
    } else if xy.contains(0x55u8) || xy == seq![0x41u8, 0x41u8] || xy == seq![0x44u8, 0x44u8] {
        Ok(GitStatus::Conflict)
    } else if xy.contains(0x44u8) {
        Ok(GitStatus::Deleted)
    } else if xy.contains(0x52u8) || xy.contains(0x43u8) {
        Ok(GitStatus::Renamed)
    } else if xy.contains(0x41u8) {
        Ok(GitStatus::Added)
    } else if xy.contains(0x4du8) || xy.contains(0x54u8) {
        Ok(GitStatus::Modified)
    } else {
        Err("porcelain record has no recognized status"@)
    }
}

/// The value and the message of a result.
pub open spec fn status_result(result: Result<GitStatus, String>) -> Result<GitStatus, Seq<char>> {
    match result {
        Ok(status) => Ok(status),
        Err(message) => Err(message@),
    }
}

/// Whether one of the two letters is `letter`.
fn either_is(xy: &Vec<u8>, letter: u8) -> (found: bool)
    requires
        xy@.len() == 2,
    ensures
        found == xy@.contains(letter),
{
    proof {
        if xy@[0] == letter {
        } else if xy@[1] == letter {
        } else {
            assert forall|i: int| 0 <= i < xy@.len() implies xy@[i] != letter by {}
        }
    }
    xy[0] == letter || xy[1] == letter
}

/// Reads the two status letters of a record.
pub fn status_from_xy(xy: &Vec<u8>) -> (status: Result<GitStatus, String>)
    ensures
        status_result(status) == xy_status(xy@),
{
    if xy.len() != 2 {
        return Err("malformed porcelain v2 XY status".to_owned());
    }
    let both_added = xy[0] == 0x41 && xy[1] == 0x41;
    let both_deleted = xy[0] == 0x44 && xy[1] == 0x44;
    assert(both_added == (xy@ =~= seq![0x41u8, 0x41u8]));
    assert(both_deleted == (xy@ =~= seq![0x44u8, 0x44u8]));
    if either_is(xy, 0x55) || both_added || both_deleted {
        Ok(GitStatus::Conflict)
    } else if either_is(xy, 0x44) {
        Ok(GitStatus::Deleted)
    } else if either_is(xy, 0x52) || either_is(xy, 0x43) {
        Ok(GitStatus::Renamed)
    } else if either_is(xy, 0x41) {
        Ok(GitStatus::Added)
    } else if either_is(xy, 0x4d) || either_is(xy, 0x54) {
        Ok(GitStatus::Modified)
    } else {
        Err("porcelain record has no recognized status".to_owned())
    }
}

/// The `count` space-separated fields of a record, of which the last may hold
/// spaces. `None` when there are fewer or one of them is empty.
pub open spec fn record_fields(record: Seq<u8>, count: nat) -> Option<Seq<Seq<u8>>> {
    let fields = split_at_most(record, 0x20, count);
    if fields.len() != count || exists|i: int| 0 <= i < fields.len() && #[trigger] fields[i].len()
        == 0 {
        None
    } else {
        Some(fields)
    }
}

/// Splits a record into exactly `count` non-empty fields.
pub fn split_n_fields(record: &Vec<u8>, count: usize) -> (fields: Result<Vec<Vec<u8>>, String>)
    ensures
        match fields {
            Ok(fields) => record_fields(record@, count as nat) == Some(pieces_view(fields@)),
            Err(message) => record_fields(record@, count as nat) is None && message@
                == "malformed porcelain v2 record"@,
        },
{
    let fields = split_bytes_at_most(record.as_slice(), 0x20, count);
    let ghost view = split_at_most(record@, 0x20, count as nat);
    assert(fields@.len() == view.len());
    if fields.len() != count {
        return Err("malformed porcelain v2 record".to_owned());
    }
    let mut i: usize = 0;
    while i < fields.len()
        invariant
            i <= fields@.len(),
            view == pieces_view(fields@),
            view == split_at_most(record@, 0x20, count as nat),
            forall|j: int| 0 <= j < i ==> #[trigger] view[j].len() != 0,
        decreases fields@.len() - i,
    {
        if fields[i].len() == 0 {
            assert(view[i as int].len() == 0);
            return Err("malformed porcelain v2 record".to_owned());
        }
        assert(view[i as int] == fields@[i as int]@);
        i += 1;
    }
    Ok(fields)
}

/// Whether a record is empty or a header or an ignored path.
pub open spec fn is_ignored(record: Seq<u8>) -> bool {
    ||| record.len() == 0
    ||| record.len() >= 2 && record[1] == 0x20 && (record[0] == 0x23 || record[0] == 0x21)
}

fn ignored(record: &Vec<u8>) -> (ignored: bool)
    ensures
        ignored == is_ignored(record@),
{
    record.len() == 0 || (record.len() >= 2 && record[1] == 0x20 && (record[0] == 0x23 || record[0]
        == 0x21))
}

/// Whether a record is followed by the path that it was renamed or copied from.
pub open spec fn has_original(record: Seq<u8>) -> bool {
    record[0] == 0x32
}

/// A change without an original path, or the message of its status.
pub open spec fn plain_change(path: Seq<u8>, status: Result<GitStatus, Seq<char>>) -> Result<
    Change,
    Seq<char>,
> {
    match status {
        Ok(status) => Ok(
            Change {
                path: parse_path(path),
                text: path,
                original_path: None,
                original_text: None,
                status,
            },
        ),
        Err(message) => Err(message),
    }
}

/// The change that a record reports. `next` is the piece behind it.
pub open spec fn record_change(record: Seq<u8>, next: Option<Seq<u8>>) -> Result<
    Change,
    Seq<char>,
> {
    let kind = record[0];
    if kind == 0x31 {
        match record_fields(record, 9) {
            Some(fields) => plain_change(fields[8], xy_status(fields[1])),
            None => Err("malformed porcelain v2 record"@),
        }
    } else if kind == 0x32 {
        match record_fields(record, 10) {
            Some(fields) => match next {
                Some(original) => match xy_status(fields[1]) {
                    Ok(status) => Ok(
                        Change {
                            path: parse_path(fields[9]),
                            text: fields[9],
                            original_path: Some(parse_path(original)),
                            original_text: Some(original),
                            status,
                        },
                    ),
                    Err(message) => Err(message),
                },
                None => Err("rename record is missing original path"@),
            },
            None => Err("malformed porcelain v2 record"@),
        }
    } else if kind == 0x75 {
        match record_fields(record, 11) {
            Some(fields) => plain_change(fields[10], Ok(GitStatus::Conflict)),
            None => Err("malformed porcelain v2 record"@),
        }
    } else if kind == 0x3f {
        if record.len() >= 2 && record[1] == 0x20 {
            plain_change(record.skip(2), Ok(GitStatus::Untracked))
        } else {
            Err("malformed untracked record"@)
        }
    } else {
        Err("unsupported porcelain v2 record type: "@ + decimal(kind as nat))
    }
}

/// `first` before the changes of `rest`.
pub open spec fn prepend(first: Seq<Change>, rest: Result<Seq<Change>, Seq<char>>) -> Result<
    Seq<Change>,
    Seq<char>,
> {
    match rest {
        Ok(rest) => Ok(first + rest),
        Err(message) => Err(message),
    }
}

/// The message about a snapshot with too many changes.
pub open spec fn change_cap_message(cap: nat) -> Seq<char> {
    "git change cap reached ("@ + decimal(cap) + ")"@
}

/// The changes that the records report, when `found` of them were reported
/// before. The first record that is malformed, or that goes over the cap,
/// decides the message.
pub open spec fn records_changes(records: Seq<Seq<u8>>, cap: nat, found: nat) -> Result<
    Seq<Change>,
    Seq<char>,
>
    decreases records.len(),
{
    if records.len() == 0 {
        Ok(seq![])
    } else if is_ignored(records[0]) {
        records_changes(records.skip(1), cap, found)
    } else if found >= cap {
        Err(change_cap_message(cap))
    } else {
        let next = if records.len() > 1 {
            Some(records[1])
        } else {
            None
        };
        let used = if has_original(records[0]) && records.len() > 1 {
            2int
        } else {
            1int
        };
        match record_change(records[0], next) {
            Ok(change) => prepend(
                seq![change],
                records_changes(records.skip(used), cap, found + 1),
            ),
            Err(message) => Err(message),
        }
    }
}

/// The changes in the output of `git status --porcelain=v2 -z`.
pub open spec fn porcelain_changes(output: Seq<u8>, cap: nat) -> Result<Seq<Change>, Seq<char>> {
    records_changes(split(output, 0), cap, 0)
}

/// The changes and the message of a result.
pub open spec fn changes_result(result: Result<Vec<GitChange>, String>) -> Result<
    Seq<Change>,
    Seq<char>,
> {
    match result {
        Ok(changes) => Ok(changes_view(changes@)),
        Err(message) => Err(message@),
    }
}

fn change_result_of(
    path: &Vec<u8>,
    original: Option<&Vec<u8>>,
    status: Result<GitStatus, String>,
) -> (change: Result<GitChange, String>)
    ensures
        match (status, change) {
            (Ok(status), Ok(change)) => change@ == (Change {
                path: parse_path(path@),
                text: path@,
                original_path: match original {
                    Some(original) => Some(parse_path(original@)),
                    None => None,
                },
                original_text: match original {
                    Some(original) => Some(original@),
                    None => None,
                },
                status,
            }),
            (Err(message), Err(reported)) => reported@ == message@,
            _ => false,
        },
{
    match status {
        Ok(status) => Ok(
            GitChange {
                path: PathBuf::from_bytes(path.as_slice()),
                original_path: match original {
                    Some(original) => Some(PathBuf::from_bytes(original.as_slice())),
                    None => None,
                },
                status,
            },
        ),
        Err(message) => Err(message),
    }
}

/// Reads one record. `next` is the piece behind it.
pub fn parse_record(record: &Vec<u8>, next: Option<&Vec<u8>>) -> (change: Result<GitChange, String>)
    requires
        record@.len() > 0,
    ensures
        (match change {
            Ok(change) => Ok(change@),
            Err(message) => Err(message@),
        }) == record_change(
            record@,
            match next {
                Some(next) => Some(next@),
                None => None,
            },
        ),
{
    let kind: u8 = record[0];
    if kind == 0x31 {
        let fields = match split_n_fields(record, 9) {
            Ok(fields) => fields,
            Err(message) => return Err(message),
        };
        assert(pieces_view(fields@)[8] == fields@[8]@);
        assert(pieces_view(fields@)[1] == fields@[1]@);
        change_result_of(&fields[8], None, status_from_xy(&fields[1]))
    } else if kind == 0x32 {
        let fields = match split_n_fields(record, 10) {
            Ok(fields) => fields,
            Err(message) => return Err(message),
        };
        assert(pieces_view(fields@)[9] == fields@[9]@);
        assert(pieces_view(fields@)[1] == fields@[1]@);
        match next {
            Some(original) => change_result_of(
                &fields[9],
                Some(original),
                status_from_xy(&fields[1]),
            ),
            None => Err("rename record is missing original path".to_owned()),
        }
    } else if kind == 0x75 {
        let fields = match split_n_fields(record, 11) {
            Ok(fields) => fields,
            Err(message) => return Err(message),
        };
        assert(pieces_view(fields@)[10] == fields@[10]@);
        change_result_of(&fields[10], None, Ok(GitStatus::Conflict))
    } else if kind == 0x3f {
        if record.len() >= 2 && record[1] == 0x20 {
            let path = copy_range(record.as_slice(), 2, record.len());
            assert(path@ =~= record@.skip(2));
            change_result_of(&path, None, Ok(GitStatus::Untracked))
        } else {
            Err("malformed untracked record".to_owned())
        }
    } else {
        let mut message = "unsupported porcelain v2 record type: ".to_owned();
        message.append(decimal_string(kind as u128).as_str());
        Err(message)
    }
}

/// Reads the output of `git status --porcelain=v2 -z`, of which at most `cap`
/// changes are accepted.
pub fn parse_git_porcelain_v2_capped(output: &[u8], cap: usize) -> (changes: Result<
    Vec<GitChange>,
    String,
>)
    ensures
        changes_result(changes) == porcelain_changes(output@, cap as nat),
{
    let pieces = split_bytes(output, 0);
    let ghost records = split(output@, 0);
    let mut changes: Vec<GitChange> = Vec::new();
    let mut i: usize = 0;
    proof {
        assert(records.skip(0) =~= records);
        lemma_prepend_nothing(records_changes(records, cap as nat, 0));
        assert(changes_view(changes@) =~= Seq::<Change>::empty());
    }
    while i < pieces.len()
        invariant
            i <= pieces@.len(),
            records == pieces_view(pieces@),
            records == split(output@, 0),
            prepend(
                changes_view(changes@),
                records_changes(records.skip(i as int), cap as nat, changes@.len()),
            ) == porcelain_changes(output@, cap as nat),
        decreases pieces@.len() - i,
    {
        let ghost rest = records.skip(i as int);
        assert(rest[0] == pieces@[i as int]@);
        assert(rest.skip(1) =~= records.skip(i + 1));
        if ignored(&pieces[i]) {
            i += 1;
            continue ;
        }
        if changes.len() >= cap {
            let mut message = "git change cap reached (".to_owned();
            message.append(decimal_string(cap as u128).as_str());
            message.append(")");
            return Err(message);
        }
        let next: Option<&Vec<u8>> = if i + 1 < pieces.len() {
            assert(rest[1] == pieces@[i + 1]@);
            Some(&pieces[i + 1])
        } else {
            None
        };
        let change = match parse_record(&pieces[i], next) {
            Ok(change) => change,
            Err(message) => return Err(message),
        };
        let two = pieces[i][0] == 0x32 && i + 1 < pieces.len();
        let ghost before = changes_view(changes@);
        changes.push(change);
        proof {
            assert(changes_view(changes@) =~= before.push(change@));
            let used: int = if two {
                2
            } else {
                1
            };
            assert(rest.skip(used) =~= records.skip(i + used));
            lemma_prepend_twice(
                before,
                change@,
                records_changes(records.skip(i + used), cap as nat, (before.len() + 1) as nat),
            );
        }
        i += 1;
        if two {
            i += 1;
        }
    }
    proof {
        assert(records.skip(i as int) =~= Seq::<Seq<u8>>::empty());
        assert(changes_view(changes@) + Seq::<Change>::empty() =~= changes_view(changes@));
    }
    Ok(changes)
}

proof fn lemma_prepend_nothing(rest: Result<Seq<Change>, Seq<char>>)
    ensures
        prepend(Seq::<Change>::empty(), rest) == rest,
{
    if let Ok(rest) = rest {
        assert(Seq::<Change>::empty() + rest =~= rest);
    }
}

proof fn lemma_prepend_twice(first: Seq<Change>, one: Change, rest: Result<Seq<Change>, Seq<char>>)
    ensures
        prepend(first, prepend(seq![one], rest)) == prepend(first.push(one), rest),
{
    if let Ok(rest) = rest {
        assert(first + (seq![one] + rest) =~= first.push(one) + rest);
    }
}

/// Reads the output of `git status --porcelain=v2 -z` under the default cap.
///
/// Rename and copy records take the piece behind them as the original path.
pub fn parse_git_porcelain_v2(output: &[u8]) -> (changes: Result<Vec<GitChange>, String>)
    ensures
        changes_result(changes) == porcelain_changes(output@, DEFAULT_ENTRY_CAP as nat),
{
    parse_git_porcelain_v2_capped(output, DEFAULT_ENTRY_CAP)
}

/// No snapshot that is read holds more changes than its cap.
pub proof fn law_snapshot_within_cap(output: Seq<u8>, cap: nat)
    ensures
        porcelain_changes(output, cap) matches Ok(changes) ==> changes.len() <= cap,
{
    lemma_records_within_cap(split(output, 0), cap, 0);
}

proof fn lemma_records_within_cap(records: Seq<Seq<u8>>, cap: nat, found: nat)
    requires
        found <= cap,
    ensures
        records_changes(records, cap, found) matches Ok(changes) ==> found + changes.len() <= cap,
    decreases records.len(),
{
    if records.len() == 0 {
    } else if is_ignored(records[0]) {
        lemma_records_within_cap(records.skip(1), cap, found);
    } else if found < cap {
        let used = if has_original(records[0]) && records.len() > 1 {
            2int
        } else {
            1int
        };
        lemma_records_within_cap(records.skip(used), cap, found + 1);
    }
}

/// A larger cap reads the same changes.
pub proof fn law_larger_cap_reads_the_same(output: Seq<u8>, cap: nat, larger: nat)
    requires
        cap <= larger,
        porcelain_changes(output, cap) is Ok,
    ensures
        porcelain_changes(output, larger) == porcelain_changes(output, cap),
{
    lemma_larger_cap(split(output, 0), cap, larger, 0);
}

proof fn lemma_larger_cap(records: Seq<Seq<u8>>, cap: nat, larger: nat, found: nat)
    requires
        cap <= larger,
        records_changes(records, cap, found) is Ok,
    ensures
        records_changes(records, larger, found) == records_changes(records, cap, found),
    decreases records.len(),
{
    if records.len() == 0 {
    } else if is_ignored(records[0]) {
        lemma_larger_cap(records.skip(1), cap, larger, found);
    } else {
        let used = if has_original(records[0]) && records.len() > 1 {
            2int
        } else {
            1int
        };
        lemma_larger_cap(records.skip(used), cap, larger, found + 1);
    }
}

/// Whether a path has only names, and perhaps a leading `.`.
pub open spec fn is_plain_relative(path: Seq<Part>) -> bool {
    path.len() > 0 && forall|i: int|
        0 <= i < path.len() ==> (#[trigger] path[i] is Normal || path[i] is CurDir)
}

/// Where a workspace-relative path lies below `root`. Paths that are empty,
/// absolute or step upwards lie nowhere.
pub open spec fn safe_joined(root: Seq<Part>, relative: Seq<Part>) -> Option<Seq<Part>> {
    if is_plain_relative(relative) {
        Some(join_paths(root, relative))
    } else {
        None
    }
}

/// Joins a workspace-relative path to the root.
pub fn safe_join(root: &PathBuf, relative: &PathBuf) -> (joined: Option<PathBuf>)
    ensures
        option_view(joined) == safe_joined(root@, relative@),
        joined matches Some(joined) ==> joined.written() == joined_bytes(
            root.written(),
            relative.written(),
        ),
{
    if relative.count() == 0 {
        return None;
    }
    let mut i: usize = 0;
    while i < relative.count()
        invariant
            i <= relative@.len(),
            forall|j: int| 0 <= j < i ==> (#[trigger] relative@[j] is Normal || relative@[j] is CurDir),
        decreases relative@.len() - i,
    {
        let plain = match relative.component(i) {
            Component::Normal(_) => true,
            Component::CurDir => true,
            _ => false,
        };
        if !plain {
            assert(!(relative@[i as int] is Normal || relative@[i as int] is CurDir));
            return None;
        }
        i += 1;
    }
    Some(root.join(relative))
}

/// A path that is joined safely stays below the root.
pub proof fn law_safe_join_stays_under_root(root: Seq<Part>, relative: Seq<Part>)
    ensures
        safe_joined(root, relative) matches Some(joined) ==> crate::path::is_under(joined, root),
{
    if is_plain_relative(relative) {
        let joined = join_paths(root, relative);
        assert(relative[0] is Normal || relative[0] is CurDir);
        assert(joined.take(root.len() as int) =~= root);
    }
}

} // verus!
