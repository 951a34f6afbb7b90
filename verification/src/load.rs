//! Listing a directory: which entries are shown, as what, and in what order.

use vstd::prelude::*;
use vstd::string::*;

use crate::bytes::{bytes_before, bytes_less};
use crate::listing::{
    entries_of, entries_view, entry_paths, lie_below, EntryView, ListingView, LoadedDirectory,
    LoadedEntry,
};
use crate::path::{
    child_path, dot_git, holds_path, is_dot_git_name, is_under, joined_bytes, option_spelled,
    parent_of, paths_view, plain_paths, spelled_paths, Part, PathBuf, WrittenPath,
};
use crate::text::{failure, failure_text, join2, lossy_text};
use crate::tree::EntryKind;

verus! {

/// What the file system says about a directory entry.
#[derive(Debug, PartialEq, Eq)]
pub enum FileType {
    /// A link: where it leads once everything is resolved, and whether that is
    /// a directory. The second is only asked for when the target lies in the
    /// workspace.
    Symlink { target: Result<PathBuf, String>, directory: Result<bool, String> },
    /// A directory, and its resolved path as far as it could be had.
    Directory { canonical: Option<PathBuf> },
    File,
    Other,
}

/// What a [`FileType`] is, as a value.
pub enum FileTypeView {
    Symlink { target: Result<WrittenPath, Seq<char>>, directory: Result<bool, Seq<char>> },
    Directory { canonical: Option<WrittenPath> },
    File,
    Other,
}

impl View for FileType {
    type V = FileTypeView;

    open spec fn view(&self) -> FileTypeView {
        match *self {
            FileType::Symlink { target, directory } => FileTypeView::Symlink {
                target: match target {
                    Ok(target) => Ok(target.spelled()),
                    Err(error) => Err(error@),
                },
                directory: match directory {
                    Ok(directory) => Ok(directory),
                    Err(error) => Err(error@),
                },
            },
            FileType::Directory { canonical } => FileTypeView::Directory {
                canonical: option_spelled(canonical),
            },
            FileType::File => FileTypeView::File,
            FileType::Other => FileTypeView::Other,
        }
    }
}

/// One entry of a directory as it is read.
#[derive(Debug, PartialEq, Eq)]
pub struct DirectoryItem {
    pub name: Vec<u8>,
    pub file_type: Result<FileType, String>,
}

/// What a [`DirectoryItem`] is, as a value.
pub struct ItemView {
    pub name: Seq<u8>,
    pub file_type: Result<FileTypeView, Seq<char>>,
}

impl View for DirectoryItem {
    type V = ItemView;

    open spec fn view(&self) -> ItemView {
        ItemView {
            name: self.name@,
            file_type: match self.file_type {
                Ok(file_type) => Ok(file_type@),
                Err(error) => Err(error@),
            },
        }
    }
}

pub open spec fn escape_message() -> Seq<char> {
    "symlink target escapes workspace"@
}

pub open spec fn cycle_message() -> Seq<char> {
    "symlink cycle through an ancestor"@
}

/// Where a directory is, as far as it concerns its listing.
pub struct Place {
    pub root: Seq<Part>,
    pub path: Seq<Part>,
    /// The bytes that the path is written with.
    pub text: Seq<u8>,
    pub canonical: WrittenPath,
    pub ancestor_targets: Seq<WrittenPath>,
}

/// The row of an entry with a given kind.
pub open spec fn plain_entry(place: Place, name: Seq<u8>, kind: EntryKind) -> EntryView {
    EntryView {
        path: child_path(place.path, name),
        text: joined_bytes(place.text, name),
        name,
        kind,
        canonical_dir: None,
        error: None,
    }
}

/// A link that cannot be followed.
pub open spec fn broken_link(place: Place, name: Seq<u8>, error: Seq<char>) -> EntryView {
    EntryView { error: Some(error), ..plain_entry(place, name, EntryKind::Symlink) }
}

/// Whether going to `target` leads back to a directory on the way here.
pub open spec fn leads_back(place: Place, target: Seq<Part>) -> bool {
    target == place.canonical.path || plain_paths(place.ancestor_targets).contains(target)
}

/// How an entry is shown. A link counts as a directory only when it leads to
/// one inside the workspace and not back to where it is.
pub open spec fn shown_entry(place: Place, name: Seq<u8>, file_type: FileTypeView) -> EntryView {
    match file_type {
        FileTypeView::Symlink { target, directory } => match target {
            Err(error) => broken_link(place, name, error),
            Ok(target) => if !is_under(target.path, place.root) {
                broken_link(place, name, escape_message())
            } else {
                match directory {
                    Ok(true) => if leads_back(place, target.path) {
                        broken_link(place, name, cycle_message())
                    } else {
                        EntryView {
                            canonical_dir: Some(target),
                            ..plain_entry(place, name, EntryKind::SymlinkDirectory)
                        }
                    },
                    Ok(false) => plain_entry(place, name, EntryKind::Symlink),
                    Err(error) => broken_link(place, name, error),
                }
            },
        },
        FileTypeView::Directory { canonical } => EntryView {
            canonical_dir: canonical,
            ..plain_entry(place, name, EntryKind::Directory)
        },
        FileTypeView::File => plain_entry(place, name, EntryKind::File),
        FileTypeView::Other => plain_entry(place, name, EntryKind::Other),
    }
}

/// The order of entries: directories first, then by name. In one directory the
/// name settles the path.
pub open spec fn entry_before(left: EntryView, right: EntryView) -> bool {
    if left.kind.is_directory() == right.kind.is_directory() {
        bytes_before(left.name, right.name)
    } else {
        left.kind.is_directory()
    }
}

/// `entry` put into an ordered list, behind its equals.
pub open spec fn entry_inserted(entries: Seq<EntryView>, entry: EntryView) -> Seq<EntryView>
    decreases entries.len(),
{
    if entries.len() == 0 || !entry_before(entry, entries.last()) {
        entries.push(entry)
    } else {
        entry_inserted(entries.drop_last(), entry).push(entries.last())
    }
}

/// The first `cap` of the entries, in order.
pub open spec fn first_entries(seen: Seq<EntryView>, cap: nat) -> Seq<EntryView>
    decreases seen.len(),
{
    if seen.len() == 0 {
        seen
    } else {
        let all = entry_inserted(first_entries(seen.drop_last(), cap), seen.last());
        if all.len() <= cap {
            all
        } else {
            all.drop_last()
        }
    }
}

/// The entries that items give, in the order in which they are read, up to the
/// first failure. The repository directory is passed over.
pub open spec fn items_seen(place: Place, items: Seq<Result<ItemView, Seq<char>>>) -> Result<
    Seq<EntryView>,
    Seq<char>,
>
    decreases items.len(),
{
    if items.len() == 0 {
        Ok(Seq::empty())
    } else {
        match items_seen(place, items.drop_last()) {
            Err(error) => Err(error),
            Ok(seen) => item_seen(place, seen, items.last()),
        }
    }
}

/// The entries after one more item.
pub open spec fn item_seen(
    place: Place,
    seen: Seq<EntryView>,
    item: Result<ItemView, Seq<char>>,
) -> Result<Seq<EntryView>, Seq<char>> {
    match item {
        Err(error) => Err("failed to read directory entry: "@ + error),
        Ok(item) => if item.name == dot_git() {
            Ok(seen)
        } else {
            match item.file_type {
                Err(error) => Err(
                    failure_text(
                        "failed to inspect "@,
                        lossy_text(joined_bytes(place.text, item.name)),
                        error,
                    ),
                ),
                Ok(file_type) => Ok(seen.push(shown_entry(place, item.name, file_type))),
            }
        },
    }
}

/// The resolved directory, unless it may not be listed. `text` are the bytes
/// that its path is written with.
pub open spec fn directory_checked(
    root: Seq<Part>,
    text: Seq<u8>,
    ancestor_targets: Seq<WrittenPath>,
    canonical: Result<WrittenPath, Seq<char>>,
) -> Result<WrittenPath, Seq<char>> {
    match canonical {
        Err(error) => Err(failure_text("failed to resolve "@, lossy_text(text), error)),
        Ok(canonical) => if !is_under(canonical.path, root) {
            Err(escape_message())
        } else if plain_paths(ancestor_targets).contains(canonical.path) {
            Err(cycle_message())
        } else {
            Ok(canonical)
        },
    }
}

/// The listing that a list of entries gives.
pub open spec fn listing_of(canonical: WrittenPath, seen: Seq<EntryView>, cap: nat) -> ListingView {
    ListingView { canonical, entries: first_entries(seen, cap), truncated: seen.len() > cap }
}

/// A directory while it is being read.
pub struct DirectoryReader {
    root: PathBuf,
    path: PathBuf,
    canonical: PathBuf,
    ancestor_targets: Vec<PathBuf>,
    cap: usize,
    entries: Vec<LoadedEntry>,
    truncated: bool,
    seen: Ghost<Seq<EntryView>>,
}

proof fn lemma_inserted_len(entries: Seq<EntryView>, entry: EntryView)
    ensures
        entry_inserted(entries, entry).len() == entries.len() + 1,
    decreases entries.len(),
{
    if entries.len() > 0 && entry_before(entry, entries.last()) {
        lemma_inserted_len(entries.drop_last(), entry);
    }
}

proof fn lemma_first_len(seen: Seq<EntryView>, cap: nat)
    ensures
        first_entries(seen, cap).len() == if seen.len() <= cap {
            seen.len()
        } else {
            cap
        },
    decreases seen.len(),
{
    if seen.len() > 0 {
        let front = first_entries(seen.drop_last(), cap);
        lemma_first_len(seen.drop_last(), cap);
        lemma_inserted_len(front, seen.last());
    }
}

/// Puts an entry into an ordered list, behind its equals.
fn insert_entry(entries: &mut Vec<LoadedEntry>, entry: LoadedEntry)
    ensures
        entries_view(final(entries)@) == entry_inserted(entries_view(old(entries)@), entry@),
{
    let ghost all = entries_view(entries@);
    let mut at: usize = entries.len();
    assert(all.take(at as int) =~= all);
    let ghost result = entry_inserted(all, entry@);
    assert(entry_inserted(all.take(at as int), entry@) + all.skip(at as int) =~= result);
    while at > 0 && loaded_entry_before(&entry, &entries[at - 1])
        invariant
            at <= entries@.len(),
            all == entries_view(entries@),
            result == entry_inserted(all, entry@),
            entry_inserted(all.take(at as int), entry@) + all.skip(at as int) == result,
        decreases at,
    {
        proof {
            let front = all.take(at as int);
            assert(front.last() == entries@[at - 1]@);
            assert(front.drop_last() =~= all.take(at - 1));
            let inner = entry_inserted(all.take(at - 1), entry@);
            assert(inner.push(front.last()) + all.skip(at as int) =~= inner + all.skip(at - 1));
        }
        at -= 1;
    }
    proof {
        let front = all.take(at as int);
        if at > 0 {
            assert(front.last() == entries@[at - 1]@);
        }
        assert(entry_inserted(front, entry@) == front.push(entry@));
        assert(all.insert(at as int, entry@) =~= front.push(entry@) + all.skip(at as int));
    }
    entries.insert(at, entry);
    assert(entries_view(entries@) =~= all.insert(at as int, entry@));
}

/// Whether an entry comes before another one.
pub fn loaded_entry_before(left: &LoadedEntry, right: &LoadedEntry) -> (before: bool)
    ensures
        before == entry_before(left@, right@),
{
    let left_directory = left.kind.is_directory();
    if left_directory == right.kind.is_directory() {
        bytes_less(&left.name, &right.name)
    } else {
        left_directory
    }
}

impl DirectoryReader {
    /// Where the directory is.
    pub closed spec fn place(&self) -> Place {
        Place {
            root: self.root@,
            path: self.path@,
            text: self.path.written(),
            canonical: self.canonical.spelled(),
            ancestor_targets: spelled_paths(self.ancestor_targets@),
        }
    }

    pub closed spec fn cap(&self) -> nat {
        self.cap as nat
    }

    /// The entries that were read, in the order in which they were read.
    pub closed spec fn seen(&self) -> Seq<EntryView> {
        self.seen@
    }

    pub closed spec fn wf(&self) -> bool {
        &&& entries_view(self.entries@) == first_entries(self.seen@, self.cap as nat)
        &&& self.truncated == (self.seen@.len() > self.cap)
        &&& lie_below(self.seen@, self.path@)
    }

    /// Starts reading a directory, if it may be listed. `canonical` is its
    /// resolved path.
    pub fn start(
        root: PathBuf,
        path: PathBuf,
        ancestor_targets: Vec<PathBuf>,
        cap: usize,
        canonical: Result<PathBuf, String>,
    ) -> (reader: Result<DirectoryReader, String>)
        ensures
            ({
                let checked = directory_checked(
                    root@,
                    path.written(),
                    spelled_paths(ancestor_targets@),
                    match canonical {
                        Ok(canonical) => Ok(canonical.spelled()),
                        Err(error) => Err(error@),
                    },
                );
                match reader {
                    Ok(reader) => {
                        &&& reader.wf()
                        &&& checked is Ok
                        &&& reader.place() == (Place {
                            root: root@,
                            path: path@,
                            text: path.written(),
                            canonical: checked->Ok_0,
                            ancestor_targets: spelled_paths(ancestor_targets@),
                        })
                        &&& reader.cap() == cap
                        &&& reader.seen() == Seq::<EntryView>::empty()
                    },
                    Err(error) => checked == Err::<WrittenPath, Seq<char>>(error@),
                }
            }),
    {
        proof {
            assert(plain_paths(spelled_paths(ancestor_targets@)) =~= paths_view(ancestor_targets@));
        }
        let canonical = match canonical {
            Ok(canonical) => canonical,
            Err(error) => {
                return Err(
                    failure("failed to resolve ", path.display().as_str(), error.as_str()),
                );
            },
        };
        if !canonical.starts_with(&root) {
            return Err("symlink target escapes workspace".to_owned());
        }
        if holds_path(&ancestor_targets, &canonical) {
            return Err("symlink cycle through an ancestor".to_owned());
        }
        let entries: Vec<LoadedEntry> = Vec::new();
        assert(entries_view(entries@) =~= Seq::<EntryView>::empty());
        Ok(
            DirectoryReader {
                root,
                path,
                canonical,
                ancestor_targets,
                cap,
                entries,
                truncated: false,
                seen: Ghost(Seq::empty()),
            },
        )
    }

    /// Says that the directory could not be read.
    pub fn read_failure(&self, error: &str) -> (message: String)
        ensures
            message@ == failure_text("failed to read "@, lossy_text(self.place().text), error@),
    {
        failure("failed to read ", self.path.display().as_str(), error)
    }

    /// How an entry is shown.
    fn show(&self, name: Vec<u8>, file_type: FileType) -> (entry: LoadedEntry)
        ensures
            entry@ == shown_entry(self.place(), name@, file_type@),
    {
        proof {
            let targets = self.ancestor_targets@;
            assert(plain_paths(spelled_paths(targets)) =~= paths_view(targets));
        }
        let path = self.path.child(&name);
        let (kind, canonical_dir, error): (EntryKind, Option<PathBuf>, Option<String>) =
            match file_type {
            FileType::Symlink { target, directory } => match target {
                Err(error) => (EntryKind::Symlink, None, Some(error)),
                Ok(target) => if !target.starts_with(&self.root) {
                    (
                        EntryKind::Symlink,
                        None,
                        Some("symlink target escapes workspace".to_owned()),
                    )
                } else {
                    match directory {
                        Ok(true) => {
                            let cycle = target.same(&self.canonical) || holds_path(
                                &self.ancestor_targets,
                                &target,
                            );
                            if cycle {
                                (
                                    EntryKind::Symlink,
                                    None,
                                    Some("symlink cycle through an ancestor".to_owned()),
                                )
                            } else {
                                (EntryKind::SymlinkDirectory, Some(target), None)
                            }
                        },
                        Ok(false) => (EntryKind::Symlink, None, None),
                        Err(error) => (EntryKind::Symlink, None, Some(error)),
                    }
                },
            },
            FileType::Directory { canonical } => (EntryKind::Directory, canonical, None),
            FileType::File => (EntryKind::File, None, None),
            FileType::Other => (EntryKind::Other, None, None),
        };
        LoadedEntry { path, name, kind, canonical_dir, error }
    }

    /// Takes one item, as it is read. After a failure nothing more is to be
    /// read.
    pub fn accept(&mut self, item: Result<DirectoryItem, String>) -> (accepted: Result<(), String>)
        requires
            old(self).wf(),
        ensures
            final(self).wf(),
            final(self).place() == old(self).place(),
            final(self).cap() == old(self).cap(),
            ({
                let after = item_seen(
                    old(self).place(),
                    old(self).seen(),
                    match item {
                        Ok(item) => Ok(item@),
                        Err(error) => Err(error@),
                    },
                );
                match accepted {
                    Ok(()) => after == Ok::<Seq<EntryView>, Seq<char>>(final(self).seen()),
                    Err(error) => after == Err::<Seq<EntryView>, Seq<char>>(error@)
                        && final(self).seen() == old(self).seen(),
                }
            }),
    {
        let item = match item {
            Ok(item) => item,
            Err(error) => {
                return Err(join2("failed to read directory entry: ", error.as_str()));
            },
        };
        let DirectoryItem { name, file_type } = item;
        if is_dot_git_name(&name) {
            return Ok(());
        }
        let file_type = match file_type {
            Ok(file_type) => file_type,
            Err(error) => {
                let path = self.path.child(&name);
                return Err(
                    failure("failed to inspect ", path.display().as_str(), error.as_str()),
                );
            },
        };
        let entry = self.show(name, file_type);
        let ghost before = self.seen@;
        let ghost cap = self.cap as nat;
        proof {
            let after = before.push(entry@);
            assert(after.drop_last() =~= before);
            lemma_inserted_len(first_entries(before, cap), entry@);
            lemma_first_len(before, cap);
            assert(entry@.path.drop_last() =~= self.path@);
            assert forall|i: int| 0 <= i < after.len() implies parent_of((#[trigger] after[i]).path)
                == Some(self.path@) by {
                if i < before.len() {
                    assert(after[i] == before[i]);
                }
            }
        }
        insert_entry(&mut self.entries, entry);
        let ghost inserted = self.entries@;
        if self.entries.len() > self.cap {
            self.truncated = true;
            self.entries.pop();
            assert(entries_view(self.entries@) =~= entries_view(inserted).drop_last());
        }
        self.seen = Ghost(before.push(entry@));
        Ok(())
    }

    /// The listing, once everything was read.
    pub fn finish(self) -> (listing: LoadedDirectory)
        requires
            self.wf(),
        ensures
            listing@ == listing_of(self.place().canonical, self.seen(), self.cap()),
            lie_below(listing@.entries, self.place().path),
            entry_paths(self.seen()).no_duplicates() ==> entries_of(
                listing@.entries,
                self.place().path,
            ),
    {
        proof {
            lemma_first_of(self.seen@, self.cap as nat, self.path@);
            if entry_paths(self.seen@).no_duplicates() {
                lemma_first_once(self.seen@, self.cap as nat);
            }
        }
        LoadedDirectory {
            canonical: self.canonical,
            entries: self.entries,
            truncated: self.truncated,
        }
    }
}

proof fn lemma_inserted_contains(entries: Seq<EntryView>, entry: EntryView)
    ensures
        forall|e: EntryView|
            #[trigger] entry_inserted(entries, entry).contains(e) <==> (e == entry || entries.contains(e)),
    decreases entries.len(),
{
    let result = entry_inserted(entries, entry);
    if entries.len() == 0 || !entry_before(entry, entries.last()) {
        assert forall|e: EntryView|
            #[trigger] result.contains(e) <==> (e == entry || entries.contains(e)) by {
            vstd::seq_lib::lemma_seq_contains_after_push(entries, entry, e);
        }
    } else {
        let front = entries.drop_last();
        let inner = entry_inserted(front, entry);
        lemma_inserted_contains(front, entry);
        assert(entries =~= front.push(entries.last()));
        assert forall|e: EntryView|
            #[trigger] result.contains(e) <==> (e == entry || entries.contains(e)) by {
            vstd::seq_lib::lemma_seq_contains_after_push(inner, entries.last(), e);
            vstd::seq_lib::lemma_seq_contains_after_push(front, entries.last(), e);
            assert(inner.contains(e) <==> (e == entry || front.contains(e)));
        }
    }
}

proof fn lemma_first_contains(seen: Seq<EntryView>, cap: nat)
    ensures
        forall|e: EntryView|
            #[trigger] first_entries(seen, cap).contains(e) ==> seen.contains(e),
    decreases seen.len(),
{
    if seen.len() > 0 {
        let front = seen.drop_last();
        lemma_first_contains(front, cap);
        let before = first_entries(front, cap);
        lemma_inserted_contains(before, seen.last());
        let all = entry_inserted(before, seen.last());
        assert forall|e: EntryView|
            #[trigger] first_entries(seen, cap).contains(e) implies seen.contains(e) by {
            let i = first_entries(seen, cap).index_of(e);
            assert(all[i] == e);
            assert(all.contains(e));
            if e == seen.last() {
                assert(seen[seen.len() - 1] == e);
            } else {
                assert(before.contains(e));
                let j = front.index_of(e);
                assert(seen[j] == e);
            }
        }
    }
}

proof fn lemma_first_of(seen: Seq<EntryView>, cap: nat, path: Seq<Part>)
    requires
        lie_below(seen, path),
    ensures
        lie_below(first_entries(seen, cap), path),
{
    lemma_first_contains(seen, cap);
    let first = first_entries(seen, cap);
    assert forall|i: int| 0 <= i < first.len() implies parent_of((#[trigger] first[i]).path)
        == Some(path) by {
        assert(first.contains(first[i]));
        let j = seen.index_of(first[i]);
        assert(seen[j] == first[i]);
    }
}

proof fn lemma_inserted_once(entries: Seq<EntryView>, entry: EntryView)
    requires
        entry_paths(entries).no_duplicates(),
        !entry_paths(entries).contains(entry.path),
    ensures
        entry_paths(entry_inserted(entries, entry)).no_duplicates(),
    decreases entries.len(),
{
    let result = entry_inserted(entries, entry);
    let n = entries.len() as int;
    if n == 0 || !entry_before(entry, entries.last()) {
        assert(entry_paths(result) =~= entry_paths(entries).push(entry.path));
    } else {
        let front = entries.drop_last();
        let inner = entry_inserted(front, entry);
        assert(entry_paths(front) =~= entry_paths(entries).drop_last());
        assert forall|i: int| 0 <= i < front.len() implies #[trigger] front[i].path != entry.path
            && front[i].path != entries.last().path by {
            assert(entry_paths(entries)[i] == front[i].path);
            assert(entry_paths(entries)[n - 1] == entries.last().path);
        }
        lemma_inserted_once(front, entry);
        lemma_inserted_contains(front, entry);
        assert forall|i: int| 0 <= i < inner.len() implies #[trigger] inner[i].path
            != entries.last().path by {
            assert(inner.contains(inner[i]));
            assert(entry_paths(entries)[n - 1] == entries.last().path);
            if inner[i] != entry {
                let j = front.index_of(inner[i]);
                assert(front[j] == inner[i]);
            }
        }
        assert forall|i: int, j: int| 0 <= i < j < result.len() implies entry_paths(result)[i]
            != entry_paths(result)[j] by {
            assert(result[i] == inner[i]);
            if j < inner.len() {
                assert(entry_paths(inner)[i] != entry_paths(inner)[j]);
            }
        }
    }
}

proof fn lemma_first_once(seen: Seq<EntryView>, cap: nat)
    requires
        entry_paths(seen).no_duplicates(),
    ensures
        entry_paths(first_entries(seen, cap)).no_duplicates(),
    decreases seen.len(),
{
    if seen.len() > 0 {
        let front = seen.drop_last();
        let last = seen.last();
        assert(entry_paths(front) =~= entry_paths(seen).drop_last());
        lemma_first_once(front, cap);
        lemma_first_contains(front, cap);
        let before = first_entries(front, cap);
        assert(!entry_paths(before).contains(last.path)) by {
            if entry_paths(before).contains(last.path) {
                let i = entry_paths(before).index_of(last.path);
                assert(before.contains(before[i]));
                let j = front.index_of(before[i]);
                assert(entry_paths(seen)[j] == entry_paths(seen)[seen.len() - 1]);
            }
        }
        lemma_inserted_once(before, last);
        let all = entry_inserted(before, last);
        assert(entry_paths(all.drop_last()) =~= entry_paths(all).drop_last());
    }
}

/// Whether no entry comes before an earlier one.
pub open spec fn entries_in_order(entries: Seq<EntryView>) -> bool {
    forall|i: int, j: int|
        0 <= i < j < entries.len() ==> !entry_before(
            #[trigger] entries[j],
            #[trigger] entries[i],
        )
}

proof fn lemma_entry_before(a: EntryView, b: EntryView, c: EntryView)
    ensures
        entry_before(a, b) ==> !entry_before(b, a),
        entry_before(a, b) && !entry_before(c, b) ==> entry_before(a, c),
        !entry_before(b, a) && !entry_before(c, b) ==> !entry_before(c, a),
        entry_before(a, b) && entry_before(b, c) ==> entry_before(a, c),
{
    crate::bytes::lemma_bytes_before_total(a.name, b.name);
    crate::bytes::lemma_bytes_before_total(b.name, c.name);
    crate::bytes::lemma_bytes_before_total(a.name, c.name);
    if bytes_before(a.name, b.name) && bytes_before(b.name, c.name) {
        crate::bytes::lemma_bytes_before_transitive(a.name, b.name, c.name);
    }
    if bytes_before(c.name, a.name) && bytes_before(a.name, b.name) {
        crate::bytes::lemma_bytes_before_transitive(c.name, a.name, b.name);
    }
}

proof fn lemma_inserted_in_order(entries: Seq<EntryView>, entry: EntryView)
    requires
        entries_in_order(entries),
    ensures
        entries_in_order(entry_inserted(entries, entry)),
        entry_inserted(entries, entry).last() == entry || (entries.len() > 0 && entry_inserted(
            entries,
            entry,
        ).last() == entries.last() && entry_before(entry, entries.last())),
    decreases entries.len(),
{
    let result = entry_inserted(entries, entry);
    if entries.len() == 0 || !entry_before(entry, entries.last()) {
        assert forall|i: int, j: int| 0 <= i < j < result.len() implies !entry_before(
            #[trigger] result[j],
            #[trigger] result[i],
        ) by {
            if j == entries.len() {
                if i < entries.len() - 1 {
                    assert(!entry_before(entries[entries.len() - 1], entries[i]));
                }
                lemma_entry_before(result[i], entries.last(), entry);
                lemma_entry_before(entry, result[i], entries.last());
            } else {
                assert(result[i] == entries[i] && result[j] == entries[j]);
            }
        }
    } else {
        let front = entries.drop_last();
        let inner = entry_inserted(front, entry);
        assert forall|i: int, j: int| 0 <= i < j < front.len() implies !entry_before(
            #[trigger] front[j],
            #[trigger] front[i],
        ) by {
            assert(front[i] == entries[i] && front[j] == entries[j]);
        }
        lemma_inserted_in_order(front, entry);
        lemma_inserted_contains(front, entry);
        assert forall|i: int, j: int| 0 <= i < j < result.len() implies !entry_before(
            #[trigger] result[j],
            #[trigger] result[i],
        ) by {
            if j == inner.len() {
                let e = inner[i];
                assert(inner.contains(e));
                if e == entry {
                    lemma_entry_before(entry, entries.last(), entry);
                } else {
                    let k = front.index_of(e);
                    assert(entries[k] == e);
                    assert(!entry_before(entries[entries.len() - 1], entries[k]));
                }
            } else {
                assert(result[i] == inner[i] && result[j] == inner[j]);
            }
        }
    }
}

/// A listing is in order, holds only entries that were read, and is as long as
/// the cap allows.
pub proof fn law_listing_is_ordered_and_capped(seen: Seq<EntryView>, cap: nat)
    ensures
        entries_in_order(first_entries(seen, cap)),
        first_entries(seen, cap).len() == if seen.len() <= cap {
            seen.len()
        } else {
            cap
        },
        forall|e: EntryView|
            #[trigger] first_entries(seen, cap).contains(e) ==> seen.contains(e),
    decreases seen.len(),
{
    lemma_first_len(seen, cap);
    lemma_first_contains(seen, cap);
    if seen.len() > 0 {
        let front = seen.drop_last();
        law_listing_is_ordered_and_capped(front, cap);
        lemma_inserted_in_order(first_entries(front, cap), seen.last());
        let all = entry_inserted(first_entries(front, cap), seen.last());
        let kept = first_entries(seen, cap);
        assert forall|i: int, j: int| 0 <= i < j < kept.len() implies !entry_before(
            #[trigger] kept[j],
            #[trigger] kept[i],
        ) by {
            assert(kept[i] == all[i] && kept[j] == all[j]);
        }
    }
}

/// What a truncated listing leaves out does not come before anything that it
/// holds.
pub proof fn law_listing_keeps_the_first_entries(
    seen: Seq<EntryView>,
    cap: nat,
    left_out: EntryView,
)
    requires
        seen.contains(left_out),
        !first_entries(seen, cap).contains(left_out),
    ensures
        seen.len() > cap,
        forall|i: int|
            0 <= i < first_entries(seen, cap).len() ==> !entry_before(
                left_out,
                #[trigger] first_entries(seen, cap)[i],
            ),
    decreases seen.len(),
{
    let front = seen.drop_last();
    let last = seen.last();
    let before = first_entries(front, cap);
    let all = entry_inserted(before, last);
    let kept = first_entries(seen, cap);
    law_listing_is_ordered_and_capped(front, cap);
    law_listing_is_ordered_and_capped(seen, cap);
    lemma_inserted_contains(before, last);
    lemma_inserted_len(before, last);
    lemma_inserted_in_order(before, last);
    let at = seen.index_of(left_out);
    assert(seen[at] == left_out);
    if all.contains(left_out) {
        assert(all.len() > cap);
        let k = all.index_of(left_out);
        assert(all[k] == left_out);
        if k < all.len() - 1 {
            assert(kept[k] == left_out);
        }
        assert forall|i: int| 0 <= i < kept.len() implies !entry_before(
            left_out,
            #[trigger] kept[i],
        ) by {
            assert(kept[i] == all[i]);
            assert(!entry_before(all[all.len() - 1], all[i]));
        }
    } else {
        assert(left_out != last);
        assert(front[at] == left_out);
        law_listing_keeps_the_first_entries(front, cap, left_out);
        assert forall|i: int| 0 <= i < kept.len() implies !entry_before(
            left_out,
            #[trigger] kept[i],
        ) by {
            assert(kept[i] == all[i]);
            assert(all.contains(kept[i]));
            if before.contains(kept[i]) {
                let j = before.index_of(kept[i]);
                assert(before[j] == kept[i]);
            } else {
                assert(kept[i] == last);
                assert(before.len() == cap);
                let z = before[before.len() - 1];
                if all.last() == last {
                    assert(all[all.len() - 1] == last);
                    lemma_last_not_kept(before, last, i);
                } else {
                    lemma_entry_before(left_out, last, z);
                }
            }
        }
    }
}

/// An entry that is put in last and is not among the others stands there only.
proof fn lemma_last_not_kept(entries: Seq<EntryView>, entry: EntryView, at: int)
    requires
        !entries.contains(entry),
        entry_inserted(entries, entry).last() == entry,
        0 <= at < entry_inserted(entries, entry).len() - 1,
    ensures
        entry_inserted(entries, entry)[at] != entry,
{
    if entries.len() > 0 && entry_before(entry, entries.last()) {
        assert(entry_inserted(entries, entry).last() == entries.last());
        assert(entries[entries.len() - 1] == entry);
    } else {
        assert(entry_inserted(entries, entry)[at] == entries[at]);
    }
}

/// The repository directory is never listed.
pub proof fn law_repository_is_never_listed(
    place: Place,
    items: Seq<Result<ItemView, Seq<char>>>,
    cap: nat,
)
    ensures
        items_seen(place, items) matches Ok(seen) ==> forall|i: int|
            0 <= i < first_entries(seen, cap).len() ==> (#[trigger] first_entries(seen, cap)[i]).name
                != dot_git(),
{
    if let Ok(seen) = items_seen(place, items) {
        lemma_seen_names(place, items);
        lemma_first_contains(seen, cap);
        let first = first_entries(seen, cap);
        assert forall|i: int| 0 <= i < first.len() implies (#[trigger] first[i]).name
            != dot_git() by {
            assert(first.contains(first[i]));
            let j = seen.index_of(first[i]);
            assert(seen[j] == first[i]);
        }
    }
}

proof fn lemma_seen_names(place: Place, items: Seq<Result<ItemView, Seq<char>>>)
    ensures
        items_seen(place, items) matches Ok(seen) ==> forall|i: int|
            0 <= i < seen.len() ==> (#[trigger] seen[i]).name != dot_git(),
    decreases items.len(),
{
    if items.len() > 0 {
        lemma_seen_names(place, items.drop_last());
    }
}

/// Only what lies in the workspace can be expanded: a row that counts as a
/// directory through a link leads inside the workspace, and not back to a
/// directory on the way there.
pub proof fn law_links_stay_inside(place: Place, name: Seq<u8>, file_type: FileTypeView)
    ensures
        shown_entry(place, name, file_type).kind == EntryKind::SymlinkDirectory ==> {
            &&& shown_entry(place, name, file_type).canonical_dir is Some
            &&& is_under(shown_entry(place, name, file_type).canonical_dir->0.path, place.root)
            &&& !leads_back(place, shown_entry(place, name, file_type).canonical_dir->0.path)
        },
        file_type is Symlink ==> shown_entry(place, name, file_type).kind != EntryKind::Directory,
{
}

} // verus!
