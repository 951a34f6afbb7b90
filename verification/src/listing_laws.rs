//! What reading a directory shows of each entry, and in which order.

use vstd::prelude::*;
use vstd::string::*;

use crate::bytes::bytes_before;
use crate::listing::EntryView;
use crate::load::{
    directory_checked, entry_before, first_entries, items_seen, law_listing_is_ordered_and_capped,
    listing_of, shown_entry, FileTypeView, ItemView, Place,
};
use crate::path::{is_under, joined_bytes, plain_paths, Part, WrittenPath};
use crate::text::lossy_text;
use crate::tree::EntryKind;

verus! {

/// A file is shown as a file, a directory as a directory with where it leads,
/// and anything else as such, under its name below the directory.
pub proof fn law_entries_are_shown(
    place: Place,
    name: Seq<u8>,
    canonical: Option<WrittenPath>,
    file_type: FileTypeView,
)
    ensures
        ({
            let shown = shown_entry(place, name, file_type);
            &&& shown.name == name
            &&& shown.path == place.path.push(Part::Normal(name))
            &&& shown.text == joined_bytes(place.text, name)
        }),
        ({
            let shown = shown_entry(place, name, FileTypeView::File);
            shown.kind == EntryKind::File && shown.error is None && shown.canonical_dir is None
        }),
        ({
            let shown = shown_entry(place, name, FileTypeView::Other);
            shown.kind == EntryKind::Other && shown.error is None && shown.canonical_dir is None
        }),
        ({
            let shown = shown_entry(place, name, FileTypeView::Directory { canonical });
            shown.kind == EntryKind::Directory && shown.error is None && shown.canonical_dir
                == canonical
        }),
{
}

/// A link to a file is shown as a link. One that leads to a directory inside
/// the workspace can be expanded like it, unless it leads back to a directory
/// on the way. One that leads out of the workspace, back, or nowhere shows why
/// it cannot be followed.
pub proof fn law_links_are_shown(
    place: Place,
    name: Seq<u8>,
    target: WrittenPath,
    error: Seq<char>,
    directory: Result<bool, Seq<char>>,
)
    ensures
        ({
            let shown = shown_entry(
                place,
                name,
                FileTypeView::Symlink { target: Ok(target), directory },
            );
            let inside = is_under(target.path, place.root);
            let back = target.path == place.canonical.path || plain_paths(
                place.ancestor_targets,
            ).contains(target.path);
            &&& !inside ==> shown.kind == EntryKind::Symlink && shown.error == Some(
                "symlink target escapes workspace"@,
            ) && shown.canonical_dir is None
            &&& inside && directory == Ok::<bool, Seq<char>>(false) ==> shown.kind
                == EntryKind::Symlink && shown.error is None
            &&& inside && directory == Ok::<bool, Seq<char>>(true) && !back ==> shown.kind
                == EntryKind::SymlinkDirectory && shown.error is None && shown.canonical_dir
                == Some(target)
            &&& inside && directory == Ok::<bool, Seq<char>>(true) && back ==> shown.kind
                == EntryKind::Symlink && shown.error == Some("symlink cycle through an ancestor"@)
            &&& inside && directory is Err ==> shown.kind == EntryKind::Symlink && shown.error
                == Some(directory->Err_0)
        }),
        ({
            let shown = shown_entry(
                place,
                name,
                FileTypeView::Symlink { target: Err(error), directory },
            );
            shown.kind == EntryKind::Symlink && shown.error == Some(error)
        }),
{
}

/// A directory is listed only inside the workspace, and not where it leads back
/// to a directory on the way there.
pub proof fn law_directories_that_are_listed(
    root: Seq<Part>,
    text: Seq<u8>,
    above: Seq<WrittenPath>,
    resolved: WrittenPath,
    error: Seq<char>,
)
    ensures
        ({
            let checked = directory_checked(root, text, above, Ok(resolved));
            let inside = is_under(resolved.path, root);
            let back = plain_paths(above).contains(resolved.path);
            &&& inside && !back ==> checked == Ok::<_, Seq<char>>(resolved)
            &&& !inside ==> checked == Err::<WrittenPath, _>("symlink target escapes workspace"@)
            &&& inside && back ==> checked == Err::<WrittenPath, _>(
                "symlink cycle through an ancestor"@,
            )
        }),
        directory_checked(root, text, above, Err(error)) == Err::<WrittenPath, _>(
            "failed to resolve "@ + lossy_text(text) + ": "@ + error,
        ),
{
}

/// Every entry that is read is shown, hidden ones too, except the repository's
/// own directory; the first that cannot be read ends the reading.
pub proof fn law_every_entry_is_read(
    place: Place,
    items: Seq<Result<ItemView, Seq<char>>>,
    name: Seq<u8>,
    file_type: FileTypeView,
    error: Seq<char>,
    seen: Seq<EntryView>,
)
    requires
        items_seen(place, items) == Ok::<_, Seq<char>>(seen),
    ensures
        ({
            let repository = seq![0x2eu8, 0x67u8, 0x69u8, 0x74u8];
            let item = ItemView { name, file_type: Ok(file_type) };
            let broken = ItemView { name, file_type: Err(error) };
            let after = items_seen(place, items.push(Ok(item)));
            &&& name != repository ==> after == Ok::<_, Seq<char>>(
                seen.push(shown_entry(place, name, file_type)),
            )
            &&& name == repository ==> after == Ok::<_, Seq<char>>(seen)
            &&& name != repository ==> items_seen(place, items.push(Ok(broken))) == Err::<
                Seq<EntryView>,
                _,
            >(
                "failed to inspect "@ + lossy_text(joined_bytes(place.text, name)) + ": "@ + error,
            )
            &&& items_seen(place, items.push(Err(error))) == Err::<Seq<EntryView>, _>(
                "failed to read directory entry: "@ + error,
            )
        }),
{
    let repository = seq![0x2eu8, 0x67u8, 0x69u8, 0x74u8];
    assert(crate::path::dot_git() =~= repository);
    let item = ItemView { name, file_type: Ok(file_type) };
    let broken = ItemView { name, file_type: Err(error) };
    assert(items.push(Ok(item)).drop_last() =~= items);
    assert(items.push(Ok(broken)).drop_last() =~= items);
    assert(items.push(Err(error)).drop_last() =~= items);
    assert(items.push(Ok(item)).last() == Ok::<ItemView, Seq<char>>(item));
    assert(items.push(Ok(broken)).last() == Ok::<ItemView, Seq<char>>(broken));
    assert(items.push(Err(error)).last() == Err::<ItemView, Seq<char>>(error));
}

/// Of two names the one comes first that has the smaller byte where they first
/// differ, or that is the beginning of the other.
pub proof fn law_names_are_ordered_by_their_bytes(left: Seq<u8>, right: Seq<u8>, same: int)
    requires
        0 <= same <= left.len(),
        same <= right.len(),
        forall|i: int| 0 <= i < same ==> left[i] == right[i],
    ensures
        same < left.len() && same < right.len() && left[same] != right[same] ==> (bytes_before(
            left,
            right,
        ) <==> left[same] < right[same]),
        same == left.len() ==> (bytes_before(left, right) <==> left.len() < right.len()),
        same == right.len() ==> !bytes_before(left, right),
    decreases same,
{
    if same > 0 {
        assert(left[0] == right[0]);
        let l = left.skip(1);
        let r = right.skip(1);
        assert forall|i: int| 0 <= i < same - 1 implies l[i] == r[i] by {
            assert(l[i] == left[i + 1] && r[i] == right[i + 1]);
        }
        if same < left.len() {
            assert(l[same - 1] == left[same]);
        }
        if same < right.len() {
            assert(r[same - 1] == right[same]);
        }
        law_names_are_ordered_by_their_bytes(l, r, same - 1);
    }
}

/// A listing has its directories, and links to directories, before everything
/// else, and each of the two in the order of their names.
pub proof fn law_directories_come_first(seen: Seq<EntryView>, cap: nat, i: int, j: int)
    requires
        0 <= i < j < first_entries(seen, cap).len(),
    ensures
        ({
            let first = first_entries(seen, cap)[i];
            let second = first_entries(seen, cap)[j];
            let leads = first.kind == EntryKind::Directory || first.kind
                == EntryKind::SymlinkDirectory;
            let follows = second.kind == EntryKind::Directory || second.kind
                == EntryKind::SymlinkDirectory;
            &&& follows ==> leads
            &&& leads == follows ==> !bytes_before(second.name, first.name)
        }),
{
    law_listing_is_ordered_and_capped(seen, cap);
    let kept = first_entries(seen, cap);
    assert(!entry_before(kept[j], kept[i]));
}

/// A listing that leaves nothing out says so, and one over its cap holds as
/// many entries as the cap.
pub proof fn law_listing_tells_what_it_leaves_out(
    canonical: WrittenPath,
    seen: Seq<EntryView>,
    cap: nat,
)
    ensures
        ({
            let listing = listing_of(canonical, seen, cap);
            &&& listing.canonical == canonical
            &&& listing.truncated <==> seen.len() > cap
            &&& seen.len() <= cap ==> listing.entries.len() == seen.len()
            &&& seen.len() > cap ==> listing.entries.len() == cap
        }),
{
    law_listing_is_ordered_and_capped(seen, cap);
}

} // verus!
