//! What the records of `git status` stand for.

use vstd::prelude::*;
use vstd::string::*;

use crate::bytes::{lemma_first_index_unique, split, split_at_most};
use crate::git::{
    has_original, is_ignored, merged, porcelain_changes, record_change, record_fields,
    records_changes, safe_joined, xy_status, Change, GitStatus,
};
use crate::path::{parse_path, Part};
use crate::text::decimal;

verus! {

/// Two letters settle the status, whichever stands first. An unmerged path
/// holds a `U`, or both letters are `A` or both `D`; apart from those a `D`
/// means deleted, then `R` or `C` renamed, then `A` added, then `M` or `T`
/// modified. Other pairs mean nothing.
pub proof fn law_letters_settle_the_status(x: u8, y: u8)
    ensures
        ({
            let status = xy_status(seq![x, y]);
            let either = |letter: u8| x == letter || y == letter;
            let unmerged = either(0x55) || (x == 0x41 && y == 0x41) || (x == 0x44 && y == 0x44);
            let moved = either(0x52) || either(0x43);
            let edited = either(0x4d) || either(0x54);
            &&& status == xy_status(seq![y, x])
            &&& status == Ok::<_, Seq<char>>(GitStatus::Conflict) <==> unmerged
            &&& status == Ok::<_, Seq<char>>(GitStatus::Deleted) <==> !unmerged && either(0x44)
            &&& status == Ok::<_, Seq<char>>(GitStatus::Renamed) <==> !unmerged && !either(0x44)
                && moved
            &&& status == Ok::<_, Seq<char>>(GitStatus::Added) <==> !unmerged && !either(0x44)
                && !moved && either(0x41)
            &&& status == Ok::<_, Seq<char>>(GitStatus::Modified) <==> !either(0x55) && !either(0x44)
                && !moved && !either(0x41) && edited
            &&& status is Err <==> !either(0x55) && !either(0x44) && !moved && !either(0x41) && !edited
            &&& status != Ok::<_, Seq<char>>(GitStatus::Untracked)
        }),
{
    let pair = seq![x, y];
    let turned = seq![y, x];
    assert forall|letter: u8| #[trigger] pair.contains(letter) == (x == letter || y == letter) by {
        assert(pair[0] == x && pair[1] == y);
    }
    assert forall|letter: u8| #[trigger] turned.contains(letter) == (x == letter || y
        == letter) by {
        assert(turned[0] == y && turned[1] == x);
    }
    assert((pair == seq![0x41u8, 0x41u8]) == (x == 0x41 && y == 0x41)) by {
        if pair == seq![0x41u8, 0x41u8] {
            assert(pair[0] == 0x41 && pair[1] == 0x41);
        }
        if x == 0x41 && y == 0x41 {
            assert(pair =~= seq![0x41u8, 0x41u8]);
        }
    }
    assert((pair == seq![0x44u8, 0x44u8]) == (x == 0x44 && y == 0x44)) by {
        if pair == seq![0x44u8, 0x44u8] {
            assert(pair[0] == 0x44 && pair[1] == 0x44);
        }
        if x == 0x44 && y == 0x44 {
            assert(pair =~= seq![0x44u8, 0x44u8]);
        }
    }
    assert((turned == seq![0x41u8, 0x41u8]) == (x == 0x41 && y == 0x41)) by {
        if turned == seq![0x41u8, 0x41u8] {
            assert(turned[0] == 0x41 && turned[1] == 0x41);
        }
        if x == 0x41 && y == 0x41 {
            assert(turned =~= seq![0x41u8, 0x41u8]);
        }
    }
    assert((turned == seq![0x44u8, 0x44u8]) == (x == 0x44 && y == 0x44)) by {
        if turned == seq![0x44u8, 0x44u8] {
            assert(turned[0] == 0x44 && turned[1] == 0x44);
        }
        if x == 0x44 && y == 0x44 {
            assert(turned =~= seq![0x44u8, 0x44u8]);
        }
    }
}

/// Of two reports of one path the graver stays: a conflict before a deletion,
/// then a renaming, an addition, a modification, and last an untracked file.
pub proof fn law_graver_report_stays(first: GitStatus, second: GitStatus)
    ensures
        merged(None, first) == first,
        merged(Some(first), second) == first || merged(Some(first), second) == second,
        first == GitStatus::Conflict ==> merged(Some(first), second) == first && merged(
            Some(second),
            first,
        ) == first,
        first == GitStatus::Deleted && second != GitStatus::Conflict ==> merged(
            Some(first),
            second,
        ) == first && merged(Some(second), first) == first,
        first == GitStatus::Renamed && (second == GitStatus::Added || second == GitStatus::Modified
            || second == GitStatus::Untracked) ==> merged(Some(first), second) == first && merged(
            Some(second),
            first,
        ) == first,
        first == GitStatus::Added && (second == GitStatus::Modified || second
            == GitStatus::Untracked) ==> merged(Some(first), second) == first && merged(
            Some(second),
            first,
        ) == first,
        first == GitStatus::Modified && second == GitStatus::Untracked ==> merged(
            Some(first),
            second,
        ) == first && merged(Some(second), first) == first,
{
}

/// Fields with one space between each two.
pub open spec fn spaced(fields: Seq<Seq<u8>>) -> Seq<u8>
    decreases fields.len(),
{
    if fields.len() == 0 {
        seq![]
    } else if fields.len() == 1 {
        fields[0]
    } else {
        fields[0] + seq![0x20u8] + spaced(fields.skip(1))
    }
}

/// Whether a field holds something, and no space.
pub open spec fn is_word(field: Seq<u8>) -> bool {
    field.len() > 0 && !field.contains(0x20)
}

proof fn lemma_split_spaced(fields: Seq<Seq<u8>>)
    requires
        fields.len() > 0,
        forall|i: int| 0 <= i < fields.len() - 1 ==> is_word(#[trigger] fields[i]),
        fields.last().len() > 0,
    ensures
        split_at_most(spaced(fields), 0x20, fields.len()) =~= fields,
    decreases fields.len(),
{
    if fields.len() > 1 {
        let first = fields[0];
        let rest = fields.skip(1);
        let text = spaced(fields);
        assert(is_word(fields[0]));
        assert(text == first + seq![0x20u8] + spaced(rest));
        assert forall|j: int| 0 <= j < first.len() implies text[j] != 0x20 by {
            assert(text[j] == first[j]);
            assert(first.contains(first[j]));
        }
        assert(text[first.len() as int] == 0x20);
        lemma_first_index_unique(text, 0x20, first.len() as int);
        assert(text.take(first.len() as int) =~= first);
        assert(text.skip(first.len() + 1int) =~= spaced(rest));
        assert forall|i: int| 0 <= i < rest.len() - 1 implies is_word(#[trigger] rest[i]) by {
            assert(rest[i] == fields[i + 1]);
        }
        lemma_split_spaced(rest);
        assert(split_at_most(text, 0x20, fields.len()) =~= seq![first] + rest);
    } else {
        assert(spaced(fields) == fields[0]);
        assert(split_at_most(fields[0], 0x20, 1) =~= seq![fields[0]]);
    }
}

/// The text of a record: its kind, its letters, what stands between, and a path.
pub open spec fn record_text(kind: u8, xy: Seq<u8>, middle: Seq<Seq<u8>>, path: Seq<u8>) -> Seq<
    u8,
> {
    spaced(seq![seq![kind], xy] + middle + seq![path])
}

proof fn lemma_record_fields(kind: u8, xy: Seq<u8>, middle: Seq<Seq<u8>>, path: Seq<u8>)
    requires
        kind != 0x20,
        is_word(xy),
        forall|i: int| 0 <= i < middle.len() ==> is_word(#[trigger] middle[i]),
        path.len() > 0,
    ensures
        record_text(kind, xy, middle, path).len() > 0,
        record_text(kind, xy, middle, path)[0] == kind,
        record_fields(record_text(kind, xy, middle, path), middle.len() + 3) == Some(
            seq![seq![kind], xy] + middle + seq![path],
        ),
{
    let fields = seq![seq![kind], xy] + middle + seq![path];
    let first = seq![kind];
    assert(first[0] == kind);
    assert(!first.contains(0x20));
    assert(fields[0] == first && fields[1] == xy);
    assert(fields.last() == path);
    assert forall|i: int| 0 <= i < fields.len() - 1 implies is_word(#[trigger] fields[i]) by {
        if i >= 2 {
            assert(fields[i] == middle[i - 2]);
        }
    }
    lemma_split_spaced(fields);
    assert(spaced(fields)[0] == kind);
    assert forall|i: int| 0 <= i < fields.len() implies #[trigger] fields[i].len() != 0 by {
        if i < fields.len() - 1 {
            assert(is_word(fields[i]));
        }
    }
}

/// A record of an ordinary change reports its path, with the status that its
/// letters stand for.
pub proof fn law_ordinary_record(
    xy: Seq<u8>,
    middle: Seq<Seq<u8>>,
    path: Seq<u8>,
    next: Option<Seq<u8>>,
)
    requires
        is_word(xy),
        middle.len() == 6,
        forall|i: int| 0 <= i < middle.len() ==> is_word(#[trigger] middle[i]),
        path.len() > 0,
    ensures
        record_change(record_text(0x31, xy, middle, path), next) == (match xy_status(xy) {
            Ok(status) => Ok(
                Change {
                    path: parse_path(path),
                    text: path,
                    original_path: None,
                    original_text: None,
                    status,
                },
            ),
            Err(message) => Err(message),
        }),
{
    lemma_record_fields(0x31, xy, middle, path);
    let fields = seq![seq![0x31u8], xy] + middle + seq![path];
    assert(fields[1] == xy);
    assert(fields[8] == path);
}

/// A record of a renaming reports the new path, with the path behind the record
/// as the one it had before.
pub proof fn law_renaming_record(
    xy: Seq<u8>,
    middle: Seq<Seq<u8>>,
    path: Seq<u8>,
    original: Seq<u8>,
)
    requires
        is_word(xy),
        middle.len() == 7,
        forall|i: int| 0 <= i < middle.len() ==> is_word(#[trigger] middle[i]),
        path.len() > 0,
        xy_status(xy) is Ok,
    ensures
        record_change(record_text(0x32, xy, middle, path), Some(original)) == Ok::<_, Seq<char>>(
            Change {
                path: parse_path(path),
                text: path,
                original_path: Some(parse_path(original)),
                original_text: Some(original),
                status: xy_status(xy)->Ok_0,
            },
        ),
        record_change(record_text(0x32, xy, middle, path), None) is Err,
        has_original(record_text(0x32, xy, middle, path)),
{
    lemma_record_fields(0x32, xy, middle, path);
    let fields = seq![seq![0x32u8], xy] + middle + seq![path];
    assert(fields[1] == xy);
    assert(fields[9] == path);
}

/// A record of an unmerged path reports a conflict, whatever its letters.
pub proof fn law_unmerged_record(
    xy: Seq<u8>,
    middle: Seq<Seq<u8>>,
    path: Seq<u8>,
    next: Option<Seq<u8>>,
)
    requires
        is_word(xy),
        middle.len() == 8,
        forall|i: int| 0 <= i < middle.len() ==> is_word(#[trigger] middle[i]),
        path.len() > 0,
    ensures
        record_change(record_text(0x75, xy, middle, path), next) == Ok::<_, Seq<char>>(
            Change {
                path: parse_path(path),
                text: path,
                original_path: None,
                original_text: None,
                status: GitStatus::Conflict,
            },
        ),
{
    lemma_record_fields(0x75, xy, middle, path);
    let fields = seq![seq![0x75u8], xy] + middle + seq![path];
    assert(fields[10] == path);
}

/// A record that begins with a question mark reports an untracked path, spaces
/// and all.
pub proof fn law_untracked_record(path: Seq<u8>, next: Option<Seq<u8>>)
    ensures
        record_change(seq![0x3fu8, 0x20u8] + path, next) == Ok::<_, Seq<char>>(
            Change {
                path: parse_path(path),
                text: path,
                original_path: None,
                original_text: None,
                status: GitStatus::Untracked,
            },
        ),
{
    let record = seq![0x3fu8, 0x20u8] + path;
    assert(record[0] == 0x3f && record[1] == 0x20);
    assert(record.skip(2) =~= path);
}

/// A question mark that no space follows reports nothing, and is told apart from
/// other malformed records.
pub proof fn law_malformed_untracked_record(record: Seq<u8>, next: Option<Seq<u8>>)
    requires
        record.len() > 0,
        record[0] == 0x3f,
        record.len() == 1 || record[1] != 0x20,
    ensures
        record_change(record, next) == Err::<Change, _>("malformed untracked record"@),
{
}

/// A record of another kind is refused, and the kind is named by its number.
pub proof fn law_other_records_are_refused(record: Seq<u8>, next: Option<Seq<u8>>)
    requires
        record.len() > 0,
        record[0] != 0x31 && record[0] != 0x32 && record[0] != 0x75 && record[0] != 0x3f,
    ensures
        record_change(record, next) == Err::<Change, _>(
            "unsupported porcelain v2 record type: "@ + decimal(record[0] as nat),
        ),
{
}

/// A record that has too few fields is malformed.
pub proof fn law_short_records_are_refused(fields: Seq<Seq<u8>>, next: Option<Seq<u8>>)
    requires
        fields.len() > 0,
        forall|i: int| 0 <= i < fields.len() ==> is_word(#[trigger] fields[i]),
        fields[0] == seq![0x31u8] && fields.len() < 9 || (fields[0] == seq![0x32u8] && fields.len()
            < 10) || (fields[0] == seq![0x75u8] && fields.len() < 11),
    ensures
        record_change(spaced(fields), next) == Err::<Change, _>("malformed porcelain v2 record"@),
{
    let record = spaced(fields);
    let count: nat = if fields[0] == seq![0x31u8] {
        9
    } else if fields[0] == seq![0x32u8] {
        10
    } else {
        11
    };
    assert(fields[0].len() == 1);
    assert(record[0] == fields[0][0]);
    lemma_split_short(fields, count);
}

proof fn lemma_split_short(fields: Seq<Seq<u8>>, count: nat)
    requires
        0 < fields.len() < count,
        forall|i: int| 0 <= i < fields.len() ==> is_word(#[trigger] fields[i]),
    ensures
        split_at_most(spaced(fields), 0x20, count).len() == fields.len(),
    decreases fields.len(),
{
    let first = fields[0];
    assert(is_word(fields[0]));
    if fields.len() > 1 {
        let rest = fields.skip(1);
        let text = spaced(fields);
        assert(text == first + seq![0x20u8] + spaced(rest));
        assert forall|j: int| 0 <= j < first.len() implies text[j] != 0x20 by {
            assert(text[j] == first[j]);
            assert(first.contains(first[j]));
        }
        assert(text[first.len() as int] == 0x20);
        lemma_first_index_unique(text, 0x20, first.len() as int);
        assert(text.take(first.len() as int) =~= first);
        assert(text.skip(first.len() + 1int) =~= spaced(rest));
        assert forall|i: int| 0 <= i < rest.len() implies is_word(#[trigger] rest[i]) by {
            assert(rest[i] == fields[i + 1]);
        }
        lemma_split_short(rest, (count - 1) as nat);
    } else {
        assert(spaced(fields) == first);
        assert forall|j: int| 0 <= j < first.len() implies first[j] != 0x20 by {
            assert(first.contains(first[j]));
        }
        lemma_first_index_unique(first, 0x20, first.len() as int);
    }
}

/// A field that is empty makes a record malformed.
pub proof fn law_empty_field_is_refused(
    before: Seq<Seq<u8>>,
    after: Seq<u8>,
    next: Option<Seq<u8>>,
)
    requires
        0 < before.len() < 8,
        before[0] == seq![0x31u8],
        forall|i: int| 0 <= i < before.len() ==> is_word(#[trigger] before[i]),
    ensures
        record_change(spaced(before + seq![Seq::<u8>::empty(), after]), next) == Err::<Change, _>(
            "malformed porcelain v2 record"@,
        ),
{
    let record = spaced(before + seq![Seq::<u8>::empty(), after]);
    assert((before + seq![Seq::<u8>::empty(), after])[0] == before[0]);
    assert(before[0].len() == 1);
    assert(record[0] == 0x31);
    lemma_split_empty(before, after, 9);
}

proof fn lemma_split_empty(before: Seq<Seq<u8>>, after: Seq<u8>, count: nat)
    requires
        before.len() + 1 < count,
        forall|i: int| 0 <= i < before.len() ==> is_word(#[trigger] before[i]),
    ensures
        ({
            let pieces = split_at_most(
                spaced(before + seq![Seq::<u8>::empty(), after]),
                0x20,
                count,
            );
            pieces.len() > before.len() && pieces[before.len() as int].len() == 0
        }),
    decreases before.len(),
{
    let none = Seq::<u8>::empty();
    let fields = before + seq![none, after];
    let text = spaced(fields);
    let first = fields[0];
    let rest = fields.skip(1);
    assert(text == first + seq![0x20u8] + spaced(rest));
    assert forall|j: int| 0 <= j < first.len() implies text[j] != 0x20 by {
        assert(before.len() > 0);
        assert(is_word(before[0]));
        assert(text[j] == first[j]);
        assert(first.contains(first[j]));
    }
    assert(text[first.len() as int] == 0x20);
    lemma_first_index_unique(text, 0x20, first.len() as int);
    assert(text.take(first.len() as int) =~= first);
    assert(text.skip(first.len() + 1int) =~= spaced(rest));
    if before.len() > 0 {
        let fewer = before.skip(1);
        assert(rest =~= fewer + seq![none, after]);
        assert forall|i: int| 0 <= i < fewer.len() implies is_word(#[trigger] fewer[i]) by {
            assert(fewer[i] == before[i + 1]);
        }
        lemma_split_empty(fewer, after, (count - 1) as nat);
    }
}

/// No more changes are read than the cap allows: where there are more, that is
/// told, and nothing is shown.
pub proof fn law_changes_are_capped(record: Seq<u8>, rest: Seq<u8>, output: Seq<u8>, cap: nat)
    requires
        !record.contains(0),
        record.len() > 2,
        record[0] == 0x3f,
        record[1] == 0x20,
    ensures
        porcelain_changes(output, cap) is Ok ==> porcelain_changes(output, cap)->Ok_0.len() <= cap,
        porcelain_changes(record + seq![0u8] + rest, 0) == Err::<Seq<Change>, _>(
            "git change cap reached ("@ + decimal(0) + ")"@,
        ),
        porcelain_changes(rest, cap) == Err::<Seq<Change>, _>(
            "git change cap reached ("@ + decimal(cap) + ")"@,
        ) ==> porcelain_changes(record + seq![0u8] + rest, cap + 1) is Err,
{
    lemma_capped(split(output, 0), cap, 0);
    lemma_split_piece(record, rest);
    let pieces = split(record + seq![0u8] + rest, 0);
    assert(pieces[0] == record);
    assert(pieces.skip(1) =~= split(rest, 0));
    lemma_room_for_one_more(split(rest, 0), cap, 0);
}

proof fn lemma_capped(records: Seq<Seq<u8>>, cap: nat, found: nat)
    ensures
        records_changes(records, cap, found) is Ok && records_changes(records, cap, found)->Ok_0.len()
            > 0 ==> records_changes(records, cap, found)->Ok_0.len() + found <= cap,
    decreases records.len(),
{
    if records.len() > 0 {
        if is_ignored(records[0]) {
            lemma_capped(records.skip(1), cap, found);
        } else {
            lemma_capped(records.skip(1), cap, found + 1);
            if records.len() > 1 {
                lemma_capped(records.skip(2), cap, found + 1);
            }
        }
    }
}

proof fn lemma_split_piece(piece: Seq<u8>, rest: Seq<u8>)
    requires
        !piece.contains(0),
    ensures
        split(piece + seq![0u8] + rest, 0) =~= seq![piece] + split(rest, 0),
{
    let text = piece + seq![0u8] + rest;
    assert forall|j: int| 0 <= j < piece.len() implies text[j] != 0 by {
        assert(text[j] == piece[j]);
        assert(piece.contains(piece[j]));
    }
    assert(text[piece.len() as int] == 0);
    lemma_first_index_unique(text, 0, piece.len() as int);
    assert(text.take(piece.len() as int) =~= piece);
    assert(text.skip(piece.len() + 1int) =~= rest);
}

proof fn lemma_room_for_one_more(records: Seq<Seq<u8>>, cap: nat, found: nat)
    ensures
        records_changes(records, cap, found) is Ok ==> records_changes(records, cap + 1, found + 1)
            == records_changes(records, cap, found),
        records_changes(records, cap, found) is Err ==> records_changes(
            records,
            cap + 1,
            found + 1,
        ) is Err,
    decreases records.len(),
{
    if records.len() > 0 {
        if is_ignored(records[0]) {
            lemma_room_for_one_more(records.skip(1), cap, found);
        } else {
            lemma_room_for_one_more(records.skip(1), cap, found + 1);
            if records.len() > 1 {
                lemma_room_for_one_more(records.skip(2), cap, found + 1);
            }
        }
    }
}

/// A snapshot is read record by record: what a record at its head reports comes
/// first, and what the rest reports follows. A renaming takes the piece behind
/// it along.
pub proof fn law_records_are_read_in_order(
    record: Seq<u8>,
    original: Seq<u8>,
    rest: Seq<u8>,
    cap: nat,
)
    requires
        !record.contains(0),
        !original.contains(0),
        !is_ignored(record),
        porcelain_changes(rest, cap) is Ok,
    ensures
        record[0] != 0x32 && record_change(record, Some(split(rest, 0)[0])) is Ok
            ==> porcelain_changes(record + seq![0u8] + rest, cap + 1) == Ok::<_, Seq<char>>(
            seq![record_change(record, Some(split(rest, 0)[0]))->Ok_0] + porcelain_changes(
                rest,
                cap,
            )->Ok_0,
        ),
        record[0] == 0x32 && record_change(record, Some(original)) is Ok ==> porcelain_changes(
            record + seq![0u8] + (original + seq![0u8] + rest),
            cap + 1,
        ) == Ok::<_, Seq<char>>(
            seq![record_change(record, Some(original))->Ok_0] + porcelain_changes(rest, cap)->Ok_0,
        ),
{
    lemma_split_piece(record, rest);
    lemma_split_piece(original, rest);
    lemma_split_piece(record, original + seq![0u8] + rest);
    lemma_room_for_one_more(split(rest, 0), cap, 0);
    let plain = split(record + seq![0u8] + rest, 0);
    assert(split(rest, 0).len() > 0);
    assert(plain[0] == record);
    assert(plain[1] == split(rest, 0)[0]);
    assert(plain.skip(1) =~= split(rest, 0));
    let renamed = split(record + seq![0u8] + (original + seq![0u8] + rest), 0);
    assert(renamed[0] == record);
    assert(renamed[1] == original);
    assert(renamed.skip(2) =~= split(rest, 0));
}

/// Headers and ignored paths report nothing, and neither do empty pieces.
pub proof fn law_headers_report_nothing(record: Seq<u8>, rest: Seq<u8>, cap: nat)
    requires
        !record.contains(0),
        record.len() == 0 || (record.len() >= 2 && record[1] == 0x20 && (record[0] == 0x23
            || record[0] == 0x21)),
    ensures
        porcelain_changes(record + seq![0u8] + rest, cap) == porcelain_changes(rest, cap),
        porcelain_changes(Seq::empty(), cap) == Ok::<_, Seq<char>>(Seq::<Change>::empty()),
{
    lemma_split_piece(record, rest);
    let pieces = split(record + seq![0u8] + rest, 0);
    assert(pieces[0] == record);
    assert(pieces.skip(1) =~= split(rest, 0));
    let none = Seq::<u8>::empty();
    assert(split(none, 0) =~= seq![none]);
    assert(split(none, 0).skip(1) =~= Seq::<Seq<u8>>::empty());
    assert(records_changes(split(none, 0).skip(1), cap, 0) == Ok::<_, Seq<char>>(
        Seq::<Change>::empty(),
    ));
}

/// A reported path lies below the root, name by name. One that is empty, begins
/// at the root of the disk or steps upwards lies nowhere.
pub proof fn law_reported_paths_are_placed(root: Seq<Part>, relative: Seq<Part>)
    ensures
        relative.len() > 0 && (forall|i: int|
            0 <= i < relative.len() ==> (#[trigger] relative[i]) is Normal) ==> safe_joined(
            root,
            relative,
        ) == Some(root + relative),
        relative.len() > 0 && (forall|i: int|
            0 <= i < relative.len() ==> (#[trigger] relative[i]) is Normal || relative[i]
                is CurDir) ==> safe_joined(root, relative) is Some,
        relative.len() == 0 ==> safe_joined(root, relative) is None,
        (exists|i: int|
            0 <= i < relative.len() && ((#[trigger] relative[i]) is RootDir || relative[i]
                is ParentDir)) ==> safe_joined(root, relative) is None,
{
    if relative.len() > 0 && (forall|i: int|
        0 <= i < relative.len() ==> (#[trigger] relative[i]) is Normal) {
        assert(relative[0] is Normal);
    }
}

} // verus!
