//! Byte sequences: equality, order, and splitting at a separator.

use vstd::prelude::*;

verus! {

/// The index of the first `sep` in `s`, or the length of `s` when there is none.
pub open spec fn first_index(s: Seq<u8>, sep: u8) -> nat
    decreases s.len(),
{
    if s.len() == 0 || s[0] == sep {
        0
    } else {
        1 + first_index(s.skip(1), sep)
    }
}

/// The pieces of `s` between separators, in order. There is always one more
/// piece than there are separators, so an empty `s` has one empty piece.
pub open spec fn split(s: Seq<u8>, sep: u8) -> Seq<Seq<u8>>
    decreases s.len(),
    via split_decreases
{
    let i = first_index(s, sep);
    if i >= s.len() {
        seq![s]
    } else {
        seq![s.take(i as int)] + split(s.skip(i + 1int), sep)
    }
}

#[via_fn]
proof fn split_decreases(s: Seq<u8>, sep: u8) {
    lemma_first_index(s, sep);
}

/// At most `count` pieces: the first `count - 1` separators split, and the last
/// piece keeps whatever separators are left.
pub open spec fn split_at_most(s: Seq<u8>, sep: u8, count: nat) -> Seq<Seq<u8>>
    decreases count,
{
    let i = first_index(s, sep);
    if count == 0 {
        seq![]
    } else if count == 1 || i >= s.len() {
        seq![s]
    } else {
        seq![s.take(i as int)] + split_at_most(s.skip(i + 1int), sep, (count - 1) as nat)
    }
}

/// What `first_index` says: no separator comes before it, and one stands at it
/// unless it is the end.
pub proof fn lemma_first_index(s: Seq<u8>, sep: u8)
    ensures
        first_index(s, sep) <= s.len(),
        first_index(s, sep) < s.len() ==> s[first_index(s, sep) as int] == sep,
        forall|j: int| 0 <= j < first_index(s, sep) ==> s[j] != sep,
    decreases s.len(),
{
    if s.len() > 0 && s[0] != sep {
        let rest = s.skip(1);
        lemma_first_index(rest, sep);
        assert forall|j: int| 0 <= j < first_index(s, sep) implies s[j] != sep by {
            if j > 0 {
                assert(rest[j - 1] == s[j]);
            }
        }
    }
}

/// `first_index` is the only index with that property.
pub proof fn lemma_first_index_unique(s: Seq<u8>, sep: u8, i: int)
    requires
        0 <= i <= s.len(),
        i < s.len() ==> s[i] == sep,
        forall|j: int| 0 <= j < i ==> s[j] != sep,
    ensures
        first_index(s, sep) == i,
{
    lemma_first_index(s, sep);
}

/// The contents of a list of byte vectors.
pub open spec fn pieces_view(pieces: Seq<Vec<u8>>) -> Seq<Seq<u8>> {
    pieces.map_values(|piece: Vec<u8>| piece@)
}

/// Copies `bytes[from..to]`.
pub fn copy_range(bytes: &[u8], from: usize, to: usize) -> (copy: Vec<u8>)
    requires
        from <= to <= bytes@.len(),
    ensures
        copy@ == bytes@.subrange(from as int, to as int),
{
    let mut copy: Vec<u8> = Vec::new();
    let mut i: usize = from;
    while i < to
        invariant
            from <= i <= to <= bytes@.len(),
            copy@ == bytes@.subrange(from as int, i as int),
        decreases to - i,
    {
        copy.push(bytes[i]);
        i += 1;
        assert(copy@ =~= bytes@.subrange(from as int, i as int));
    }
    copy
}

/// A copy of `bytes`.
pub fn copy_bytes(bytes: &Vec<u8>) -> (copy: Vec<u8>)
    ensures
        copy@ == bytes@,
{
    let copy = copy_range(bytes.as_slice(), 0, bytes.len());
    assert(copy@ =~= bytes@);
    copy
}

/// Whether two byte vectors hold the same bytes.
pub fn bytes_equal(left: &Vec<u8>, right: &Vec<u8>) -> (equal: bool)
    ensures
        equal == (left@ == right@),
{
    if left.len() != right.len() {
        return false;
    }
    let mut i: usize = 0;
    while i < left.len()
        invariant
            i <= left@.len() == right@.len(),
            forall|j: int| 0 <= j < i ==> left@[j] == right@[j],
        decreases left@.len() - i,
    {
        if left[i] != right[i] {
            return false;
        }
        i += 1;
    }
    assert(left@ =~= right@);
    true
}

/// Whether `left` comes before `right` in the order of file names: byte by byte,
/// a prefix before what continues it.
pub open spec fn bytes_before(left: Seq<u8>, right: Seq<u8>) -> bool
    decreases right.len(),
{
    if right.len() == 0 {
        false
    } else if left.len() == 0 {
        true
    } else if left[0] != right[0] {
        left[0] < right[0]
    } else {
        bytes_before(left.skip(1), right.skip(1))
    }
}

/// Of two byte sequences one comes first, unless they are equal.
pub proof fn lemma_bytes_before_total(left: Seq<u8>, right: Seq<u8>)
    ensures
        bytes_before(left, right) ==> !bytes_before(right, left) && left != right,
        left != right ==> bytes_before(left, right) || bytes_before(right, left),
    decreases right.len(),
{
    if left.len() > 0 && right.len() > 0 && left[0] == right[0] {
        lemma_bytes_before_total(left.skip(1), right.skip(1));
        if left.skip(1) == right.skip(1) {
            assert(left =~= seq![left[0]] + left.skip(1));
            assert(right =~= seq![right[0]] + right.skip(1));
        }
    } else if left.len() == 0 && right.len() == 0 {
        assert(left =~= right);
    }
}

/// The order of byte sequences is transitive.
pub proof fn lemma_bytes_before_transitive(first: Seq<u8>, second: Seq<u8>, third: Seq<u8>)
    requires
        bytes_before(first, second),
        bytes_before(second, third),
    ensures
        bytes_before(first, third),
    decreases third.len(),
{
    if first.len() > 0 && second.len() > 0 && third.len() > 0 && first[0] == second[0] && second[0]
        == third[0] {
        lemma_bytes_before_transitive(first.skip(1), second.skip(1), third.skip(1));
    }
}

/// Whether `left` comes before `right`.
pub fn bytes_less(left: &Vec<u8>, right: &Vec<u8>) -> (less: bool)
    ensures
        less == bytes_before(left@, right@),
{
    let mut i: usize = 0;
    assert(left@.skip(0) =~= left@);
    assert(right@.skip(0) =~= right@);
    while i < left.len() && i < right.len()
        invariant
            i <= left@.len(),
            i <= right@.len(),
            bytes_before(left@, right@) == bytes_before(
                left@.skip(i as int),
                right@.skip(i as int),
            ),
        decreases right@.len() - i,
    {
        if left[i] != right[i] {
            return left[i] < right[i];
        }
        assert(left@.skip(i as int).skip(1) =~= left@.skip(i + 1));
        assert(right@.skip(i as int).skip(1) =~= right@.skip(i + 1));
        i += 1;
    }
    i < right.len()
}

/// Where the first `sep` at or after `from` stands, or the length.
fn find_from(bytes: &[u8], from: usize, sep: u8) -> (index: usize)
    requires
        from <= bytes@.len(),
    ensures
        from <= index <= bytes@.len(),
        index == from + first_index(bytes@.skip(from as int), sep),
{
    let mut i: usize = from;
    while i < bytes.len() && bytes[i] != sep
        invariant
            from <= i <= bytes@.len(),
            forall|j: int| from <= j < i ==> bytes@[j] != sep,
        decreases bytes@.len() - i,
    {
        i += 1;
    }
    proof {
        let rest = bytes@.skip(from as int);
        assert forall|j: int| 0 <= j < i - from implies rest[j] != sep by {
            assert(rest[j] == bytes@[from + j]);
        }
        lemma_first_index_unique(rest, sep, i - from);
    }
    i
}

/// Splits `bytes` at every `sep`.
pub fn split_bytes(bytes: &[u8], sep: u8) -> (pieces: Vec<Vec<u8>>)
    ensures
        pieces_view(pieces@) == split(bytes@, sep),
{
    let mut pieces: Vec<Vec<u8>> = Vec::new();
    let mut start: usize = 0;
    proof {
        assert(bytes@.skip(0) =~= bytes@);
        assert(pieces_view(pieces@) + split(bytes@, sep) =~= split(bytes@, sep));
    }
    loop
        invariant
            start <= bytes@.len(),
            pieces_view(pieces@) + split(bytes@.skip(start as int), sep) == split(bytes@, sep),
        decreases bytes@.len() - start,
    {
        let end = find_from(bytes, start, sep);
        let ghost before = pieces_view(pieces@);
        let ghost rest = bytes@.skip(start as int);
        let piece = copy_range(bytes, start, end);
        assert(piece@ =~= rest.take(end - start));
        pieces.push(piece);
        assert(pieces_view(pieces@) =~= before.push(piece@));
        if end >= bytes.len() {
            assert(rest.take(end - start) =~= rest);
            assert(pieces_view(pieces@) =~= before + split(rest, sep));
            return pieces;
        }
        assert(rest.skip(end - start + 1) =~= bytes@.skip(end + 1));
        assert(before.push(piece@) + split(bytes@.skip(end + 1), sep) =~= before + split(rest, sep));
        start = end + 1;
    }
}

/// Splits `bytes` into at most `count` pieces.
pub fn split_bytes_at_most(bytes: &[u8], sep: u8, count: usize) -> (pieces: Vec<Vec<u8>>)
    ensures
        pieces_view(pieces@) == split_at_most(bytes@, sep, count as nat),
{
    let mut pieces: Vec<Vec<u8>> = Vec::new();
    if count == 0 {
        assert(pieces_view(pieces@) =~= split_at_most(bytes@, sep, 0));
        return pieces;
    }
    let mut start: usize = 0;
    let mut left: usize = count;
    proof {
        assert(bytes@.skip(0) =~= bytes@);
        assert(pieces_view(pieces@) + split_at_most(bytes@, sep, count as nat) =~= split_at_most(
            bytes@,
            sep,
            count as nat,
        ));
    }
    loop
        invariant
            start <= bytes@.len(),
            left >= 1,
            pieces_view(pieces@) + split_at_most(bytes@.skip(start as int), sep, left as nat)
                == split_at_most(bytes@, sep, count as nat),
        decreases left,
    {
        let ghost before = pieces_view(pieces@);
        let ghost rest = bytes@.skip(start as int);
        let end = find_from(bytes, start, sep);
        if left == 1 || end >= bytes.len() {
            let piece = copy_range(bytes, start, bytes.len());
            assert(piece@ =~= rest);
            pieces.push(piece);
            assert(pieces_view(pieces@) =~= before + split_at_most(rest, sep, left as nat));
            return pieces;
        }
        let piece = copy_range(bytes, start, end);
        assert(piece@ =~= rest.take(end - start));
        pieces.push(piece);
        assert(pieces_view(pieces@) =~= before.push(piece@));
        assert(rest.skip(end - start + 1) =~= bytes@.skip(end + 1));
        assert(before.push(piece@) + split_at_most(bytes@.skip(end + 1), sep, (left - 1) as nat)
            =~= before + split_at_most(rest, sep, left as nat));
        start = end + 1;
        left -= 1;
    }
}

} // verus!
