//! The bytes of a path and its components say the same.

use vstd::prelude::*;

use crate::bytes::{first_index, lemma_first_index, lemma_first_index_unique, split};
use crate::path::{
    child_path, dot, dot_dot, head_length, join_paths, joined_bytes, parent_bytes, parent_of,
    parse_path, part_bytes, path_bytes, piece_parts, rest_parts, slash, without_name, without_tail,
    Part,
};

verus! {

/// Whether some bytes can be the name of a file.
pub open spec fn is_name(name: Seq<u8>) -> bool {
    name.len() > 0 && name != dot() && name != dot_dot() && !name.contains(slash())
}

proof fn lemma_split_joined(left: Seq<u8>, right: Seq<u8>)
    ensures
        split(left.push(slash()) + right, slash()) == split(left, slash()) + split(
            right,
            slash(),
        ),
    decreases left.len(),
{
    let sep = slash();
    let whole = left.push(sep) + right;
    let i = first_index(left, sep);
    lemma_first_index(left, sep);
    lemma_first_index(whole, sep);
    if i >= left.len() {
        lemma_first_index_unique(whole, sep, left.len() as int);
        assert(whole.take(left.len() as int) =~= left);
        assert(whole.skip(left.len() + 1int) =~= right);
    } else {
        lemma_first_index_unique(whole, sep, i as int);
        let rest = left.skip(i + 1int);
        assert(whole.take(i as int) =~= left.take(i as int));
        assert(whole.skip(i + 1int) =~= rest.push(sep) + right);
        lemma_split_joined(rest, right);
        let first = seq![left.take(i as int)];
        assert(first + (split(rest, sep) + split(right, sep)) =~= (first + split(rest, sep))
            + split(right, sep));
    }
}

pub proof fn lemma_split_plain(text: Seq<u8>)
    requires
        !text.contains(slash()),
    ensures
        split(text, slash()) == seq![text],
{
    lemma_first_index(text, slash());
    if first_index(text, slash()) < text.len() {
        assert(text.contains(slash()));
    }
}

proof fn lemma_split_head(text: Seq<u8>)
    ensures
        split(text, slash()).len() > 0,
        split(text, slash())[0].len() == 0 <==> text.len() == 0 || text[0] == slash(),
{
    lemma_first_index(text, slash());
}

proof fn lemma_rest_joined(left: Seq<Seq<u8>>, right: Seq<Seq<u8>>)
    ensures
        rest_parts(left + right) == rest_parts(left) + rest_parts(right),
    decreases right.len(),
{
    if right.len() == 0 {
        assert(left + right =~= left);
        assert(rest_parts(left) + rest_parts(right) =~= rest_parts(left));
    } else {
        assert((left + right).drop_last() =~= left + right.drop_last());
        lemma_rest_joined(left, right.drop_last());
        let last = piece_parts(right.last(), false);
        assert(rest_parts(left) + (rest_parts(right.drop_last()) + last) =~= (rest_parts(left)
            + rest_parts(right.drop_last())) + last);
    }
}

proof fn lemma_rest_one(piece: Seq<u8>)
    ensures
        rest_parts(seq![piece]) == piece_parts(piece, false),
{
    let none = Seq::<Seq<u8>>::empty();
    assert(seq![piece].drop_last() =~= none);
    assert(rest_parts(none) =~= Seq::<Part>::empty());
    assert(seq![piece].last() == piece);
    assert(rest_parts(seq![piece]) =~= piece_parts(piece, false));
}

/// No component behind the first is a root or a `.`, and names are names.
spec fn is_inner(part: Part) -> bool {
    match part {
        Part::ParentDir => true,
        Part::Normal(name) => is_name(name),
        _ => false,
    }
}

proof fn lemma_rest_inner(pieces: Seq<Seq<u8>>)
    requires
        forall|i: int| 0 <= i < pieces.len() ==> !(#[trigger] pieces[i]).contains(slash()),
    ensures
        forall|i: int|
            0 <= i < rest_parts(pieces).len() ==> is_inner(#[trigger] rest_parts(pieces)[i]),
    decreases pieces.len(),
{
    if pieces.len() > 0 {
        let front = pieces.drop_last();
        assert forall|i: int| 0 <= i < front.len() implies !(#[trigger] front[i]).contains(
            slash(),
        ) by {
            assert(front[i] == pieces[i]);
        }
        lemma_rest_inner(front);
        let last = pieces.last();
        assert(!pieces[pieces.len() - 1].contains(slash()));
        let before = rest_parts(front);
        assert forall|i: int| 0 <= i < rest_parts(pieces).len() implies is_inner(
            #[trigger] rest_parts(pieces)[i],
        ) by {
            if i < before.len() {
                assert(rest_parts(pieces)[i] == before[i]);
            } else {
                assert(rest_parts(pieces)[i] == piece_parts(last, false)[i - before.len()]);
            }
        }
    }
}

proof fn lemma_split_pieces(text: Seq<u8>)
    ensures
        forall|i: int|
            0 <= i < split(text, slash()).len() ==> !(#[trigger] split(text, slash())[i]).contains(
                slash(),
            ),
    decreases text.len(),
{
    let i = first_index(text, slash());
    lemma_first_index(text, slash());
    if i < text.len() {
        let rest = text.skip(i + 1int);
        lemma_split_pieces(rest);
        let pieces = split(text, slash());
        assert forall|j: int| 0 <= j < pieces.len() implies !(#[trigger] pieces[j]).contains(
            slash(),
        ) by {
            if j > 0 {
                assert(pieces[j] == split(rest, slash())[j - 1]);
            }
        }
    }
}

proof fn lemma_parsed_inner(text: Seq<u8>)
    ensures
        forall|i: int| 0 < i < parse_path(text).len() ==> is_inner(#[trigger] parse_path(text)[i]),
        text.len() > 0 ==> parse_path(text).len() > 0,
        parse_path(text).len() > 0 && !is_inner(parse_path(text)[0]) ==> parse_path(text)[0]
            == Part::RootDir || parse_path(text)[0] == Part::CurDir,
        text.len() > 0 && text[0] == slash() <==> parse_path(text).len() > 0 && parse_path(text)[0]
            == Part::RootDir,
        text.len() == 0 ==> parse_path(text).len() == 0,
{
    let pieces = split(text, slash());
    lemma_split_head(text);
    lemma_split_pieces(text);
    let rest = pieces.skip(1);
    assert forall|i: int| 0 <= i < rest.len() implies !(#[trigger] rest[i]).contains(slash()) by {
        assert(rest[i] == pieces[i + 1]);
    }
    lemma_rest_inner(rest);
    assert(!pieces[0].contains(slash()));
    if text.len() == 0 {
        assert(!text.contains(slash()));
        lemma_split_plain(text);
        assert(rest =~= Seq::<Seq<u8>>::empty());
    }
    let head = if text.len() > 0 && text[0] == slash() {
        seq![Part::RootDir]
    } else {
        piece_parts(pieces[0], true)
    };
    assert(head.len() <= 1);
    assert(parse_path(text) == head + rest_parts(rest));
    assert forall|i: int| 0 < i < parse_path(text).len() implies is_inner(
        #[trigger] parse_path(text)[i],
    ) by {
        assert(parse_path(text)[i] == rest_parts(rest)[i - head.len()]);
    }
}

/// What stands behind a slash adds its components to those before the slash.
proof fn lemma_parsed_behind(left: Seq<u8>, right: Seq<u8>)
    ensures
        left.len() > 0 ==> parse_path(left.push(slash()) + right) == parse_path(left) + rest_parts(
            split(right, slash()),
        ),
        left.len() == 0 ==> parse_path(left.push(slash()) + right) == seq![Part::RootDir]
            + rest_parts(split(right, slash())),
{
    let whole = left.push(slash()) + right;
    let before = split(left, slash());
    let behind = split(right, slash());
    lemma_split_joined(left, right);
    lemma_split_head(left);
    assert((before + behind).skip(1) =~= before.skip(1) + behind);
    lemma_rest_joined(before.skip(1), behind);
    if left.len() > 0 {
        assert(whole[0] == left[0]);
        assert((before + behind)[0] == before[0]);
        let head = if left[0] == slash() {
            seq![Part::RootDir]
        } else {
            piece_parts(before[0], true)
        };
        assert(head + (rest_parts(before.skip(1)) + rest_parts(behind)) =~= (head + rest_parts(
            before.skip(1),
        )) + rest_parts(behind));
    } else {
        assert(whole[0] == slash());
        assert(!left.contains(slash()));
        lemma_split_plain(left);
        assert(before.skip(1) =~= Seq::<Seq<u8>>::empty());
        assert(rest_parts(before.skip(1)) + rest_parts(behind) =~= rest_parts(behind));
    }
}

proof fn lemma_parsed_slash(left: Seq<u8>)
    requires
        left.len() > 0,
    ensures
        parse_path(left.push(slash())) == parse_path(left),
{
    let none = Seq::<u8>::empty();
    lemma_parsed_behind(left, none);
    assert(left.push(slash()) + none =~= left.push(slash()));
    lemma_split_plain(none);
    lemma_rest_one(none);
    assert(parse_path(left) + piece_parts(none, false) =~= parse_path(left));
}

/// Paths are read piece by piece. Behind a slash a name is one more component,
/// two dots step upwards, and one dot or nothing adds nothing; at the beginning a
/// single dot counts, and a slash begins at the root.
pub proof fn law_paths_are_read_by_pieces(text: Seq<u8>, piece: Seq<u8>)
    requires
        !piece.contains(0x2f),
    ensures
        ({
            let longer = parse_path(text + seq![0x2fu8] + piece);
            let before = if text.len() == 0 {
                seq![Part::RootDir]
            } else {
                parse_path(text)
            };
            let idle = piece.len() == 0 || piece == seq![0x2eu8];
            let upwards = piece == seq![0x2eu8, 0x2eu8];
            &&& idle ==> longer == before
            &&& upwards ==> longer == before.push(Part::ParentDir)
            &&& !idle && !upwards ==> longer == before.push(Part::Normal(piece))
            &&& piece.len() == 0 ==> parse_path(piece).len() == 0
            &&& piece == seq![0x2eu8] ==> parse_path(piece) == seq![Part::CurDir]
            &&& upwards ==> parse_path(piece) == seq![Part::ParentDir]
            &&& !idle && !upwards ==> parse_path(piece) == seq![Part::Normal(piece)]
        }),
{
    assert(text + seq![0x2fu8] + piece =~= text.push(slash()) + piece);
    lemma_parsed_behind(text, piece);
    lemma_split_plain(piece);
    lemma_rest_one(piece);
    let before = if text.len() == 0 {
        seq![Part::RootDir]
    } else {
        parse_path(text)
    };
    let longer = parse_path(text + seq![0x2fu8] + piece);
    assert(longer == before + piece_parts(piece, false));
    if piece.len() == 0 || piece == seq![0x2eu8] {
        assert(longer =~= before);
    } else if piece == seq![0x2eu8, 0x2eu8] {
        assert(longer =~= before.push(Part::ParentDir));
    } else {
        assert(longer =~= before.push(Part::Normal(piece)));
    }
    if piece.len() > 0 {
        assert(piece[0] != slash()) by {
            if piece[0] == slash() {
                assert(piece.contains(slash()));
            }
        }
    }
    let none = Seq::<Part>::empty();
    assert(split(piece, slash()).skip(1) =~= Seq::<Seq<u8>>::empty());
    assert(rest_parts(split(piece, slash()).skip(1)) =~= none);
    assert(parse_path(piece) =~= piece_parts(piece, true));
}

/// Joining goes on from a base, unless what is joined begins at the root.
pub proof fn law_joined_paths(base: Seq<Part>, relative: Seq<Part>)
    ensures
        base.len() == 0 ==> join_paths(base, relative) == relative,
        relative.len() > 0 && relative[0] is RootDir ==> join_paths(base, relative) == relative,
        base.len() > 0 && relative.len() == 0 ==> join_paths(base, relative) == base,
        base.len() > 0 && relative.len() > 0 && (relative[0] is Normal || relative[0] is ParentDir)
            ==> join_paths(base, relative) == base + relative,
        base.len() > 0 && relative.len() > 0 && relative[0] is CurDir ==> join_paths(base, relative)
            == base + relative.drop_first(),
{
    if relative.len() == 0 {
        assert(base + relative =~= base);
    } else {
        assert(relative.skip(1) =~= relative.drop_first());
    }
}

/// Bytes of a base and of what is joined to it, as components.
proof fn lemma_parsed_added(base: Seq<u8>, relative: Seq<u8>)
    requires
        base.len() > 0,
        !(relative.len() > 0 && relative[0] == slash()),
    ensures
        parse_path(joined_bytes(base, relative)) == parse_path(base) + rest_parts(
            split(relative, slash()),
        ),
{
    if base.last() == slash() {
        let front = base.drop_last();
        assert(base =~= front.push(slash()));
        lemma_parsed_behind(front, relative);
        if front.len() > 0 {
            lemma_parsed_slash(front);
        } else {
            let none = Seq::<u8>::empty();
            lemma_parsed_behind(front, none);
            assert(front.push(slash()) + none =~= base);
            lemma_split_plain(none);
            lemma_rest_one(none);
            assert(seq![Part::RootDir] + piece_parts(none, false) =~= seq![Part::RootDir]);
        }
    } else {
        lemma_parsed_behind(base, relative);
    }
}

/// The bytes of a joined path are a way to write it.
pub proof fn law_joined_bytes_write_the_joined_path(base: Seq<u8>, relative: Seq<u8>)
    ensures
        parse_path(joined_bytes(base, relative)) == join_paths(
            parse_path(base),
            parse_path(relative),
        ),
{
    lemma_parsed_inner(base);
    lemma_parsed_inner(relative);
    if relative.len() > 0 && relative[0] == slash() {
    } else if base.len() == 0 {
        assert(base + relative =~= relative);
    } else {
        lemma_parsed_added(base, relative);
        let pieces = split(relative, slash());
        lemma_split_head(relative);
        assert(pieces =~= seq![pieces[0]] + pieces.skip(1));
        lemma_rest_joined(seq![pieces[0]], pieces.skip(1));
        lemma_rest_one(pieces[0]);
        let rest = rest_parts(pieces.skip(1));
        let parsed = parse_path(relative);
        assert(parsed == piece_parts(pieces[0], true) + rest);
        if pieces[0] == dot() {
            assert(parsed.skip(1) =~= rest);
            assert(piece_parts(pieces[0], false) + rest =~= rest);
        } else {
            assert(rest_parts(pieces) == parsed);
            if parsed.len() > 0 && parsed[0] == Part::CurDir {
                lemma_split_pieces(relative);
                assert forall|i: int| 0 <= i < pieces.skip(1).len() implies !(
                #[trigger] pieces.skip(1)[i]).contains(slash()) by {
                    assert(pieces.skip(1)[i] == pieces[i + 1]);
                }
                lemma_rest_inner(pieces.skip(1));
                if piece_parts(pieces[0], true).len() == 0 {
                    assert(is_inner(rest[0]));
                }
            }
        }
    }
}

/// The bytes of a name below a path are a way to write the path of that name.
pub proof fn law_child_bytes_write_the_child(base: Seq<u8>, name: Seq<u8>)
    requires
        is_name(name),
    ensures
        parse_path(joined_bytes(base, name)) == child_path(parse_path(base), name),
{
    law_joined_bytes_write_the_joined_path(base, name);
    lemma_split_plain(name);
    assert(name[0] != slash()) by {
        if name[0] == slash() {
            assert(name.contains(slash()));
        }
    }
    assert(split(name, slash()).skip(1) =~= Seq::<Seq<u8>>::empty());
    assert(parse_path(name) =~= seq![Part::Normal(name)]);
    assert(parse_path(base) + seq![Part::Normal(name)] =~= child_path(parse_path(base), name));
    assert(Seq::<Part>::empty().push(Part::Normal(name)) =~= seq![Part::Normal(name)]);
}

/// Whether the last byte of a text belongs to no component, once something
/// stands before it.
spec fn ends_idly(text: Seq<u8>) -> bool {
    text.len() > 0 && (text.last() == slash() || (text.last() == 0x2e && text.len() > 1
        && text[text.len() - 2] == slash()))
}

proof fn lemma_idle_end(text: Seq<u8>)
    requires
        ends_idly(text),
        text.len() > 1,
    ensures
        parse_path(text.drop_last()) == parse_path(text),
{
    let front = text.drop_last();
    if text.last() == slash() {
        assert(text =~= front.push(slash()));
        lemma_parsed_slash(front);
    } else {
        let before = front.drop_last();
        let none = Seq::<u8>::empty();
        assert(front =~= before.push(slash()) + none);
        assert(text =~= before.push(slash()) + dot());
        lemma_parsed_behind(before, dot());
        lemma_parsed_behind(before, none);
        assert(!dot().contains(slash()));
        lemma_split_plain(dot());
        lemma_split_plain(none);
        lemma_rest_one(dot());
        lemma_rest_one(none);
    }
}

/// Slashes and `.` components at the end of a path are no components.
proof fn lemma_tail_is_nothing(text: Seq<u8>, length: int)
    requires
        0 < length <= text.len(),
        head_length(text) <= length,
    ensures
        ({
            let head = head_length(text);
            let prefix = text.take(length);
            let bare = without_tail(prefix, head);
            &&& parse_path(bare) == parse_path(prefix)
            &&& 0 < bare.len() <= length
            &&& head <= bare.len()
            &&& bare == text.take(bare.len() as int)
            &&& bare.len() > head ==> !ends_idly(bare)
            &&& bare.len() < length ==> ends_idly(text.take(bare.len() + 1int))
        }),
    decreases length,
{
    let prefix = text.take(length);
    if prefix.len() > head_length(text) && ends_idly(prefix) {
        let front = prefix.drop_last();
        assert(front =~= text.take(length - 1));
        if front.len() == 0 {
            assert(text[0] == slash());
        } else {
            lemma_idle_end(prefix);
            lemma_tail_is_nothing(text, length - 1);
            let bare = without_tail(front, head_length(text));
            if bare.len() == length - 1 {
                assert(text.take(bare.len() + 1int) =~= prefix);
            }
        }
    }
}

/// What stands before the last name ends with a slash, or is nothing.
proof fn lemma_name_is_last(text: Seq<u8>, head: nat)
    requires
        head <= text.len(),
    ensures
        ({
            let front = without_name(text, head);
            &&& head <= front.len() <= text.len()
            &&& front == text.take(front.len() as int)
            &&& forall|i: int| front.len() <= i < text.len() ==> text[i] != slash()
            &&& front.len() == head || front.last() == slash()
        }),
    decreases text.len(),
{
    if text.len() > head && text.last() != slash() {
        lemma_name_is_last(text.drop_last(), head);
        let front = without_name(text, head);
        assert(text.take(front.len() as int) =~= text.drop_last().take(front.len() as int));
        assert forall|i: int| front.len() <= i < text.len() implies text[i] != slash() by {
            if i < text.len() - 1 {
                assert(text.drop_last()[i] == text[i]);
            }
        }
    } else {
        assert(text.take(text.len() as int) =~= text);
    }
}

/// The bytes of the enclosing path are a way to write it.
pub proof fn law_parent_bytes_write_the_parent(text: Seq<u8>)
    requires
        parent_of(parse_path(text)) is Some,
    ensures
        parent_of(parse_path(text)) == Some(parse_path(parent_bytes(text))),
{
    lemma_parsed_inner(text);
    let none = Seq::<u8>::empty();
    lemma_parsed_inner(none);
    let head = head_length(text);
    let bare = without_tail(text, head);
    assert(text.take(text.len() as int) =~= text);
    lemma_tail_is_nothing(text, text.len() as int);
    if bare.len() <= head {
        assert(bare =~= seq![text[0]]);
        if text[0] == slash() {
            lemma_parsed_inner(bare);
            let slashed = none.push(slash());
            assert(bare =~= slashed + none);
            lemma_parsed_behind(none, none);
            lemma_split_plain(none);
            lemma_rest_one(none);
            assert(parse_path(bare) =~= seq![Part::RootDir]);
        } else {
            assert(bare =~= dot());
            assert(!dot().contains(slash()));
            lemma_split_plain(dot());
            assert(split(dot(), slash()).skip(1) =~= Seq::<Seq<u8>>::empty());
            assert(parse_path(bare) =~= seq![Part::CurDir]);
            assert(parse_path(bare).drop_last() =~= parse_path(none));
        }
    } else {
        lemma_name_is_last(bare, head);
        let front = without_name(bare, head);
        let name = bare.skip(front.len() as int);
        assert(!name.contains(slash())) by {
            if name.contains(slash()) {
                let i = name.index_of(slash());
                assert(bare[i + front.len()] == slash());
            }
        }
        assert(name.len() > 0) by {
            if name.len() == 0 {
                assert(front =~= bare);
                assert(bare.last() == slash());
            }
        }
        lemma_split_plain(name);
        lemma_rest_one(name);
        if front.len() > 0 {
            assert(front.last() == slash()) by {
                if front.last() != slash() {
                    assert(front.len() == 1 && head == 1);
                    assert(text[0] == 0x2e && text[1] == slash());
                    assert(bare[1] == text[1]);
                }
            }
            let before = front.drop_last();
            assert(front =~= before.push(slash()));
            assert(bare =~= before.push(slash()) + name);
            lemma_parsed_behind(before, name);
            assert(front =~= before.push(slash()) + none);
            lemma_parsed_behind(before, none);
            lemma_split_plain(none);
            lemma_rest_one(none);
            assert(parse_path(front) + Seq::<Part>::empty() =~= parse_path(front));
            if name == dot() {
                assert(bare.last() == dot()[0]);
                assert(bare[bare.len() - 2] == front.last());
            }
            assert(parse_path(bare) == parse_path(front) + piece_parts(name, false));
            assert(parse_path(bare).drop_last() =~= parse_path(front));
            assert(front =~= text.take(front.len() as int));
            lemma_tail_is_nothing(text, front.len() as int);
        } else {
            assert(name =~= bare);
            if name == dot() {
                if bare.len() < text.len() {
                    assert(text.take(2).last() == text[1]);
                    assert(text[0] == bare[0]);
                }
                assert(text[0] == bare[0]);
            }
            assert(bare[0] != slash());
            assert(split(bare, slash()).skip(1) =~= Seq::<Seq<u8>>::empty());
            assert(parse_path(bare) =~= piece_parts(name, true));
            assert(parse_path(bare).drop_last() =~= parse_path(none));
            assert(front =~= none);
        }
    }
}

proof fn lemma_plain_bytes(path: Seq<Part>)
    requires
        forall|i: int| 0 < i < path.len() ==> is_inner(#[trigger] path[i]),
        path.len() > 0 ==> is_inner(path[0]) || path[0] == Part::RootDir || path[0]
            == Part::CurDir,
    ensures
        parse_path(path_bytes(path)) == path,
        path.len() > 0 ==> path_bytes(path).len() > 0,
    decreases path.len(),
{
    let none = Seq::<u8>::empty();
    lemma_parsed_inner(none);
    assert(!dot().contains(slash()));
    assert(!dot_dot().contains(slash()));
    if path.len() == 0 {
        assert(path_bytes(path) =~= none);
        assert(parse_path(none) =~= path);
    } else if path.len() == 1 {
        let text = path_bytes(path);
        if path[0] == Part::RootDir {
            lemma_parsed_behind(none, none);
            assert(text =~= none.push(slash()) + none);
            lemma_split_plain(none);
            lemma_rest_one(none);
        } else {
            assert(!text.contains(slash()));
            lemma_split_plain(text);
            assert(text[0] != slash()) by {
                if text[0] == slash() {
                    assert(text.contains(slash()));
                }
            }
            assert(split(text, slash()).skip(1) =~= Seq::<Seq<u8>>::empty());
            assert(dot() != dot_dot()) by {
                assert(dot().len() != dot_dot().len());
            }
        }
        assert(parse_path(text) =~= path);
    } else {
        let front = path.drop_last();
        let last = path.last();
        assert(is_inner(path[path.len() - 1]));
        assert forall|i: int| 0 < i < front.len() implies is_inner(#[trigger] front[i]) by {
            assert(front[i] == path[i]);
        }
        lemma_plain_bytes(front);
        let name = part_bytes(last);
        assert(!name.contains(slash()));
        lemma_split_plain(name);
        lemma_rest_one(name);
        assert(dot() != dot_dot()) by {
            assert(dot().len() != dot_dot().len());
        }
        assert(piece_parts(name, false) =~= seq![last]);
        assert(path =~= front + seq![last]);
        if path.len() == 2 && path[0] == Part::RootDir {
            lemma_parsed_behind(none, name);
            assert(path_bytes(path) =~= none.push(slash()) + name);
            assert(front =~= seq![Part::RootDir]);
        } else {
            lemma_parsed_behind(path_bytes(front), name);
            assert(path_bytes(path) =~= path_bytes(front).push(slash()) + name);
        }
    }
}

/// A path written with single slashes is the path that it was read as, and so
/// is every path made of its first components.
pub proof fn law_single_slashes_write_the_path(text: Seq<u8>, count: int)
    requires
        0 <= count <= parse_path(text).len(),
    ensures
        parse_path(path_bytes(parse_path(text))) == parse_path(text),
        parse_path(path_bytes(parse_path(text).take(count))) == parse_path(text).take(count),
{
    lemma_parsed_inner(text);
    lemma_plain_bytes(parse_path(text));
    let prefix = parse_path(text).take(count);
    assert forall|i: int| 0 < i < prefix.len() implies is_inner(#[trigger] prefix[i]) by {
        assert(prefix[i] == parse_path(text)[i]);
    }
    lemma_plain_bytes(prefix);
}

} // verus!
