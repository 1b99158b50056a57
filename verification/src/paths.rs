//! File paths as byte strings.

use vstd::prelude::*;

use crate::text::{
    append_bytes, byte_strings, bytes_equal, copy_bytes, law_pieces_lie_between_separators,
    lemma_split_nonempty, split_fields, split_on,
};

verus! {

/// Pieces of a path that name something: neither empty nor a single dot.
pub open spec fn named_pieces(pieces: Seq<Seq<u8>>) -> Seq<Seq<u8>>
    decreases pieces.len(),
{
    if pieces.len() == 0 {
        Seq::empty()
    } else {
        let rest = named_pieces(pieces.drop_last());
        if pieces.last().len() == 0 || pieces.last() == seq![46u8] {
            rest
        } else {
            rest.push(pieces.last())
        }
    }
}

/// What tells one path from another: whether it starts at the root, whether it
/// starts with a single dot, and the names along it.
pub open spec fn path_identity(path: Seq<u8>) -> (bool, bool, Seq<Seq<u8>>) {
    let pieces = split_on(path, 47);
    (path.len() > 0 && path[0] == 47, pieces[0] == seq![46u8], named_pieces(pieces))
}

/// Whether two paths are the same, however they are spelled.
pub open spec fn same_path(a: Seq<u8>, b: Seq<u8>) -> bool {
    path_identity(a) == path_identity(b)
}

/// Path of `name` below `base`.
pub open spec fn joined(base: Seq<u8>, name: Seq<u8>) -> Seq<u8> {
    if base.len() == 0 || base.last() == 47 {
        base + name
    } else {
        base.push(47) + name
    }
}

fn is_dot(piece: &[u8]) -> (dot: bool)
    ensures
        dot == (piece@ == seq![46u8]),
{
    let dot: bool = piece.len() == 1 && piece[0] == 46;
    proof {
        if dot {
            assert(piece@ =~= seq![46u8]);
        } else {
            assert(seq![46u8].len() == 1 && seq![46u8][0] == 46);
        }
    }
    dot
}

fn named_parts(pieces: Vec<Vec<u8>>) -> (names: Vec<Vec<u8>>)
    ensures
        byte_strings(names@) == named_pieces(byte_strings(pieces@)),
{
    let mut names: Vec<Vec<u8>> = Vec::new();
    let ghost all = byte_strings(pieces@);
    let mut i: usize = 0;
    assert(byte_strings(names@) =~= named_pieces(all.subrange(0, 0)));
    while i < pieces.len()
        invariant
            0 <= i <= pieces@.len(),
            all == byte_strings(pieces@),
            byte_strings(names@) == named_pieces(all.subrange(0, i as int)),
        decreases pieces@.len() - i,
    {
        let ghost before = names@;
        assert(all.subrange(0, i + 1).drop_last() =~= all.subrange(0, i as int));
        assert(all.subrange(0, i + 1).last() == pieces@[i as int]@);
        let piece: &[u8] = pieces[i].as_slice();
        if piece.len() != 0 && !is_dot(piece) {
            let name: Vec<u8> = copy_bytes(piece);
            names.push(name);
            assert(byte_strings(names@) =~= byte_strings(before).push(name@));
        }
        i = i + 1;
    }
    assert(all.subrange(0, i as int) =~= all);
    names
}

fn same_strings(a: &Vec<Vec<u8>>, b: &Vec<Vec<u8>>) -> (same: bool)
    ensures
        same == (byte_strings(a@) == byte_strings(b@)),
{
    if a.len() != b.len() {
        assert(byte_strings(a@).len() != byte_strings(b@).len());
        return false;
    }
    let mut i: usize = 0;
    while i < a.len()
        invariant
            0 <= i <= a@.len(),
            a@.len() == b@.len(),
            forall|j: int| 0 <= j < i ==> byte_strings(a@)[j] == #[trigger] byte_strings(b@)[j],
        decreases a@.len() - i,
    {
        if !bytes_equal(a[i].as_slice(), b[i].as_slice()) {
            assert(byte_strings(a@)[i as int] != byte_strings(b@)[i as int]);
            return false;
        }
        i = i + 1;
    }
    assert(byte_strings(a@) =~= byte_strings(b@));
    true
}

/// Whether two paths are the same, however they are spelled.
pub fn is_same_path(a: &[u8], b: &[u8]) -> (same: bool)
    ensures
        same == same_path(a@, b@),
{
    let a_pieces: Vec<Vec<u8>> = split_fields(a, 47);
    let b_pieces: Vec<Vec<u8>> = split_fields(b, 47);
    proof {
        lemma_split_nonempty(a@, 47);
        lemma_split_nonempty(b@, 47);
        assert(byte_strings(a_pieces@) =~= split_on(a@, 47));
        assert(byte_strings(b_pieces@) =~= split_on(b@, 47));
    }
    let a_rooted: bool = a.len() > 0 && a[0] == 47;
    let b_rooted: bool = b.len() > 0 && b[0] == 47;
    let a_dotted: bool = is_dot(a_pieces[0].as_slice());
    let b_dotted: bool = is_dot(b_pieces[0].as_slice());
    let same_names: bool = same_strings(&named_parts(a_pieces), &named_parts(b_pieces));
    a_rooted == b_rooted && a_dotted == b_dotted && same_names
}

/// Path of `name` below `base`.
pub fn join(base: &[u8], name: &[u8]) -> (path: Vec<u8>)
    ensures
        path@ == joined(base@, name@),
{
    let mut path: Vec<u8> = copy_bytes(base);
    if base.len() > 0 && base[base.len() - 1] != 47 {
        path.push(47);
    }
    append_bytes(&mut path, name);
    path
}

/// Whether `path` is one of `kept`, or the path in use.
pub open spec fn known_path(kept: Seq<Seq<u8>>, current: Seq<u8>, path: Seq<u8>) -> bool {
    same_path(path, current) || exists|i: int| 0 <= i < kept.len() && same_path(path, #[trigger] kept[i])
}

/// Candidates in order, each path once and without the one in use.
pub open spec fn distinct_paths(candidates: Seq<Seq<u8>>, current: Seq<u8>) -> Seq<Seq<u8>>
    decreases candidates.len(),
{
    if candidates.len() == 0 {
        Seq::empty()
    } else {
        let rest = distinct_paths(candidates.drop_last(), current);
        if known_path(rest, current, candidates.last()) {
            rest
        } else {
            rest.push(candidates.last())
        }
    }
}

fn is_known_path(kept: &Vec<Vec<u8>>, current: &[u8], path: &[u8]) -> (known: bool)
    ensures
        known == known_path(byte_strings(kept@), current@, path@),
{
    if is_same_path(path, current) {
        return true;
    }
    let mut i: usize = 0;
    while i < kept.len()
        invariant
            0 <= i <= kept@.len(),
            !same_path(path@, current@),
            forall|j: int| 0 <= j < i ==> !same_path(path@, #[trigger] byte_strings(kept@)[j]),
        decreases kept@.len() - i,
    {
        if is_same_path(path, kept[i].as_slice()) {
            assert(same_path(path@, byte_strings(kept@)[i as int]));
            return true;
        }
        i = i + 1;
    }
    false
}

/// Keeps each candidate once, in order, and leaves out the path in use.
pub fn deduplicate_paths(candidates: Vec<Vec<u8>>, current: &[u8]) -> (kept: Vec<Vec<u8>>)
    ensures
        byte_strings(kept@) == distinct_paths(byte_strings(candidates@), current@),
{
    let mut kept: Vec<Vec<u8>> = Vec::new();
    let ghost all = byte_strings(candidates@);
    let mut i: usize = 0;
    assert(byte_strings(kept@) =~= distinct_paths(all.subrange(0, 0), current@));
    while i < candidates.len()
        invariant
            0 <= i <= candidates@.len(),
            all == byte_strings(candidates@),
            byte_strings(kept@) == distinct_paths(all.subrange(0, i as int), current@),
        decreases candidates@.len() - i,
    {
        let ghost before = kept@;
        assert(all.subrange(0, i + 1).drop_last() =~= all.subrange(0, i as int));
        assert(all.subrange(0, i + 1).last() == candidates@[i as int]@);
        let candidate: &[u8] = candidates[i].as_slice();
        if !is_known_path(&kept, current, candidate) {
            let copy: Vec<u8> = copy_bytes(candidate);
            kept.push(copy);
            assert(byte_strings(kept@) =~= byte_strings(before).push(copy@));
        }
        i = i + 1;
    }
    assert(all.subrange(0, i as int) =~= all);
    kept
}

/// No path is kept twice, the one in use is not kept, and every candidate is
/// one of the kept paths or the one in use.
pub proof fn law_kept_paths_are_distinct(candidates: Seq<Seq<u8>>, current: Seq<u8>)
    ensures
        ({
            let kept = distinct_paths(candidates, current);
            &&& forall|i: int| 0 <= i < kept.len() ==> !same_path(#[trigger] kept[i], current)
            &&& forall|i: int, j: int|
                0 <= i < j < kept.len() ==> !same_path(#[trigger] kept[j], #[trigger] kept[i])
            &&& forall|k: int|
                0 <= k < candidates.len() ==> known_path(kept, current, #[trigger] candidates[k])
        }),
    decreases candidates.len(),
{
    if candidates.len() > 0 {
        let front = candidates.drop_last();
        let rest = distinct_paths(front, current);
        let kept = distinct_paths(candidates, current);
        law_kept_paths_are_distinct(front, current);
        assert forall|k: int| 0 <= k < candidates.len() implies known_path(
            kept,
            current,
            #[trigger] candidates[k],
        ) by {
            if k < front.len() {
                assert(known_path(rest, current, front[k]));
                if !same_path(candidates[k], current) {
                    let i = choose|i: int|
                        0 <= i < rest.len() && same_path(candidates[k], #[trigger] rest[i]);
                    assert(kept[i] == rest[i]);
                }
            } else if !known_path(rest, current, candidates.last()) {
                assert(kept[kept.len() - 1] == candidates.last());
                assert(same_path(candidates[k], kept[kept.len() - 1]));
            }
        }
    }
}

/// A path is what its names are: one more name comes last among them, and a
/// separator or a single dot at the end changes nothing.
pub proof fn law_paths_are_their_names(path: Seq<u8>, name: Seq<u8>)
    requires
        path.len() > 0,
        name.len() > 0,
        !name.contains(47u8),
        name != seq![46u8],
    ensures
        named_pieces(split_on(path.push(47) + name, 47)) == named_pieces(split_on(path, 47)).push(name),
        same_path(path.push(47), path),
        same_path(path.push(47).push(46), path),
        same_path(path, path),
        !same_path(path.push(47) + name, path),
{
    law_pieces_lie_between_separators(path, name, 47);
    law_pieces_lie_between_separators(path, Seq::empty(), 47);
    assert(!seq![46u8].contains(47u8));
    law_pieces_lie_between_separators(path, seq![46u8], 47);
    lemma_split_nonempty(path, 47);
    let pieces = split_on(path, 47);
    let names = named_pieces(pieces);
    assert(path.push(47) + Seq::<u8>::empty() =~= path.push(47));
    assert(path.push(47) + seq![46u8] =~= path.push(47).push(46));
    assert(pieces.push(name).drop_last() =~= pieces);
    assert(pieces.push(Seq::<u8>::empty()).drop_last() =~= pieces);
    assert(pieces.push(seq![46u8]).drop_last() =~= pieces);
    assert(pieces.push(Seq::<u8>::empty())[0] == pieces[0]);
    assert(pieces.push(seq![46u8])[0] == pieces[0]);
    assert(names.push(name).len() != names.len());
}

/// Joining puts one separator between a directory and a name, unless the
/// directory ends in one or is empty.
pub proof fn law_joined_paths_have_one_separator(base: Seq<u8>, name: Seq<u8>)
    ensures
        joined(Seq::empty(), name) == name,
        base.len() > 0 && base.last() != 47 ==> joined(base, name) == base + seq![47u8] + name,
        base.len() > 0 && base.last() == 47 ==> joined(base, name) == base + name,
{
    assert(Seq::<u8>::empty() + name =~= name);
    assert(base.push(47) + name =~= base + seq![47u8] + name);
}

/// A candidate is kept behind the others exactly where it is new; those kept
/// before it stay.
pub proof fn law_new_paths_are_kept_in_order(candidates: Seq<Seq<u8>>, current: Seq<u8>, path: Seq<u8>)
    ensures
        ({
            let before = distinct_paths(candidates, current);
            let after = distinct_paths(candidates.push(path), current);
            let known = same_path(path, current) || exists|i: int|
                0 <= i < before.len() && same_path(path, #[trigger] before[i]);
            &&& known ==> after == before
            &&& !known ==> after == before.push(path)
            &&& distinct_paths(Seq::empty(), current).len() == 0
        }),
{
    assert(candidates.push(path).drop_last() =~= candidates);
}

} // verus!
