//! Paths inside a book. A path is a run of names below the book's root; `.`
//! and `..` are worked out on the names alone, never on a file system, and a
//! path that climbs above the root leads nowhere.

use vstd::prelude::*;
use crate::text::{copy_chars, same_chars, views};

verus! {

/// The pieces of a path between its slashes. A path without a slash is one
/// piece; pieces may be empty.
pub open spec fn segments(path: Seq<char>) -> Seq<Seq<char>>
    decreases path.len(),
{
    if path.len() == 0 {
        seq![Seq::empty()]
    } else {
        let before = segments(path.drop_last());
        if path.last() == '/' {
            before.push(Seq::empty())
        } else {
            before.drop_last().push(before.last().push(path.last()))
        }
    }
}

/// Whether a piece of a path is `.`.
pub open spec fn is_here(piece: Seq<char>) -> bool {
    piece.len() == 1 && piece[0] == '.'
}

/// Whether a piece of a path is `..`.
pub open spec fn is_up(piece: Seq<char>) -> bool {
    piece.len() == 2 && piece[0] == '.' && piece[1] == '.'
}

/// One piece of a path taken from a place below the root: an empty piece and
/// `.` stay, `..` goes up one name and leaves the book from the root, any
/// other piece goes down into that name. Once outside, always outside.
pub open spec fn step(at: Option<Seq<Seq<char>>>, piece: Seq<char>) -> Option<Seq<Seq<char>>> {
    match at {
        None => None,
        Some(names) => if piece.len() == 0 || is_here(piece) {
            Some(names)
        } else if is_up(piece) {
            if names.len() == 0 {
                None
            } else {
                Some(names.drop_last())
            }
        } else {
            Some(names.push(piece))
        },
    }
}

/// The pieces of a path taken one after the other.
pub open spec fn walk(from: Option<Seq<Seq<char>>>, pieces: Seq<Seq<char>>) -> Option<
    Seq<Seq<char>>,
>
    decreases pieces.len(),
{
    if pieces.len() == 0 {
        from
    } else {
        step(walk(from, pieces.drop_last()), pieces.last())
    }
}

/// The place that a path names, counted from the book's root; `None` where it
/// leaves the book.
pub open spec fn place_of(path: Seq<char>) -> Option<Seq<Seq<char>>> {
    walk(Some(Seq::empty()), segments(path))
}

/// The directory that holds a place: the place without its last name.
pub open spec fn directory_of(place: Seq<Seq<char>>) -> Seq<Seq<char>> {
    if place.len() == 0 {
        place
    } else {
        place.drop_last()
    }
}

/// The place that a path names when read from the directory of the document
/// at `document`; `None` where it leaves the book.
pub open spec fn place_from(document: Seq<Seq<char>>, path: Seq<char>) -> Option<Seq<Seq<char>>> {
    walk(Some(directory_of(document)), segments(path))
}

/// What an optional vector of names stands for.
pub open spec fn place_view(place: Option<Vec<Vec<char>>>) -> Option<Seq<Seq<char>>> {
    match place {
        None => None,
        Some(names) => Some(views(names@)),
    }
}

/// A walk that has left the book after some of its pieces does not come back
/// with the rest of them.
pub proof fn lemma_walk_stays_outside(
    from: Option<Seq<Seq<char>>>,
    pieces: Seq<Seq<char>>,
    n: int,
)
    requires
        0 <= n <= pieces.len(),
        walk(from, pieces.take(n)) is None,
    ensures
        walk(from, pieces) is None,
    decreases pieces.len() - n,
{
    if n < pieces.len() {
        assert(pieces.take(n + 1).drop_last() =~= pieces.take(n));
        lemma_walk_stays_outside(from, pieces, n + 1);
    } else {
        assert(pieces.take(n) =~= pieces);
    }
}

/// The pieces of a path between its slashes.
pub fn split_path(path: &[char]) -> (out: Vec<Vec<char>>)
    ensures
        views(out@) == segments(path@),
{
    let mut done: Vec<Vec<char>> = Vec::new();
    let mut piece: Vec<char> = Vec::new();
    let mut i: usize = 0;
    assert(segments(path@.take(0)) =~= views(done@).push(piece@));
    while i < path.len()
        invariant
            i <= path.len(),
            segments(path@.take(i as int)) == views(done@).push(piece@),
        decreases path.len() - i,
    {
        proof {
            let next = path@.take(i + 1);
            assert(next.drop_last() =~= path@.take(i as int));
            assert(next.last() == path@[i as int]);
        }
        let ghost before = views(done@);
        let ghost open = piece@;
        if path[i] == '/' {
            done.push(piece);
            piece = Vec::new();
            assert(views(done@).push(piece@) =~= before.push(open).push(Seq::empty()));
        } else {
            piece.push(path[i]);
            assert(views(done@).push(piece@) =~= before.push(open).drop_last().push(
                open.push(path@[i as int]),
            ));
        }
        i += 1;
    }
    assert(path@.take(path.len() as int) =~= path@);
    let ghost before = views(done@);
    done.push(piece);
    assert(views(done@) =~= before.push(piece@));
    done
}

/// Whether two places are the same.
pub fn same_place(a: &Vec<Vec<char>>, b: &Vec<Vec<char>>) -> (same: bool)
    ensures
        same == (views(a@) == views(b@)),
{
    if a.len() != b.len() {
        assert(views(a@).len() != views(b@).len());
        return false;
    }
    let mut i: usize = 0;
    while i < a.len()
        invariant
            i <= a.len(),
            a.len() == b.len(),
            forall|j: int| 0 <= j < i ==> views(a@)[j] == views(b@)[j],
        decreases a.len() - i,
    {
        if !same_chars(a[i].as_slice(), b[i].as_slice()) {
            assert(views(a@)[i as int] != views(b@)[i as int]);
            return false;
        }
        i += 1;
    }
    assert(views(a@) =~= views(b@));
    true
}

/// A copy of a place.
pub fn copy_place(place: &Vec<Vec<char>>) -> (out: Vec<Vec<char>>)
    ensures
        views(out@) == views(place@),
{
    let mut out: Vec<Vec<char>> = Vec::new();
    let mut i: usize = 0;
    while i < place.len()
        invariant
            i <= place.len(),
            out.len() == i,
            forall|j: int| 0 <= j < i ==> out@[j]@ == place@[j]@,
        decreases place.len() - i,
    {
        out.push(copy_chars(place[i].as_slice()));
        i += 1;
    }
    assert(views(out@) =~= views(place@));
    out
}

/// The pieces of a path taken one after the other from the place `from`.
pub fn walk_from(from: Vec<Vec<char>>, pieces: &Vec<Vec<char>>) -> (out: Option<Vec<Vec<char>>>)
    ensures
        place_view(out) == walk(Some(views(from@)), views(pieces@)),
{
    let ghost start = views(from@);
    let mut names = from;
    let mut i: usize = 0;
    assert(views(pieces@).take(0) =~= Seq::<Seq<char>>::empty());
    while i < pieces.len()
        invariant
            i <= pieces.len(),
            start == views(from@),
            walk(Some(start), views(pieces@).take(i as int)) == Some(views(names@)),
        decreases pieces.len() - i,
    {
        let piece = &pieces[i];
        proof {
            let next = views(pieces@).take(i + 1);
            assert(next.drop_last() =~= views(pieces@).take(i as int));
            assert(next.last() == piece@);
        }
        let ghost before = views(names@);
        if piece.len() == 0 || (piece.len() == 1 && piece[0] == '.') {
        } else if piece.len() == 2 && piece[0] == '.' && piece[1] == '.' {
            if names.len() == 0 {
                proof {
                    assert(is_up(piece@));
                    assert(views(names@).len() == 0);
                    assert(walk(Some(start), views(pieces@).take(i + 1)) is None);
                    lemma_walk_stays_outside(Some(start), views(pieces@), i + 1);
                }
                return None;
            }
            names.pop();
            assert(views(names@) =~= before.drop_last());
        } else {
            names.push(copy_chars(piece.as_slice()));
            assert(views(names@) =~= before.push(piece@));
        }
        i += 1;
    }
    assert(views(pieces@).take(pieces.len() as int) =~= views(pieces@));
    Some(names)
}

/// The place that a path names, counted from the book's root.
pub fn locate(path: &[char]) -> (out: Option<Vec<Vec<char>>>)
    ensures
        place_view(out) == place_of(path@),
{
    let pieces = split_path(path);
    let root: Vec<Vec<char>> = Vec::new();
    assert(views(root@) =~= Seq::<Seq<char>>::empty());
    walk_from(root, &pieces)
}

/// The place that a path names when read from the directory of the document
/// at `document`.
pub fn locate_from(document: &Vec<Vec<char>>, path: &[char]) -> (out: Option<Vec<Vec<char>>>)
    ensures
        place_view(out) == place_from(views(document@), path@),
{
    let pieces = split_path(path);
    let mut directory = copy_place(document);
    if directory.len() > 0 {
        let ghost before = views(directory@);
        directory.pop();
        assert(views(directory@) =~= before.drop_last());
    }
    walk_from(directory, &pieces)
}

} // verus!
