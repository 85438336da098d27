//! Links into the book itself, checked against the book's chapters and
//! their heading anchors.

use vstd::prelude::*;
use crate::anchors::HeadingIndex;
use crate::book::{lemma_find_from, Book, BookView};
use crate::link::{text_view, ClassifiedLink, ClassifiedLinkView, LinkKind, LinkKindView};
use crate::path::{locate, locate_from, place_from, place_of, place_view};
use crate::report::{Outcome, OutcomeView, Reason, ReasonView};
use crate::text::chars_of;

verus! {

/// The anchors of entry `at` of a book; none where the index has no such
/// entry.
pub open spec fn anchors_at(index: Seq<Seq<Seq<char>>>, at: int) -> Seq<Seq<char>> {
    if 0 <= at < index.len() {
        index[at]
    } else {
        Seq::empty()
    }
}

/// What a link to a heading gives: broken for want of the anchor unless the
/// anchor is among those of the document. A link without anchor asks for
/// none.
pub open spec fn anchor_outcome(
    anchors: Seq<Seq<char>>,
    path: Seq<char>,
    anchor: Option<Seq<char>>,
) -> OutcomeView {
    match anchor {
        None => OutcomeView::Valid,
        Some(wanted) => if anchors.contains(wanted) {
            OutcomeView::Valid
        } else {
            OutcomeView::Broken(ReasonView::MissingAnchor { path, anchor: wanted })
        },
    }
}

/// What a link to a document gives: broken for want of the file where the
/// path leaves the book or no chapter is at its place, else what the anchor
/// gives in that chapter.
pub open spec fn document_outcome(
    book: BookView,
    index: Seq<Seq<Seq<char>>>,
    place: Option<Seq<Seq<char>>>,
    path: Seq<char>,
    anchor: Option<Seq<char>>,
) -> OutcomeView {
    match place {
        None => OutcomeView::Broken(ReasonView::MissingFile { path }),
        Some(names) => match book.find(names) {
            None => OutcomeView::Broken(ReasonView::MissingFile { path }),
            Some(at) => anchor_outcome(anchors_at(index, at), path, anchor),
        },
    }
}

/// The chapter that holds a link, by the path that the link gives for it.
pub open spec fn home_of(book: BookView, chapter: Seq<char>) -> Option<int> {
    match place_of(chapter) {
        None => None,
        Some(names) => book.find(names),
    }
}

/// What the check of a link against the book gives. A web page and an
/// ignored target are not the book's to check. Any other link is broken for
/// want of the file where the chapter that holds it is not in the book.
/// Else a link to a heading of its own chapter is checked against that
/// chapter's anchors; a link to a document is resolved from the chapter's
/// directory, or from the root, and checked against that document.
pub open spec fn local_outcome(
    book: BookView,
    index: Seq<Seq<Seq<char>>>,
    link: ClassifiedLinkView,
) -> OutcomeView {
    match link.kind {
        LinkKindView::External { url } => OutcomeView::Valid,
        LinkKindView::Ignored => OutcomeView::Valid,
        _ => match home_of(book, link.link.chapter) {
            None => OutcomeView::Broken(ReasonView::MissingFile { path: link.link.chapter }),
            Some(home) => match link.kind {
                LinkKindView::SameDocAnchor { anchor } => anchor_outcome(
                    anchors_at(index, home),
                    link.link.chapter,
                    Some(anchor),
                ),
                LinkKindView::CrossDoc { path, anchor } => document_outcome(
                    book,
                    index,
                    place_from(book.place(home), path),
                    path,
                    anchor,
                ),
                LinkKindView::Absolute { path, anchor } => document_outcome(
                    book,
                    index,
                    place_of(path),
                    path,
                    anchor,
                ),
                _ => OutcomeView::Valid,
            },
        },
    }
}

/// A link to a heading of its own chapter is valid where the chapter has a
/// heading with that anchor, and broken for want of the anchor where it has
/// none: with the heading gone or renamed, the same link is broken.
pub proof fn lemma_same_document_anchor(
    book: BookView,
    index: Seq<Seq<Seq<char>>>,
    link: ClassifiedLinkView,
    home: int,
    anchor: Seq<char>,
)
    requires
        link.kind == (LinkKindView::SameDocAnchor { anchor }),
        home_of(book, link.link.chapter) == Some(home),
    ensures
        anchors_at(index, home).contains(anchor) ==> local_outcome(book, index, link)
            == OutcomeView::Valid,
        !anchors_at(index, home).contains(anchor) ==> local_outcome(book, index, link)
            == OutcomeView::Broken(
            ReasonView::MissingAnchor { path: link.link.chapter, anchor },
        ),
{
}

/// A link to a document whose path leaves the book is broken for want of the
/// file, whatever the book holds: the path is never followed outside.
pub proof fn lemma_outside_is_missing(
    book: BookView,
    index: Seq<Seq<Seq<char>>>,
    link: ClassifiedLinkView,
    home: int,
    path: Seq<char>,
    anchor: Option<Seq<char>>,
)
    requires
        home_of(book, link.link.chapter) == Some(home),
        (link.kind == (LinkKindView::CrossDoc { path, anchor }) && place_from(
            book.place(home),
            path,
        ) is None) || (link.kind == (LinkKindView::Absolute { path, anchor }) && place_of(path)
            is None),
    ensures
        local_outcome(book, index, link) == OutcomeView::Broken(ReasonView::MissingFile { path }),
{
}

fn check_anchor(index: &HeadingIndex, at: usize, path: &str, anchor: &Option<String>) -> (outcome:
    Outcome)
    ensures
        outcome@ == anchor_outcome(anchors_at(index@, at as int), path@, text_view(
            *anchor,
        )),
{
    match anchor {
        None => Outcome::Valid,
        Some(wanted) => {
            if index.has_anchor(at, wanted.as_str()) {
                Outcome::Valid
            } else {
                Outcome::Broken(
                    Reason::MissingAnchor { path: path.to_owned(), anchor: wanted.clone() },
                )
            }
        },
    }
}

fn check_document(
    book: &Book,
    index: &HeadingIndex,
    place: Option<Vec<Vec<char>>>,
    path: &str,
    anchor: &Option<String>,
) -> (outcome: Outcome)
    ensures
        outcome@ == document_outcome(
            book@,
            index@,
            place_view(place),
            path@,
            text_view(*anchor),
        ),
{
    match place {
        None => Outcome::Broken(Reason::MissingFile { path: path.to_owned() }),
        Some(names) => match book.find_chapter(&names) {
            None => Outcome::Broken(Reason::MissingFile { path: path.to_owned() }),
            Some(at) => check_anchor(index, at, path, anchor),
        },
    }
}

/// Checks a link against the book and the anchors of its chapters. Nothing
/// outside the book is looked at.
pub fn validate_local(book: &Book, index: &HeadingIndex, link: &ClassifiedLink) -> (outcome:
    Outcome)
    ensures
        outcome@ == local_outcome(book@, index@, link@),
{
    match &link.kind {
        LinkKind::External { .. } => {
            return Outcome::Valid;
        },
        LinkKind::Ignored => {
            return Outcome::Valid;
        },
        _ => {},
    }
    let chapter = chars_of(link.link.chapter.as_str());
    let home = match locate(chapter.as_slice()) {
        None => None,
        Some(names) => book.find_chapter(&names),
    };
    let home = match home {
        None => {
            return Outcome::Broken(Reason::MissingFile { path: link.link.chapter.clone() });
        },
        Some(home) => home,
    };
    proof {
        lemma_find_from(book@, place_of(link@.link.chapter).unwrap(), 0);
    }
    match &link.kind {
        LinkKind::SameDocAnchor { anchor } => {
            let wanted = Some(anchor.clone());
            check_anchor(index, home, link.link.chapter.as_str(), &wanted)
        },
        LinkKind::CrossDoc { path, anchor } => {
            let from = book.chapter_place(home).unwrap();
            let target = chars_of(path.as_str());
            let place = locate_from(from, target.as_slice());
            check_document(book, index, place, path.as_str(), anchor)
        },
        LinkKind::Absolute { path, anchor } => {
            let target = chars_of(path.as_str());
            let place = locate(target.as_slice());
            check_document(book, index, place, path.as_str(), anchor)
        },
        _ => Outcome::Valid,
    }
}

} // verus!
