//! The heading anchors of a book: for each chapter the anchors of its
//! headings, built once and read afterwards.

use vstd::prelude::*;
use vstd::string::StringSliceAdditionalSpecFns;
use vstd::utf8::{decode_utf8, encode_utf8_decode_utf8, valid_utf8};
use crate::markdown::{markdown_events, markup_of, markup_views, Markup, MarkupView};
use crate::slug::{anchors, anchors_of};
use crate::text::{chars_of, holds_chars, string_of, views};

verus! {

/// `std::str::from_utf8`: the bytes as a string where they are valid UTF-8,
/// nothing where they are not. The string is made of exactly those bytes.
#[verifier::external_body]
fn utf8_text(bytes: &[u8]) -> (text: Option<&str>)
    ensures
        text is Some <==> valid_utf8(bytes@),
        text is Some ==> text.unwrap().spec_bytes() == bytes@,
{
    std::str::from_utf8(bytes).ok()
}

/// The text that a chapter's bytes encode, where they are valid UTF-8.
pub fn decode(bytes: &[u8]) -> (text: Option<&str>)
    ensures
        text is Some <==> valid_utf8(bytes@),
        text is Some ==> text.unwrap()@ == decode_utf8(bytes@),
        text is Some ==> text.unwrap().spec_bytes() == bytes@,
{
    let text = utf8_text(bytes);
    proof {
        if text is Some {
            encode_utf8_decode_utf8(text.unwrap()@);
        }
    }
    text
}

/// The headings read so far: the texts of those that are closed, and the
/// text of the one that is open.
pub struct HeadingScan {
    pub closed: Seq<Seq<char>>,
    pub open: Option<Seq<char>>,
}

/// The headings of a run of markup, read from its start: a heading's text is
/// what the text items between its opening and its closing hold, joined.
pub open spec fn scan_headings(events: Seq<MarkupView>) -> HeadingScan
    decreases events.len(),
{
    if events.len() == 0 {
        HeadingScan { closed: Seq::empty(), open: None }
    } else {
        let before = scan_headings(events.drop_last());
        match events.last() {
            MarkupView::HeadingStart => HeadingScan {
                closed: before.closed,
                open: Some(Seq::empty()),
            },
            MarkupView::HeadingEnd => match before.open {
                Some(text) => HeadingScan { closed: before.closed.push(text), open: None },
                None => before,
            },
            MarkupView::Text { text } => match before.open {
                Some(so_far) => HeadingScan { closed: before.closed, open: Some(so_far + text) },
                None => before,
            },
            _ => before,
        }
    }
}

/// The texts of the headings of a chapter's markup, in document order.
pub open spec fn heading_texts(events: Seq<MarkupView>) -> Seq<Seq<char>> {
    scan_headings(events).closed
}

/// The anchors of the headings of a chapter's markup, in document order.
pub open spec fn anchors_in(events: Seq<MarkupView>) -> Seq<Seq<char>> {
    anchors_of(heading_texts(events))
}

/// The anchors of the headings of a chapter, given its content as bytes.
pub open spec fn chapter_anchors(content: Seq<u8>) -> Seq<Seq<char>> {
    anchors_in(markdown_events(decode_utf8(content)))
}

/// The texts of the headings of a chapter's markup, in document order.
pub fn headings_from_markup(events: &Vec<Markup>) -> (texts: Vec<Vec<char>>)
    ensures
        views(texts@) == heading_texts(markup_views(events@)),
{
    let mut closed: Vec<Vec<char>> = Vec::new();
    let mut open: Option<Vec<char>> = None;
    let mut i: usize = 0;
    let ghost all = markup_views(events@);
    assert(all.take(0) =~= Seq::<MarkupView>::empty());
    assert(views(closed@) =~= Seq::<Seq<char>>::empty());
    while i < events.len()
        invariant
            i <= events.len(),
            all == markup_views(events@),
            views(closed@) == scan_headings(all.take(i as int)).closed,
            match open {
                Some(text) => scan_headings(all.take(i as int)).open == Some(text@),
                None => scan_headings(all.take(i as int)).open is None,
            },
        decreases events.len() - i,
    {
        proof {
            let next = all.take(i + 1);
            assert(next.drop_last() =~= all.take(i as int));
            assert(next.last() == events@[i as int]@);
        }
        let ghost before = views(closed@);
        match &events[i] {
            Markup::HeadingStart => {
                open = Some(Vec::new());
            },
            Markup::HeadingEnd => {
                match open {
                    Some(text) => {
                        closed.push(text);
                        assert(views(closed@) =~= before.push(text@));
                        open = None;
                    },
                    None => {},
                }
            },
            Markup::Text { text } => {
                match open {
                    Some(mut so_far) => {
                        let mut more = chars_of(text.as_str());
                        so_far.append(&mut more);
                        open = Some(so_far);
                    },
                    None => {},
                }
            },
            _ => {},
        }
        i += 1;
    }
    assert(all.take(events.len() as int) =~= all);
    closed
}

/// The anchors of the headings of a chapter's markup, in document order. No
/// two of them are the same.
pub fn anchors_from_markup(events: &Vec<Markup>) -> (out: Vec<Vec<char>>)
    ensures
        views(out@) == anchors_in(markup_views(events@)),
        views(out@).no_duplicates(),
{
    let texts = headings_from_markup(events);
    anchors(&texts)
}

/// What a vector of strings reads as.
pub open spec fn string_views(strings: Seq<String>) -> Seq<Seq<char>> {
    Seq::new(strings.len(), |i: int| strings[i]@)
}

/// The anchors of the headings of a chapter, in document order: each
/// heading's slug, with a number behind it where the slug alone is taken.
/// No two of them are the same.
pub fn heading_anchors(content: &str) -> (out: Vec<String>)
    ensures
        string_views(out@) == anchors_in(markdown_events(content@)),
        string_views(out@).no_duplicates(),
{
    let events = markup_of(content);
    let found = anchors_from_markup(&events);
    let mut out: Vec<String> = Vec::new();
    let mut i: usize = 0;
    while i < found.len()
        invariant
            i <= found.len(),
            out.len() == i,
            forall|j: int| 0 <= j < i ==> out@[j]@ == found@[j]@,
        decreases found.len() - i,
    {
        out.push(string_of(found[i].as_slice()));
        i += 1;
    }
    assert(string_views(out@) =~= views(found@));
    out
}

/// The anchors of every chapter of a book, by the chapter's position in the
/// book. A part has none.
pub struct HeadingIndex {
    pub chapters: Vec<Vec<Vec<char>>>,
}

impl View for HeadingIndex {
    type V = Seq<Seq<Seq<char>>>;

    open spec fn view(&self) -> Seq<Seq<Seq<char>>> {
        Seq::new(self.chapters@.len(), |i: int| views(self.chapters@[i]@))
    }
}

impl HeadingIndex {
    /// An index without chapters.
    pub fn new() -> (out: Self)
        ensures
            out@ == Seq::<Seq<Seq<char>>>::empty(),
    {
        let out = HeadingIndex { chapters: Vec::new() };
        assert(out@ =~= Seq::<Seq<Seq<char>>>::empty());
        out
    }

    /// Adds the anchors of the next entry of the book.
    pub fn push(&mut self, found: Vec<Vec<char>>)
        ensures
            final(self)@ == old(self)@.push(views(found@)),
    {
        self.chapters.push(found);
        assert(self@ =~= old(self)@.push(views(found@)));
    }

    /// The number of entries.
    pub fn len(&self) -> (n: usize)
        ensures
            n == self@.len(),
    {
        self.chapters.len()
    }

    /// Whether entry `chapter` has a heading with the given anchor.
    pub fn has_anchor(&self, chapter: usize, anchor: &str) -> (found: bool)
        ensures
            found == (chapter < self@.len() && self@[chapter as int].contains(anchor@)),
    {
        if chapter >= self.chapters.len() {
            return false;
        }
        let wanted = chars_of(anchor);
        holds_chars(&self.chapters[chapter], wanted.as_slice())
    }
}

} // verus!
