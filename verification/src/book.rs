//! A book: a table of chapters and parts in reading order. A nested chapter
//! names its parent by the parent's position in the table.

use vstd::prelude::*;
use crate::path::{locate, place_of, same_place};
use crate::text::{chars_of, position_view, views};

verus! {

/// What one entry of a book stands for.
pub enum EntryView {
    /// A chapter: its path from the book's root, its content as bytes, and
    /// the position of the chapter above it.
    Chapter { path: Seq<char>, content: Seq<u8>, parent: Option<usize> },
    /// A part: a title between chapters, without content.
    Part { title: Seq<char> },
}

/// What a book stands for: its entries in reading order.
pub struct BookView {
    pub entries: Seq<EntryView>,
}

impl BookView {
    /// Whether entry `i` is a chapter.
    pub open spec fn is_chapter(self, i: int) -> bool {
        0 <= i < self.entries.len() && self.entries[i] is Chapter
    }

    /// The path of chapter `i`.
    pub open spec fn path(self, i: int) -> Seq<char> {
        self.entries[i]->path
    }

    /// The content of chapter `i`.
    pub open spec fn content(self, i: int) -> Seq<u8> {
        self.entries[i]->content
    }

    /// The place of chapter `i` below the book's root.
    pub open spec fn place(self, i: int) -> Seq<Seq<char>> {
        place_of(self.path(i)).unwrap()
    }

    /// Whether entry `i` is the chapter at `place`.
    pub open spec fn is_at(self, i: int, place: Seq<Seq<char>>) -> bool {
        self.is_chapter(i) && place_of(self.path(i)) == Some(place)
    }

    /// The first chapter at `place` among the entries from `from` on.
    pub open spec fn find_from(self, place: Seq<Seq<char>>, from: int) -> Option<int>
        decreases self.entries.len() - from,
    {
        if from < 0 || from >= self.entries.len() {
            None
        } else if self.is_at(from, place) {
            Some(from)
        } else {
            self.find_from(place, from + 1)
        }
    }

    /// The chapter at `place`, where the book has one.
    pub open spec fn find(self, place: Seq<Seq<char>>) -> Option<int> {
        self.find_from(place, 0)
    }

    /// Whether a parent named by a chapter is a chapter that stands before
    /// position `before`.
    pub open spec fn parent_fits(self, parent: Option<usize>, before: int) -> bool {
        match parent {
            None => true,
            Some(p) => p < before && self.is_chapter(p as int),
        }
    }

    /// Whether the book is sound: every chapter's path stays inside the
    /// book, no two chapters are at the same place, and every parent is a
    /// chapter that stands before its child.
    pub open spec fn sound(self) -> bool {
        &&& forall|i: int| self.is_chapter(i) ==> place_of(self.path(i)) is Some
        &&& forall|i: int| #[trigger]
            self.is_chapter(i) ==> self.parent_fits(self.entries[i]->parent, i)
        &&& forall|i: int, j: int|
            self.is_chapter(i) && self.is_chapter(j) && place_of(self.path(i)) == place_of(
                self.path(j),
            ) ==> i == j
    }
}

/// What an entry named by `find_from` is: a chapter at the place, at or
/// behind the start, with no such chapter between the start and it.
pub proof fn lemma_find_from(book: BookView, place: Seq<Seq<char>>, from: int)
    requires
        0 <= from,
    ensures
        match book.find_from(place, from) {
            Some(i) => from <= i < book.entries.len() && book.is_at(i, place),
            None => forall|j: int| from <= j < book.entries.len() ==> !book.is_at(j, place),
        },
    decreases book.entries.len() - from,
{
    if from < book.entries.len() && !book.is_at(from, place) {
        lemma_find_from(book, place, from + 1);
    }
}

/// Why a chapter cannot be added to a book.
#[derive(Debug, PartialEq, Eq, Clone, Copy)]
pub enum BookError {
    /// The chapter's path leaves the book.
    OutsideRoot,
    /// The book has a chapter at that place already.
    DuplicatePath,
    /// The parent named is no chapter of the book.
    NoSuchParent,
}

enum Entry {
    Chapter { path: String, content: Vec<u8>, parent: Option<usize>, place: Vec<Vec<char>> },
    Part { title: String },
}

impl Entry {
    spec fn view(&self) -> EntryView {
        match *self {
            Entry::Chapter { path, content, parent, place } => EntryView::Chapter {
                path: path@,
                content: content@,
                parent,
            },
            Entry::Part { title } => EntryView::Part { title: title@ },
        }
    }

    spec fn place_fits(&self) -> bool {
        match *self {
            Entry::Chapter { path, content, parent, place } => place_of(path@) == Some(
                views(place@),
            ),
            Entry::Part { title } => true,
        }
    }
}

spec fn table_view(entries: Seq<Entry>) -> BookView {
    BookView { entries: Seq::new(entries.len(), |i: int| entries[i].view()) }
}

spec fn table_valid(entries: Seq<Entry>) -> bool {
    &&& table_view(entries).sound()
    &&& forall|i: int| 0 <= i < entries.len() ==> (#[trigger] entries[i]).place_fits()
}

/// A book: chapters and parts in reading order.
pub struct Book {
    entries: Vec<Entry>,
}

impl View for Book {
    type V = BookView;

    closed spec fn view(&self) -> BookView {
        table_view(self.entries@)
    }
}

impl Book {
    #[verifier::type_invariant]
    spec fn valid(&self) -> bool {
        table_valid(self.entries@)
    }

    /// A book without entries.
    pub fn new() -> (book: Self)
        ensures
            book@.entries.len() == 0,
            book@.sound(),
    {
        Book { entries: Vec::new() }
    }

    /// Every book is sound.
    pub fn assure(&self)
        ensures
            self@.sound(),
    {
        proof {
            use_type_invariant(self);
        }
    }

    /// The number of entries.
    pub fn len(&self) -> (n: usize)
        ensures
            n == self@.entries.len(),
    {
        self.entries.len()
    }

    /// Whether entry `i` is a chapter.
    pub fn is_chapter(&self, i: usize) -> (yes: bool)
        ensures
            yes == self@.is_chapter(i as int),
    {
        if i >= self.entries.len() {
            return false;
        }
        match &self.entries[i] {
            Entry::Chapter { .. } => true,
            Entry::Part { .. } => false,
        }
    }

    /// The path of chapter `i`; `None` where entry `i` is no chapter.
    pub fn chapter_path(&self, i: usize) -> (path: Option<&str>)
        ensures
            path is Some <==> self@.is_chapter(i as int),
            path is Some ==> path.unwrap()@ == self@.path(i as int),
    {
        if i >= self.entries.len() {
            return None;
        }
        match &self.entries[i] {
            Entry::Chapter { path, .. } => Some(path.as_str()),
            Entry::Part { .. } => None,
        }
    }

    /// The content of chapter `i`; `None` where entry `i` is no chapter.
    pub fn chapter_content(&self, i: usize) -> (content: Option<&[u8]>)
        ensures
            content is Some <==> self@.is_chapter(i as int),
            content is Some ==> content.unwrap()@ == self@.content(i as int),
    {
        if i >= self.entries.len() {
            return None;
        }
        match &self.entries[i] {
            Entry::Chapter { content, .. } => Some(content.as_slice()),
            Entry::Part { .. } => None,
        }
    }

    /// The place of chapter `i` below the book's root; `None` where entry
    /// `i` is no chapter.
    pub fn chapter_place(&self, i: usize) -> (place: Option<&Vec<Vec<char>>>)
        ensures
            place is Some <==> self@.is_chapter(i as int),
            place is Some ==> place_of(self@.path(i as int)) == Some(views(place.unwrap()@)),
    {
        proof {
            use_type_invariant(self);
        }
        if i >= self.entries.len() {
            return None;
        }
        match &self.entries[i] {
            Entry::Chapter { place, .. } => {
                assert(self.entries@[i as int].place_fits());
                Some(place)
            },
            Entry::Part { .. } => None,
        }
    }

    /// The position of the chapter above chapter `i`; `None` where it has
    /// none, or where entry `i` is no chapter.
    pub fn parent(&self, i: usize) -> (parent: Option<usize>)
        ensures
            parent == (if self@.is_chapter(i as int) {
                self@.entries[i as int]->parent
            } else {
                None
            }),
            parent is Some ==> parent.unwrap() < i && self@.is_chapter(parent.unwrap() as int),
    {
        proof {
            use_type_invariant(self);
        }
        if i >= self.entries.len() {
            return None;
        }
        match &self.entries[i] {
            Entry::Chapter { parent, .. } => {
                assert(self@.is_chapter(i as int));
                *parent
            },
            Entry::Part { .. } => None,
        }
    }

    /// The title of part `i`; `None` where entry `i` is no part.
    pub fn part_title(&self, i: usize) -> (title: Option<&str>)
        ensures
            title is Some <==> 0 <= i < self@.entries.len() && self@.entries[i as int] is Part,
            title is Some ==> title.unwrap()@ == self@.entries[i as int]->title,
    {
        if i >= self.entries.len() {
            return None;
        }
        match &self.entries[i] {
            Entry::Chapter { .. } => None,
            Entry::Part { title } => Some(title.as_str()),
        }
    }

    /// The chapter at `place`, where the book has one.
    pub fn find_chapter(&self, place: &Vec<Vec<char>>) -> (found: Option<usize>)
        ensures
            position_view(found) == self@.find(views(place@)),
    {
        proof {
            use_type_invariant(self);
        }
        let mut i: usize = 0;
        while i < self.entries.len()
            invariant
                i <= self.entries.len(),
                self.valid(),
                self@.find_from(views(place@), i as int) == self@.find(views(place@)),
            decreases self.entries.len() - i,
        {
            match &self.entries[i] {
                Entry::Chapter { place: own, .. } => {
                    assert(self.entries@[i as int].place_fits());
                    if same_place(own, place) {
                        return Some(i);
                    }
                },
                Entry::Part { .. } => {},
            }
            i += 1;
        }
        None
    }

    /// Adds a part after the entries that the book has, and gives its
    /// position.
    pub fn add_part(&mut self, title: &str) -> (at: usize)
        ensures
            at == old(self)@.entries.len(),
            final(self)@.entries == old(self)@.entries.push(EntryView::Part { title: title@ }),
    {
        proof {
            use_type_invariant(&*self);
        }
        let at = self.entries.len();
        let ghost before = self@;
        let mut entries: Vec<Entry> = Vec::new();
        std::mem::swap(&mut entries, &mut self.entries);
        entries.push(Entry::Part { title: title.to_owned() });
        proof {
            let after = table_view(entries@);
            assert(after.entries =~= before.entries.push(EntryView::Part { title: title@ }));
            assert forall|i: int| after.is_chapter(i) implies before.is_chapter(i)
                && after.entries[i] == before.entries[i] by {}
            assert(table_valid(entries@));
        }
        self.entries = entries;
        at
    }

    /// Adds a chapter after the entries that the book has, and gives its
    /// position. The book stays as it is, and the reason is given, where the
    /// path leaves the book, where the book has a chapter at the same place,
    /// or where the parent named is no chapter of the book: the first of
    /// these that holds.
    pub fn add_chapter(&mut self, path: &str, content: Vec<u8>, parent: Option<usize>) -> (added:
        Result<usize, BookError>)
        ensures
            added == add_result(old(self)@, path@, parent),
            added is Ok ==> final(self)@.entries == old(self)@.entries.push(
                EntryView::Chapter { path: path@, content: content@, parent },
            ),
            added is Err ==> final(self)@ == old(self)@,
    {
        proof {
            use_type_invariant(&*self);
        }
        let chars = chars_of(path);
        let place = match locate(chars.as_slice()) {
            None => {
                return Err(BookError::OutsideRoot);
            },
            Some(place) => place,
        };
        if self.find_chapter(&place).is_some() {
            return Err(BookError::DuplicatePath);
        }
        match parent {
            None => {},
            Some(p) => {
                if !self.is_chapter(p) {
                    return Err(BookError::NoSuchParent);
                }
            },
        }
        let at = self.entries.len();
        let ghost before = self@;
        let ghost entry = EntryView::Chapter { path: path@, content: content@, parent };
        proof {
            lemma_find_from(before, views(place@), 0);
        }
        let mut entries: Vec<Entry> = Vec::new();
        std::mem::swap(&mut entries, &mut self.entries);
        entries.push(Entry::Chapter { path: path.to_owned(), content, parent, place });
        proof {
            let after = table_view(entries@);
            assert(after.entries =~= before.entries.push(entry));
            assert forall|i: int| after.is_chapter(i) && i != at implies before.is_chapter(i)
                && after.entries[i] == before.entries[i] by {}
            assert forall|i: int| #[trigger] after.is_chapter(i) implies after.parent_fits(
                after.entries[i]->parent,
                i,
            ) by {
                if i != at {
                    assert(before.is_chapter(i));
                    assert(before.parent_fits(before.entries[i]->parent, i));
                }
            }
            assert forall|i: int, j: int|
                after.is_chapter(i) && after.is_chapter(j) && place_of(after.path(i)) == place_of(
                    after.path(j),
                ) implies i == j by {
                if i == at && j != at {
                    assert(before.is_at(j, views(place@)));
                }
                if j == at && i != at {
                    assert(before.is_at(i, views(place@)));
                }
            }
            assert(table_valid(entries@));
        }
        self.entries = entries;
        Ok(at)
    }
}

/// What adding a chapter to a book gives: the position after the book's
/// entries, or the first reason that stands against it.
pub open spec fn add_result(book: BookView, path: Seq<char>, parent: Option<usize>) -> Result<
    usize,
    BookError,
> {
    if place_of(path) is None {
        Err(BookError::OutsideRoot)
    } else if book.find(place_of(path).unwrap()) is Some {
        Err(BookError::DuplicatePath)
    } else if parent is Some && !book.is_chapter(parent.unwrap() as int) {
        Err(BookError::NoSuchParent)
    } else {
        Ok(book.entries.len() as usize)
    }
}

} // verus!
