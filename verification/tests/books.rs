use mdbook_linkcheck::book::{Book, BookError};
use mdbook_linkcheck::path::{locate, locate_from, split_path};

fn chars(s: &str) -> Vec<char> {
    s.chars().collect()
}

fn names(items: &[&str]) -> Vec<Vec<char>> {
    items.iter().map(|s| chars(s)).collect()
}

#[test]
fn split_path_cuts_at_slashes() {
    assert_eq!(split_path(&chars("a/b/c.md")), names(&["a", "b", "c.md"]));
    assert_eq!(split_path(&chars("/a//b/")), names(&["", "a", "", "b", ""]));
    assert_eq!(split_path(&chars("")), names(&[""]));
}

#[test]
fn locate_works_out_dots() {
    assert_eq!(locate(&chars("a/./b/../c.md")), Some(names(&["a", "c.md"])));
    assert_eq!(locate(&chars("./intro.md")), Some(names(&["intro.md"])));
    assert_eq!(locate(&chars("/guide//intro.md")), Some(names(&["guide", "intro.md"])));
    assert_eq!(locate(&chars("")), Some(names(&[])));
    assert_eq!(locate(&chars("a/..")), Some(names(&[])));
    assert_eq!(locate(&chars("...")), Some(names(&["..."])));
}

#[test]
fn locate_does_not_leave_the_root() {
    assert_eq!(locate(&chars("..")), None);
    assert_eq!(locate(&chars("../../etc/passwd")), None);
    assert_eq!(locate(&chars("a/../../a/intro.md")), None);
    assert_eq!(locate(&chars("../intro.md")), None);
}

#[test]
fn locate_from_starts_in_the_directory_of_the_document() {
    let document = names(&["guide", "api.md"]);
    assert_eq!(locate_from(&document, &chars("intro.md")), Some(names(&["guide", "intro.md"])));
    assert_eq!(locate_from(&document, &chars("../intro.md")), Some(names(&["intro.md"])));
    assert_eq!(locate_from(&document, &chars("../../intro.md")), None);
    assert_eq!(locate_from(&document, &chars("")), Some(names(&["guide"])));
    let top = names(&["api.md"]);
    assert_eq!(locate_from(&top, &chars("../../etc/passwd")), None);
    assert_eq!(locate_from(&top, &chars("sub/x.md")), Some(names(&["sub", "x.md"])));
}

#[test]
fn a_new_book_is_empty() {
    let book = Book::new();
    assert_eq!(book.len(), 0);
    assert!(!book.is_chapter(0));
    assert_eq!(book.chapter_path(0), None);
    assert_eq!(book.find_chapter(&names(&["intro.md"])), None);
}

#[test]
fn chapters_and_parts_keep_their_order() {
    let mut book = Book::new();
    assert_eq!(book.add_chapter("intro.md", b"# Intro\n".to_vec(), None), Ok(0));
    assert_eq!(book.add_part("Reference"), 1);
    assert_eq!(book.add_chapter("guide/api.md", b"# Api\n".to_vec(), None), Ok(2));
    assert_eq!(book.add_chapter("guide/api/more.md", Vec::new(), Some(2)), Ok(3));
    assert_eq!(book.len(), 4);
    assert!(book.is_chapter(0));
    assert!(!book.is_chapter(1));
    assert!(book.is_chapter(3));
    assert!(!book.is_chapter(4));
    assert_eq!(book.chapter_path(2), Some("guide/api.md"));
    assert_eq!(book.chapter_path(1), None);
    assert_eq!(book.chapter_content(0), Some(&b"# Intro\n"[..]));
    assert_eq!(book.chapter_content(1), None);
    assert_eq!(book.part_title(1), Some("Reference"));
    assert_eq!(book.part_title(0), None);
    assert_eq!(book.parent(3), Some(2));
    assert_eq!(book.parent(2), None);
    assert_eq!(book.parent(1), None);
    assert_eq!(book.chapter_place(2), Some(&names(&["guide", "api.md"])));
    assert_eq!(book.chapter_place(1), None);
}

#[test]
fn chapters_are_found_by_their_place() {
    let mut book = Book::new();
    book.add_chapter("./intro.md", Vec::new(), None).unwrap();
    book.add_chapter("guide/../guide/api.md", Vec::new(), None).unwrap();
    assert_eq!(book.find_chapter(&names(&["intro.md"])), Some(0));
    assert_eq!(book.find_chapter(&names(&["guide", "api.md"])), Some(1));
    assert_eq!(book.find_chapter(&names(&["guide"])), None);
    assert_eq!(book.find_chapter(&names(&["Intro.md"])), None);
}

#[test]
fn a_chapter_outside_the_root_is_refused() {
    let mut book = Book::new();
    assert_eq!(book.add_chapter("../intro.md", Vec::new(), None), Err(BookError::OutsideRoot));
    assert_eq!(book.len(), 0);
}

#[test]
fn a_second_chapter_at_one_place_is_refused() {
    let mut book = Book::new();
    assert_eq!(book.add_chapter("intro.md", Vec::new(), None), Ok(0));
    assert_eq!(book.add_chapter("intro.md", Vec::new(), None), Err(BookError::DuplicatePath));
    assert_eq!(book.add_chapter("x/../intro.md", Vec::new(), None), Err(BookError::DuplicatePath));
    assert_eq!(book.len(), 1);
}

#[test]
fn a_parent_that_is_no_chapter_is_refused() {
    let mut book = Book::new();
    assert_eq!(book.add_chapter("a.md", Vec::new(), Some(0)), Err(BookError::NoSuchParent));
    assert_eq!(book.add_part("Part"), 0);
    assert_eq!(book.add_chapter("a.md", Vec::new(), Some(0)), Err(BookError::NoSuchParent));
    assert_eq!(book.add_chapter("a.md", Vec::new(), Some(7)), Err(BookError::NoSuchParent));
    assert_eq!(book.add_chapter("a.md", Vec::new(), None), Ok(1));
    assert_eq!(book.add_chapter("b.md", Vec::new(), Some(1)), Ok(2));
}

#[test]
fn the_first_reason_against_a_chapter_is_given() {
    let mut book = Book::new();
    book.add_chapter("a.md", Vec::new(), None).unwrap();
    assert_eq!(book.add_chapter("../a.md", Vec::new(), Some(9)), Err(BookError::OutsideRoot));
    assert_eq!(book.add_chapter("a.md", Vec::new(), Some(9)), Err(BookError::DuplicatePath));
}
