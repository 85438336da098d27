use mdbook_linkcheck::book::Book;
use mdbook_linkcheck::check::{
    assemble, check_links, scan_book, validate, CheckError, Checker, Phase,
};
use mdbook_linkcheck::classify::classify;
use mdbook_linkcheck::link::{ClassifiedLink, Link, LinkKind};
use mdbook_linkcheck::local::validate_local;
use mdbook_linkcheck::report::{BrokenLink, BrokenLinks, Outcome, Reason};
use mdbook_linkcheck::web::{Action, Response, WebConfig, WebRun};

fn text(s: &str) -> String {
    s.to_string()
}

fn book_of(chapters: &[(&str, &str)]) -> Book {
    let mut book = Book::new();
    for (path, content) in chapters {
        book.add_chapter(path, content.as_bytes().to_vec(), None).unwrap();
    }
    book
}

fn link_in(chapter: &str, target: &str) -> ClassifiedLink {
    classify(Link { chapter: text(chapter), line: 1, target: text(target), text: None })
}

fn local(book: &Book, chapter: &str, target: &str) -> Outcome {
    let scan = scan_book(book).unwrap();
    validate_local(book, &scan.index, &link_in(chapter, target))
}

fn missing_file(path: &str) -> Outcome {
    Outcome::Broken(Reason::MissingFile { path: text(path) })
}

fn missing_anchor(path: &str, anchor: &str) -> Outcome {
    Outcome::Broken(Reason::MissingAnchor { path: text(path), anchor: text(anchor) })
}

fn summary(report: &BrokenLinks) -> Vec<(String, usize, String)> {
    let mut out = Vec::new();
    let mut i = 0;
    while let Some(record) = report.get(i) {
        out.push((record.chapter().to_string(), record.line(), record.reason_text()));
        i += 1;
    }
    out
}

fn answer_all(checker: &mut Checker, answer: fn(&str) -> Response) -> Vec<String> {
    let mut asked = Vec::new();
    loop {
        match checker.next_action() {
            Action::Fetch { job, url, .. } => {
                let response = answer(&url);
                asked.push(url);
                assert!(checker.on_response(job, response));
            }
            Action::Wait => panic!("nothing is under way"),
            Action::Finished => break,
        }
    }
    asked
}

fn unreachable_host(_url: &str) -> Response {
    Response::Failed { message: text("no such host") }
}

fn all_fine(_url: &str) -> Response {
    Response::Status { code: 200, location: None }
}

const INTRO: &str = "# Getting Started\n";
const API: &str = "# Api\n\n[see](intro.md#getting-started)\n[bad](intro.md#missing)\n\n[gone](nope.md)\n[site](https://example.invalid/)\n";

#[test]
fn a_link_to_a_heading_of_its_own_chapter() {
    let book = book_of(&[("intro.md", "# Getting Started\n\n## Next\n")]);
    assert_eq!(local(&book, "intro.md", "#getting-started"), Outcome::Valid);
    assert_eq!(local(&book, "intro.md", "#next"), Outcome::Valid);
    assert_eq!(local(&book, "intro.md", "#Next"), missing_anchor("intro.md", "Next"));
    assert_eq!(local(&book, "intro.md", "#"), missing_anchor("intro.md", ""));
}

#[test]
fn a_link_breaks_when_its_heading_goes_or_is_renamed() {
    let with = book_of(&[("intro.md", "# Getting Started\n")]);
    assert_eq!(local(&with, "intro.md", "#getting-started"), Outcome::Valid);
    let renamed = book_of(&[("intro.md", "# First Steps\n")]);
    assert_eq!(
        local(&renamed, "intro.md", "#getting-started"),
        missing_anchor("intro.md", "getting-started")
    );
    let removed = book_of(&[("intro.md", "no heading here\n")]);
    assert_eq!(
        local(&removed, "intro.md", "#getting-started"),
        missing_anchor("intro.md", "getting-started")
    );
}

#[test]
fn a_link_to_another_document() {
    let book = book_of(&[
        ("intro.md", INTRO),
        ("guide/api.md", "# Api\n"),
        ("guide/deep/more.md", "# More\n"),
    ]);
    assert_eq!(local(&book, "guide/api.md", "../intro.md"), Outcome::Valid);
    assert_eq!(local(&book, "guide/api.md", "../intro.md#getting-started"), Outcome::Valid);
    assert_eq!(local(&book, "guide/api.md", "deep/more.md#more"), Outcome::Valid);
    assert_eq!(local(&book, "guide/api.md", "./api.md#api"), Outcome::Valid);
    assert_eq!(local(&book, "guide/deep/more.md", "../../intro.md"), Outcome::Valid);
    assert_eq!(local(&book, "guide/api.md", "intro.md"), missing_file("intro.md"));
    assert_eq!(local(&book, "guide/api.md", "deep"), missing_file("deep"));
    assert_eq!(local(&book, "guide/api.md", ""), missing_file(""));
    assert_eq!(
        local(&book, "guide/api.md", "../intro.md#nope"),
        missing_anchor("../intro.md", "nope")
    );
}

#[test]
fn a_link_from_the_root() {
    let book = book_of(&[("intro.md", INTRO), ("guide/api.md", "# Api\n")]);
    assert_eq!(local(&book, "guide/api.md", "/intro.md"), Outcome::Valid);
    assert_eq!(local(&book, "guide/api.md", "/guide/api.md#api"), Outcome::Valid);
    assert_eq!(local(&book, "intro.md", "/api.md"), missing_file("/api.md"));
    assert_eq!(local(&book, "intro.md", "/../intro.md"), missing_file("/../intro.md"));
    assert_eq!(
        local(&book, "intro.md", "/guide/api.md#none"),
        missing_anchor("/guide/api.md", "none")
    );
}

#[test]
fn a_path_that_leaves_the_book_is_a_missing_file() {
    let book = book_of(&[("intro.md", INTRO), ("guide/api.md", "# Api\n")]);
    assert_eq!(local(&book, "intro.md", "../../etc/passwd"), missing_file("../../etc/passwd"));
    assert_eq!(local(&book, "guide/api.md", "../../etc/passwd"), missing_file("../../etc/passwd"));
    assert_eq!(local(&book, "intro.md", "../intro.md"), missing_file("../intro.md"));
    assert_eq!(
        local(&book, "guide/api.md", "../../guide/api.md"),
        missing_file("../../guide/api.md")
    );
}

#[test]
fn links_that_are_not_the_books_to_check_are_valid() {
    let book = book_of(&[("intro.md", INTRO)]);
    assert_eq!(local(&book, "intro.md", "https://example.invalid/"), Outcome::Valid);
    assert_eq!(local(&book, "intro.md", "mailto:x@example.com"), Outcome::Valid);
}

#[test]
fn a_link_from_a_chapter_that_is_not_in_the_book() {
    let book = book_of(&[("intro.md", INTRO)]);
    assert_eq!(local(&book, "other.md", "#x"), missing_file("other.md"));
    assert_eq!(local(&book, "../other.md", "intro.md"), missing_file("../other.md"));
}

#[test]
fn scan_gathers_anchors_and_links_of_every_chapter() {
    let mut book = Book::new();
    book.add_chapter("intro.md", INTRO.as_bytes().to_vec(), None).unwrap();
    book.add_part("Reference");
    book.add_chapter("api.md", API.as_bytes().to_vec(), None).unwrap();
    let scan = scan_book(&book).unwrap();
    assert_eq!(scan.index.len(), 3);
    assert!(scan.index.has_anchor(0, "getting-started"));
    assert!(!scan.index.has_anchor(1, "getting-started"));
    assert!(scan.index.has_anchor(2, "api"));
    assert!(!scan.index.has_anchor(2, "getting-started"));
    assert!(!scan.index.has_anchor(3, "api"));
    let found: Vec<(String, usize, String)> = scan
        .links
        .iter()
        .map(|l| (l.link.chapter.clone(), l.link.line, l.link.target.clone()))
        .collect();
    assert_eq!(
        found,
        vec![
            (text("api.md"), 3, text("intro.md#getting-started")),
            (text("api.md"), 4, text("intro.md#missing")),
            (text("api.md"), 6, text("nope.md")),
            (text("api.md"), 7, text("https://example.invalid/")),
        ]
    );
    assert_eq!(
        scan.links[3].kind,
        LinkKind::External { url: text("https://example.invalid/") }
    );
}

#[test]
fn book_with_valid_and_broken_links() {
    let book = book_of(&[("intro.md", INTRO), ("api.md", API)]);
    let mut checker = match Checker::start(book, WebConfig::new(true)) {
        Ok(checker) => checker,
        Err(error) => panic!("{:?}", error),
    };
    assert_eq!(checker.phase(), Phase::Validating);
    assert_eq!(checker.report(), None);
    let asked = answer_all(&mut checker, unreachable_host);
    assert_eq!(asked, vec![text("https://example.invalid/")]);
    assert!(checker.is_finished());
    assert_eq!(checker.phase(), Phase::DoneBroken);
    let report = checker.report().unwrap();
    assert_eq!(report.len(), 3);
    assert!(!report.is_empty());
    assert_eq!(
        report.records,
        vec![
            BrokenLink {
                link: Link {
                    chapter: text("api.md"),
                    line: 4,
                    target: text("intro.md#missing"),
                    text: Some(text("bad")),
                },
                reason: Reason::MissingAnchor { path: text("intro.md"), anchor: text("missing") },
            },
            BrokenLink {
                link: Link {
                    chapter: text("api.md"),
                    line: 6,
                    target: text("nope.md"),
                    text: Some(text("gone")),
                },
                reason: Reason::MissingFile { path: text("nope.md") },
            },
            BrokenLink {
                link: Link {
                    chapter: text("api.md"),
                    line: 7,
                    target: text("https://example.invalid/"),
                    text: Some(text("site")),
                },
                reason: Reason::NetworkError { message: text("no such host") },
            },
        ]
    );
}

#[test]
fn without_web_checks_web_links_are_not_reported() {
    let book = book_of(&[("intro.md", INTRO), ("api.md", API)]);
    let report = check_links(&book).unwrap();
    assert_eq!(
        summary(&report),
        vec![
            (text("api.md"), 4, text("no such heading: intro.md#missing")),
            (text("api.md"), 6, text("no such document: nope.md")),
        ]
    );
    let mut checker = match Checker::start(book, WebConfig::new(false)) {
        Ok(checker) => checker,
        Err(error) => panic!("{:?}", error),
    };
    assert!(checker.is_finished());
    assert_eq!(checker.next_action(), Action::Finished);
    assert_eq!(checker.report(), Some(report));
}

#[test]
fn a_sound_book_has_an_empty_report() {
    let book = book_of(&[
        ("intro.md", "# Getting Started\n\n[api](api.md#api) [self](#getting-started)\n"),
        ("api.md", "# Api\n\n[back](intro.md) <mailto:someone@example.com>\n"),
    ]);
    let report = check_links(&book).unwrap();
    assert!(report.is_empty());
    assert_eq!(report.len(), 0);
    assert_eq!(report.get(0), None);
    let checker = match Checker::start(book, WebConfig::new(false)) {
        Ok(checker) => checker,
        Err(error) => panic!("{:?}", error),
    };
    assert_eq!(checker.phase(), Phase::DoneSound);
}

#[test]
fn an_empty_book_is_sound() {
    let report = check_links(&Book::new()).unwrap();
    assert!(report.is_empty());
}

#[test]
fn two_checks_of_one_book_give_the_same_report() {
    let chapters = [
        ("intro.md", "# A\n\n[x](nope.md) [y](#none) <https://example.invalid/a>\n"),
        ("b/c.md", "[z](../intro.md#zzz)\n\n<a href=\"../../out.md\">o</a> [w](https://example.invalid/a)\n"),
    ];
    let first = check_links(&book_of(&chapters)).unwrap();
    let second = check_links(&book_of(&chapters)).unwrap();
    assert_eq!(first, second);
    assert_eq!(first.len(), 4);
    let mut reports = Vec::new();
    for _ in 0..2 {
        let mut checker = match Checker::start(book_of(&chapters), WebConfig::new(true)) {
            Ok(checker) => checker,
            Err(error) => panic!("{:?}", error),
        };
        let asked = answer_all(&mut checker, unreachable_host);
        assert_eq!(asked, vec![text("https://example.invalid/a")]);
        reports.push(checker.report().unwrap());
    }
    assert_eq!(reports[0], reports[1]);
    assert_eq!(reports[0].len(), 6);
}

#[test]
fn records_follow_chapters_and_lines_and_are_never_merged() {
    let book = book_of(&[
        ("one.md", "[a](nope.md)\n[b](nope.md)\n"),
        ("two.md", "[c](nope.md) [d](https://example.invalid/) [e](https://example.invalid/)\n"),
    ]);
    let mut checker = match Checker::start(book, WebConfig::new(true)) {
        Ok(checker) => checker,
        Err(error) => panic!("{:?}", error),
    };
    let asked = answer_all(&mut checker, unreachable_host);
    assert_eq!(asked.len(), 1);
    let report = checker.report().unwrap();
    assert_eq!(
        summary(&report),
        vec![
            (text("one.md"), 1, text("no such document: nope.md")),
            (text("one.md"), 2, text("no such document: nope.md")),
            (text("two.md"), 1, text("no such document: nope.md")),
            (text("two.md"), 1, text("network error: no such host")),
            (text("two.md"), 1, text("network error: no such host")),
        ]
    );
}

#[test]
fn web_links_that_answer_are_not_reported() {
    let book = book_of(&[("a.md", "<https://example.com/> [x](https://example.org/)\n")]);
    let mut checker = match Checker::start(book, WebConfig::new(true)) {
        Ok(checker) => checker,
        Err(error) => panic!("{:?}", error),
    };
    let asked = answer_all(&mut checker, all_fine);
    assert_eq!(asked, vec![text("https://example.com/"), text("https://example.org/")]);
    assert_eq!(checker.phase(), Phase::DoneSound);
    assert!(checker.report().unwrap().is_empty());
}

#[test]
fn an_unreadable_chapter_stops_the_check() {
    let mut book = Book::new();
    book.add_chapter("ok.md", b"[x](nope.md)\n".to_vec(), None).unwrap();
    book.add_part("Part");
    book.add_chapter("bad.md", vec![0x23, 0x20, 0xff, 0xfe], None).unwrap();
    book.add_chapter("worse.md", vec![0xc3], None).unwrap();
    assert_eq!(check_links(&book), Err(CheckError::UnreadableChapter { chapter: 2 }));
    assert!(matches!(scan_book(&book), Err(CheckError::UnreadableChapter { chapter: 2 })));
    assert!(matches!(
        Checker::start(book, WebConfig::new(true)),
        Err(CheckError::UnreadableChapter { chapter: 2 })
    ));
}

#[test]
fn validate_reads_web_outcomes_from_the_run() {
    let book = book_of(&[("a.md", "# A\n")]);
    let scan = scan_book(&book).unwrap();
    let site = link_in("a.md", "https://example.invalid/");
    let links = vec![site.clone(), link_in("a.md", "#a")];
    let mut run = WebRun::new(WebConfig::new(true), &links);
    assert_eq!(validate(&book, &scan.index, &run, &site), Outcome::Valid);
    run.next_action();
    run.on_response(0, Response::Status { code: 503, location: None });
    assert_eq!(
        validate(&book, &scan.index, &run, &site),
        Outcome::Broken(Reason::HttpError { status: 503 })
    );
    assert_eq!(validate(&book, &scan.index, &run, &links[1]), Outcome::Valid);
    let report = assemble(&book, &scan.index, &run, &links);
    assert_eq!(summary(&report), vec![(text("a.md"), 1, text("server answered with status 503"))]);
}

#[test]
fn reasons_in_words() {
    assert_eq!(Reason::MissingFile { path: text("a/b.md") }.describe(), "no such document: a/b.md");
    assert_eq!(
        Reason::MissingAnchor { path: text("a.md"), anchor: text("top") }.describe(),
        "no such heading: a.md#top"
    );
    assert_eq!(
        Reason::NetworkError { message: text("connection refused") }.describe(),
        "network error: connection refused"
    );
    assert_eq!(Reason::HttpError { status: 404 }.describe(), "server answered with status 404");
    assert_eq!(Reason::HttpError { status: 0 }.describe(), "server answered with status 0");
    assert_eq!(Reason::HttpError { status: 65535 }.describe(), "server answered with status 65535");
    assert_eq!(Reason::TooManyRedirects.describe(), "too many redirects");
}

#[test]
fn broken_links_keep_every_record_in_order() {
    let record = |line: usize| BrokenLink {
        link: Link { chapter: text("a.md"), line, target: text("x.md"), text: None },
        reason: Reason::MissingFile { path: text("x.md") },
    };
    let mut first = BrokenLinks::new();
    assert!(first.is_empty());
    first.push(record(1));
    first.push(record(1));
    let mut second = BrokenLinks::new();
    second.push(record(3));
    first.absorb(second);
    assert_eq!(first.len(), 3);
    assert!(!first.is_empty());
    assert_eq!(first.get(0), Some(&record(1)));
    assert_eq!(first.get(1), Some(&record(1)));
    assert_eq!(first.get(2), Some(&record(3)));
    assert_eq!(first.get(3), None);
    assert_eq!(first.get(2).unwrap().chapter(), "a.md");
    assert_eq!(first.get(2).unwrap().line(), 3);
    assert_eq!(first.get(2).unwrap().reason_text(), "no such document: x.md");
}
