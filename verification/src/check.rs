//! The check of a whole book: the anchors of every chapter are gathered and
//! the links of every chapter are extracted and classified, then every link
//! is validated and the broken ones are put together in reading order.

use vstd::prelude::*;
use vstd::utf8::{decode_utf8, valid_utf8};
use crate::anchors::{anchors_from_markup, chapter_anchors, decode, HeadingIndex};
use crate::book::{Book, BookView};
use crate::classify::{classify, kind_of};
use crate::extract::{link_views, links_from_markup, links_in};
use crate::link::{
    classified_views, ClassifiedLink, ClassifiedLinkView, LinkKind, LinkKindView, LinkView,
};
use crate::local::{local_outcome, validate_local};
use crate::markdown::{markdown_events, markup_of};
use crate::report::{BrokenLink, BrokenLinkView, BrokenLinks, Outcome, OutcomeView};
use crate::text::views;
use crate::web::{
    accepts, action_of, after_action, after_response, fresh_run, Action, Response, WebConfig,
    WebRun, WebRunView,
};

verus! {

/// Why a book cannot be checked at all. This is no broken link: the book
/// itself is at fault.
#[derive(Debug, Clone, Copy, PartialEq, Eq)]
pub enum CheckError {
    /// The content of the chapter at this position is no valid UTF-8.
    UnreadableChapter { chapter: usize },
}

/// Whether entry `i` is a chapter whose content cannot be read.
pub open spec fn unreadable(book: BookView, i: int) -> bool {
    book.is_chapter(i) && !valid_utf8(book.content(i))
}

/// The first chapter from `from` on whose content cannot be read.
pub open spec fn first_unreadable(book: BookView, from: int) -> Option<int>
    decreases book.entries.len() - from,
{
    if from < 0 || from >= book.entries.len() {
        None
    } else if unreadable(book, from) {
        Some(from)
    } else {
        first_unreadable(book, from + 1)
    }
}

/// The anchors of entry `i`: those of its headings for a chapter, none for
/// a part.
pub open spec fn entry_anchors(book: BookView, i: int) -> Seq<Seq<char>> {
    if book.is_chapter(i) {
        chapter_anchors(book.content(i))
    } else {
        Seq::empty()
    }
}

/// The anchors of every entry of a book.
pub open spec fn book_anchors(book: BookView) -> Seq<Seq<Seq<char>>> {
    Seq::new(book.entries.len(), |i: int| entry_anchors(book, i))
}

/// Links with the kinds of their targets.
pub open spec fn classified(links: Seq<LinkView>) -> Seq<ClassifiedLinkView> {
    Seq::new(
        links.len(),
        |k: int| ClassifiedLinkView { link: links[k], kind: kind_of(links[k].target) },
    )
}

/// The classified links of entry `i`, in the order in which they stand in
/// it; none for a part.
pub open spec fn entry_links(book: BookView, i: int) -> Seq<ClassifiedLinkView> {
    if book.is_chapter(i) {
        classified(
            links_in(
                book.path(i),
                book.content(i),
                markdown_events(decode_utf8(book.content(i))),
            ),
        )
    } else {
        Seq::empty()
    }
}

/// The classified links of the first `n` entries of a book, in reading
/// order.
pub open spec fn links_upto(book: BookView, n: int) -> Seq<ClassifiedLinkView>
    decreases n,
{
    if n <= 0 {
        Seq::empty()
    } else {
        links_upto(book, n - 1) + entry_links(book, n - 1)
    }
}

/// The classified links of a book: chapter after chapter, and within a
/// chapter in the order in which the links stand in it.
pub open spec fn all_links(book: BookView) -> Seq<ClassifiedLinkView> {
    links_upto(book, book.entries.len() as int)
}

/// What the check of one link gives: for a web address the outcome that the
/// run of web checks has for it, and valid where it has none; for any other
/// link what the book gives.
pub open spec fn link_outcome(
    book: BookView,
    index: Seq<Seq<Seq<char>>>,
    web: WebRunView,
    link: ClassifiedLinkView,
) -> OutcomeView {
    match link.kind {
        LinkKindView::External { url } => match web.outcome(url) {
            Some(outcome) => outcome,
            None => OutcomeView::Valid,
        },
        _ => local_outcome(book, index, link),
    }
}

/// The record that a link adds to the report: one where it is broken, none
/// where it is valid.
pub open spec fn record_of(
    book: BookView,
    index: Seq<Seq<Seq<char>>>,
    web: WebRunView,
    link: ClassifiedLinkView,
) -> Seq<BrokenLinkView> {
    match link_outcome(book, index, web, link) {
        OutcomeView::Valid => Seq::empty(),
        OutcomeView::Broken(reason) => seq![BrokenLinkView { link: link.link, reason }],
    }
}

/// The report for some links: the records of the broken ones, in the order
/// of the links.
pub open spec fn report_of(
    book: BookView,
    index: Seq<Seq<Seq<char>>>,
    web: WebRunView,
    links: Seq<ClassifiedLinkView>,
) -> Seq<BrokenLinkView>
    decreases links.len(),
{
    if links.len() == 0 {
        Seq::empty()
    } else {
        report_of(book, index, web, links.drop_last()) + record_of(book, index, web, links.last())
    }
}

/// The report for a book, given the outcomes of the web checks.
pub open spec fn book_report(book: BookView, web: WebRunView) -> Seq<BrokenLinkView> {
    report_of(book, book_anchors(book), web, all_links(book))
}

/// What a book was found to hold: the anchors of every chapter, and every
/// link with the kind of its target.
pub struct Scan {
    pub index: HeadingIndex,
    pub links: Vec<ClassifiedLink>,
}

impl Scan {
    /// Whether the scan is that of the given book.
    pub open spec fn is_of(&self, book: BookView) -> bool {
        self.index@ == book_anchors(book) && classified_views(self.links@) == all_links(book)
    }
}

/// What a `first_unreadable` names: a chapter that cannot be read, with
/// none such between the start and it.
pub proof fn lemma_first_unreadable(book: BookView, from: int)
    requires
        0 <= from,
    ensures
        match first_unreadable(book, from) {
            Some(at) => from <= at < book.entries.len() && unreadable(book, at),
            None => forall|j: int| from <= j < book.entries.len() ==> !unreadable(book, j),
        },
    decreases book.entries.len() - from,
{
    if from < book.entries.len() && !unreadable(book, from) {
        lemma_first_unreadable(book, from + 1);
    }
}

/// Reads a book: gathers the anchors of every chapter, and extracts and
/// classifies the links of every chapter. It fails at the first chapter
/// whose content is no valid UTF-8, and only then.
pub fn scan_book(book: &Book) -> (out: Result<Scan, CheckError>)
    ensures
        match out {
            Ok(scan) => first_unreadable(book@, 0) is None && scan.is_of(book@),
            Err(CheckError::UnreadableChapter { chapter }) => first_unreadable(book@, 0) == Some(
                chapter as int,
            ),
        },
{
    let mut index = HeadingIndex::new();
    let mut links: Vec<ClassifiedLink> = Vec::new();
    let mut i: usize = 0;
    assert(index@ =~= book_anchors(book@).take(0));
    assert(classified_views(links@) =~= links_upto(book@, 0));
    while i < book.len()
        invariant
            i <= book@.entries.len(),
            index@ == book_anchors(book@).take(i as int),
            classified_views(links@) == links_upto(book@, i as int),
            first_unreadable(book@, i as int) == first_unreadable(book@, 0),
        decreases book@.entries.len() - i,
    {
        let ghost seen = index@;
        let ghost done = classified_views(links@);
        if book.is_chapter(i) {
            let path = book.chapter_path(i).unwrap();
            let content = book.chapter_content(i).unwrap();
            let text = match decode(content) {
                None => {
                    return Err(CheckError::UnreadableChapter { chapter: i });
                },
                Some(text) => text,
            };
            let events = markup_of(text);
            let found = anchors_from_markup(&events);
            index.push(found);
            let raw = links_from_markup(path, content, &events);
            let ghost wanted = entry_links(book@, i as int);
            assert(wanted == classified(link_views(raw@)));
            let mut k: usize = 0;
            while k < raw.len()
                invariant
                    k <= raw.len(),
                    wanted == classified(link_views(raw@)),
                    classified_views(links@) == done + wanted.take(k as int),
                decreases raw.len() - k,
            {
                let ghost so_far = classified_views(links@);
                let link = classify(raw[k].clone());
                links.push(link);
                assert(classified_views(links@) =~= so_far.push(wanted[k as int]));
                assert(wanted.take(k + 1) =~= wanted.take(k as int).push(wanted[k as int]));
                k += 1;
            }
            assert(wanted.take(raw.len() as int) =~= wanted);
        } else {
            index.push(Vec::new());
            assert(views(Seq::<Vec<char>>::empty()) =~= Seq::<Seq<char>>::empty());
            assert(done + entry_links(book@, i as int) =~= done);
        }
        assert(index@ =~= book_anchors(book@).take(i + 1));
        i += 1;
    }
    assert(book_anchors(book@).take(book@.entries.len() as int) =~= book_anchors(book@));
    Ok(Scan { index, links })
}

/// Validates one link: a web address by the outcome that the run of web
/// checks has for it, any other link against the book.
pub fn validate(book: &Book, index: &HeadingIndex, web: &WebRun, link: &ClassifiedLink) -> (outcome:
    Outcome)
    ensures
        outcome@ == link_outcome(book@, index@, web@, link@),
{
    match &link.kind {
        LinkKind::External { url } => match web.outcome_of(url.as_str()) {
            Some(outcome) => outcome,
            None => Outcome::Valid,
        },
        _ => validate_local(book, index, link),
    }
}

/// Validates the links in their order and puts the records of the broken
/// ones together, in that order. No record is left out and none is merged
/// with another.
pub fn assemble(book: &Book, index: &HeadingIndex, web: &WebRun, links: &Vec<ClassifiedLink>) -> (report:
    BrokenLinks)
    ensures
        report@ == report_of(book@, index@, web@, classified_views(links@)),
{
    let mut report = BrokenLinks::new();
    let mut i: usize = 0;
    let ghost all = classified_views(links@);
    assert(all.take(0) =~= Seq::<ClassifiedLinkView>::empty());
    while i < links.len()
        invariant
            i <= links.len(),
            all == classified_views(links@),
            report@ == report_of(book@, index@, web@, all.take(i as int)),
        decreases links.len() - i,
    {
        proof {
            let next = all.take(i + 1);
            assert(next.drop_last() =~= all.take(i as int));
            assert(next.last() == links@[i as int]@);
        }
        let ghost before = report@;
        match validate(book, index, web, &links[i]) {
            Outcome::Valid => {
                assert(before + Seq::<BrokenLinkView>::empty() =~= before);
            },
            Outcome::Broken(reason) => {
                let ghost record = BrokenLinkView { link: links@[i as int]@.link, reason: reason@ };
                report.push(BrokenLink { link: links[i].link.clone(), reason });
                assert(before.push(record) =~= before + seq![record]);
            },
        }
        i += 1;
    }
    assert(all.take(links.len() as int) =~= all);
    report
}

/// Checks every link of a book that points into the book; links to the web
/// are not followed and count as valid. The result is the broken links in
/// reading order; an empty one means that the book is sound. It fails at the
/// first chapter whose content is no valid UTF-8, and only then.
pub fn check_links(book: &Book) -> (out: Result<BrokenLinks, CheckError>)
    ensures
        match out {
            Ok(report) => first_unreadable(book@, 0) is None && report@ == book_report(
                book@,
                fresh_run(WebConfig::usual(false), all_links(book@)),
            ),
            Err(CheckError::UnreadableChapter { chapter }) => first_unreadable(book@, 0) == Some(
                chapter as int,
            ),
        },
{
    match scan_book(book) {
        Err(error) => Err(error),
        Ok(scan) => {
            let web = WebRun::new(WebConfig::new(false), &scan.links);
            Ok(assemble(book, &scan.index, &web, &scan.links))
        },
    }
}

/// Two checks of one book give the same report, record for record and in
/// the same order, where the web checks of the two gave every address the
/// same outcome. Without web checks the report is that of the book alone.
pub proof fn lemma_report_repeats(book: BookView, first: WebRunView, second: WebRunView)
    requires
        forall|url: Seq<char>| first.outcome(url) == second.outcome(url),
    ensures
        book_report(book, first) == book_report(book, second),
{
    lemma_reports_agree(book, book_anchors(book), first, second, all_links(book));
}

/// The report for some links is the same under two runs of web checks that
/// give every address the same outcome.
pub proof fn lemma_reports_agree(
    book: BookView,
    index: Seq<Seq<Seq<char>>>,
    first: WebRunView,
    second: WebRunView,
    links: Seq<ClassifiedLinkView>,
)
    requires
        forall|url: Seq<char>| first.outcome(url) == second.outcome(url),
    ensures
        report_of(book, index, first, links) == report_of(book, index, second, links),
    decreases links.len(),
{
    if links.len() > 0 {
        lemma_reports_agree(book, index, first, second, links.drop_last());
    }
}

/// Where a check of a book stands.
#[derive(Debug, Clone, Copy, PartialEq, Eq)]
pub enum Phase {
    /// Links to the web wait for their outcomes.
    Validating,
    /// Every link has its outcome, and none is broken.
    DoneSound,
    /// Every link has its outcome, and some are broken.
    DoneBroken,
}

/// What a check of a book stands for: the book, and the run of its web
/// checks.
pub struct CheckerView {
    pub book: BookView,
    pub web: WebRunView,
}

/// The check of one book from start to report. Starting it reads the book:
/// the anchors of all chapters are gathered, and all links are extracted
/// and classified, before any link is validated. While links to the web
/// wait for their outcomes, the checker says which request to make next,
/// and the caller makes it and hands the answer back. Once none waits, the
/// report is ready.
pub struct Checker {
    book: Book,
    scan: Scan,
    web: WebRun,
}

impl View for Checker {
    type V = CheckerView;

    closed spec fn view(&self) -> CheckerView {
        CheckerView { book: self.book@, web: self.web@ }
    }
}

impl Checker {
    #[verifier::type_invariant]
    spec fn valid(&self) -> bool {
        self.scan.is_of(self.book@)
    }

    /// Starts the check of a book. It fails at the first chapter whose
    /// content is no valid UTF-8, and only then. Else the run of web checks
    /// is at its start: with web checks switched on it has a job for every
    /// address that the book's links point at, and none with them off.
    pub fn start(book: Book, config: WebConfig) -> (out: Result<Checker, CheckError>)
        ensures
            match out {
                Ok(checker) => first_unreadable(book@, 0) is None && checker@.book == book@
                    && checker@.web == fresh_run(config, all_links(book@)),
                Err(CheckError::UnreadableChapter { chapter }) => first_unreadable(book@, 0)
                    == Some(chapter as int),
            },
    {
        match scan_book(&book) {
            Err(error) => Err(error),
            Ok(scan) => {
                let web = WebRun::new(config, &scan.links);
                Ok(Checker { book, scan, web })
            },
        }
    }

    fn take_apart(&mut self) -> (parts: (Book, Scan, WebRun))
        ensures
            parts.0@ == old(self)@.book,
            parts.2@ == old(self)@.web,
            parts.1.is_of(parts.0@),
    {
        proof {
            use_type_invariant(&*self);
        }
        let links: Vec<ClassifiedLink> = Vec::new();
        let web = WebRun::new(self.web.config(), &links);
        let book = Book::new();
        let scan = Scan { index: HeadingIndex::new(), links };
        assert(scan.index@ =~= book_anchors(book@));
        assert(classified_views(scan.links@) =~= all_links(book@));
        let mut taken = Checker { book, scan, web };
        std::mem::swap(self, &mut taken);
        (taken.book, taken.scan, taken.web)
    }

    /// What the caller is to do next: make a request, wait for an answer,
    /// or nothing more. The book stays as it is; the run of web checks goes
    /// on as `WebRun::next_action` says.
    pub fn next_action(&mut self) -> (action: Action)
        ensures
            action@ == action_of(old(self)@.web),
            final(self)@.web == after_action(old(self)@.web),
            final(self)@.book == old(self)@.book,
            action is Fetch ==> final(self)@.web.work() < old(self)@.web.work(),
            action is Finished ==> final(self)@.web.finished(),
    {
        let (book, scan, mut web) = self.take_apart();
        let action = web.next_action();
        *self = Checker { book, scan, web };
        action
    }

    /// Takes the answer to the request that was handed out under the number
    /// `job`. The book stays as it is; the run of web checks goes on as
    /// `WebRun::on_response` says. The result says whether the answer was
    /// taken.
    pub fn on_response(&mut self, job: usize, response: Response) -> (taken: bool)
        ensures
            taken == accepts(old(self)@.web, job as int),
            final(self)@.web == after_response(old(self)@.web, job as int, response@),
            final(self)@.book == old(self)@.book,
            taken ==> final(self)@.web.work() < old(self)@.web.work(),
    {
        let (book, scan, mut web) = self.take_apart();
        let taken = web.on_response(job, response);
        *self = Checker { book, scan, web };
        taken
    }

    /// Whether every link to the web has its outcome.
    pub fn is_finished(&self) -> (done: bool)
        ensures
            done == self@.web.finished(),
    {
        self.web.is_finished()
    }

    /// The report: the broken links of the book in reading order, once
    /// every link to the web has its outcome, and `None` before that.
    pub fn report(&self) -> (out: Option<BrokenLinks>)
        ensures
            out is Some <==> self@.web.finished(),
            out is Some ==> out.unwrap()@ == book_report(self@.book, self@.web),
    {
        proof {
            use_type_invariant(self);
        }
        if !self.web.is_finished() {
            return None;
        }
        Some(assemble(&self.book, &self.scan.index, &self.web, &self.scan.links))
    }

    /// Where the check stands: links to the web still wait, or it is over,
    /// with or without broken links.
    pub fn phase(&self) -> (phase: Phase)
        ensures
            phase == phase_of(self@),
    {
        match self.report() {
            None => Phase::Validating,
            Some(report) => if report.is_empty() {
                Phase::DoneSound
            } else {
                Phase::DoneBroken
            },
        }
    }
}

/// Where a check stands.
pub open spec fn phase_of(checker: CheckerView) -> Phase {
    if !checker.web.finished() {
        Phase::Validating
    } else if book_report(checker.book, checker.web).len() == 0 {
        Phase::DoneSound
    } else {
        Phase::DoneBroken
    }
}

} // verus!
