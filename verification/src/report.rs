//! What a check finds: the outcome for one link, and the broken links of a
//! book in the order in which they stand in it.

use vstd::prelude::*;
use vstd::string::StringExecFns;
use crate::link::{Link, LinkView};
use crate::text::{decimal, decimal_chars, string_of};

verus! {

/// Why a link is broken.
#[derive(Debug, PartialEq, Eq)]
#[allow(inconsistent_fields)]
pub enum Reason {
    /// No chapter of the book is at the place that the path names.
    MissingFile { path: String },
    /// The document is there, but has no heading with that anchor.
    MissingAnchor { path: String, anchor: String },
    /// The request did not get through: no connection, no such host, no
    /// answer in time.
    NetworkError { message: String },
    /// The server answered with a status that is no success.
    HttpError { status: u16 },
    /// The server kept sending the request on.
    TooManyRedirects,
}

/// What a `Reason` stands for.
#[allow(inconsistent_fields)]
pub enum ReasonView {
    MissingFile { path: Seq<char> },
    MissingAnchor { path: Seq<char>, anchor: Seq<char> },
    NetworkError { message: Seq<char> },
    HttpError { status: u16 },
    TooManyRedirects,
}

impl View for Reason {
    type V = ReasonView;

    open spec fn view(&self) -> ReasonView {
        match *self {
            Reason::MissingFile { path } => ReasonView::MissingFile { path: path@ },
            Reason::MissingAnchor { path, anchor } => ReasonView::MissingAnchor {
                path: path@,
                anchor: anchor@,
            },
            Reason::NetworkError { message } => ReasonView::NetworkError { message: message@ },
            Reason::HttpError { status } => ReasonView::HttpError { status },
            Reason::TooManyRedirects => ReasonView::TooManyRedirects,
        }
    }
}

impl Clone for Reason {
    fn clone(&self) -> (out: Self)
        ensures
            out@ == self@,
    {
        match self {
            Reason::MissingFile { path } => Reason::MissingFile { path: path.clone() },
            Reason::MissingAnchor { path, anchor } => Reason::MissingAnchor {
                path: path.clone(),
                anchor: anchor.clone(),
            },
            Reason::NetworkError { message } => Reason::NetworkError { message: message.clone() },
            Reason::HttpError { status } => Reason::HttpError { status: *status },
            Reason::TooManyRedirects => Reason::TooManyRedirects,
        }
    }
}

/// A reason in words.
pub open spec fn reason_text(reason: ReasonView) -> Seq<char> {
    match reason {
        ReasonView::MissingFile { path } => "no such document: "@ + path,
        ReasonView::MissingAnchor { path, anchor } => "no such heading: "@ + path + "#"@ + anchor,
        ReasonView::NetworkError { message } => "network error: "@ + message,
        ReasonView::HttpError { status } => "server answered with status "@ + decimal(
            status as nat,
        ),
        ReasonView::TooManyRedirects => "too many redirects"@,
    }
}

impl Reason {
    /// The reason in words, for a reader.
    pub fn describe(&self) -> (out: String)
        ensures
            out@ == reason_text(self@),
    {
        match self {
            Reason::MissingFile { path } => {
                let mut out = String::from_str("no such document: ");
                out.append(path.as_str());
                out
            },
            Reason::MissingAnchor { path, anchor } => {
                let mut out = String::from_str("no such heading: ");
                out.append(path.as_str());
                out.append("#");
                out.append(anchor.as_str());
                out
            },
            Reason::NetworkError { message } => {
                let mut out = String::from_str("network error: ");
                out.append(message.as_str());
                out
            },
            Reason::HttpError { status } => {
                let mut out = String::from_str("server answered with status ");
                let digits = decimal_chars(*status as u128);
                out.append(string_of(digits.as_slice()).as_str());
                out
            },
            Reason::TooManyRedirects => String::from_str("too many redirects"),
        }
    }
}

/// What the check of one link gives.
#[derive(Debug, PartialEq, Eq)]
pub enum Outcome {
    /// The target is there, or the link is of a kind that is not checked.
    Valid,
    /// The target could not be confirmed.
    Broken(Reason),
}

/// What an `Outcome` stands for.
pub enum OutcomeView {
    Valid,
    Broken(ReasonView),
}

impl View for Outcome {
    type V = OutcomeView;

    open spec fn view(&self) -> OutcomeView {
        match *self {
            Outcome::Valid => OutcomeView::Valid,
            Outcome::Broken(reason) => OutcomeView::Broken(reason@),
        }
    }
}

impl Clone for Outcome {
    fn clone(&self) -> (out: Self)
        ensures
            out@ == self@,
    {
        match self {
            Outcome::Valid => Outcome::Valid,
            Outcome::Broken(reason) => Outcome::Broken(reason.clone()),
        }
    }
}

/// A broken link: the link and why it is broken.
#[derive(Debug, PartialEq, Eq)]
pub struct BrokenLink {
    pub link: Link,
    pub reason: Reason,
}

/// What a `BrokenLink` stands for.
pub struct BrokenLinkView {
    pub link: LinkView,
    pub reason: ReasonView,
}

impl View for BrokenLink {
    type V = BrokenLinkView;

    open spec fn view(&self) -> BrokenLinkView {
        BrokenLinkView { link: self.link@, reason: self.reason@ }
    }
}

impl Clone for BrokenLink {
    fn clone(&self) -> (out: Self)
        ensures
            out@ == self@,
    {
        BrokenLink { link: self.link.clone(), reason: self.reason.clone() }
    }
}

impl BrokenLink {
    /// The path of the chapter that holds the link.
    pub fn chapter(&self) -> (path: &str)
        ensures
            path@ == self@.link.chapter,
    {
        self.link.chapter.as_str()
    }

    /// The line of the chapter on which the link starts, counted from one.
    pub fn line(&self) -> (line: usize)
        ensures
            line == self@.link.line,
    {
        self.link.line
    }

    /// Why the link is broken, in words.
    pub fn reason_text(&self) -> (out: String)
        ensures
            out@ == reason_text(self@.reason),
    {
        self.reason.describe()
    }
}

/// The broken links of a run, in the order in which they were added. No
/// record is dropped, and two records that say the same of two places both
/// stay.
#[derive(Debug, PartialEq, Eq)]
pub struct BrokenLinks {
    pub records: Vec<BrokenLink>,
}

impl View for BrokenLinks {
    type V = Seq<BrokenLinkView>;

    open spec fn view(&self) -> Seq<BrokenLinkView> {
        Seq::new(self.records@.len(), |i: int| self.records@[i]@)
    }
}

impl BrokenLinks {
    /// No broken links.
    pub fn new() -> (out: Self)
        ensures
            out@ == Seq::<BrokenLinkView>::empty(),
    {
        let out = BrokenLinks { records: Vec::new() };
        assert(out@ =~= Seq::<BrokenLinkView>::empty());
        out
    }

    /// Adds a record behind the ones that are there.
    pub fn push(&mut self, record: BrokenLink)
        ensures
            final(self)@ == old(self)@.push(record@),
    {
        self.records.push(record);
        assert(self@ =~= old(self)@.push(record@));
    }

    /// Adds the records of another collection, in their order, behind the
    /// ones that are there.
    pub fn absorb(&mut self, other: BrokenLinks)
        ensures
            final(self)@ == old(self)@ + other@,
    {
        let mut rest = other.records;
        self.records.append(&mut rest);
        assert(self@ =~= old(self)@ + other@);
    }

    /// How many records there are.
    pub fn len(&self) -> (n: usize)
        ensures
            n == self@.len(),
    {
        self.records.len()
    }

    /// Whether there is no record: the run found nothing broken.
    pub fn is_empty(&self) -> (empty: bool)
        ensures
            empty == (self@.len() == 0),
    {
        self.records.len() == 0
    }

    /// Record `i`, counted from zero, or `None` past the last one.
    pub fn get(&self, i: usize) -> (record: Option<&BrokenLink>)
        ensures
            record is Some <==> i < self@.len(),
            record is Some ==> record.unwrap()@ == self@[i as int],
    {
        if i < self.records.len() {
            Some(&self.records[i])
        } else {
            None
        }
    }
}

} // verus!
