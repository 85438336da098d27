//! A link as it stands in a chapter, and the kinds of target it can have.

use vstd::prelude::*;

verus! {

/// What an optional string reads as.
pub open spec fn text_view(text: Option<String>) -> Option<Seq<char>> {
    match text {
        None => None,
        Some(s) => Some(s@),
    }
}

/// A copy of an optional string.
pub fn copy_text(text: &Option<String>) -> (out: Option<String>)
    ensures
        text_view(out) == text_view(*text),
{
    match text {
        None => None,
        Some(s) => Some(s.clone()),
    }
}

/// One occurrence of a link in a chapter.
#[derive(Debug, PartialEq, Eq)]
pub struct Link {
    /// The path of the chapter that holds the link.
    pub chapter: String,
    /// The line of the chapter on which the link starts, counted from one.
    pub line: usize,
    /// The target as written.
    pub target: String,
    /// The text of the link, where it has a plain one.
    pub text: Option<String>,
}

/// What a `Link` stands for.
pub struct LinkView {
    pub chapter: Seq<char>,
    pub line: nat,
    pub target: Seq<char>,
    pub text: Option<Seq<char>>,
}

impl View for Link {
    type V = LinkView;

    open spec fn view(&self) -> LinkView {
        LinkView {
            chapter: self.chapter@,
            line: self.line as nat,
            target: self.target@,
            text: text_view(self.text),
        }
    }
}

impl Clone for Link {
    fn clone(&self) -> (out: Self)
        ensures
            out@ == self@,
    {
        Link {
            chapter: self.chapter.clone(),
            line: self.line,
            target: self.target.clone(),
            text: copy_text(&self.text),
        }
    }
}

/// What the target of a link points at.
#[derive(Debug, PartialEq, Eq)]
#[allow(inconsistent_fields)]
pub enum LinkKind {
    /// A heading of the chapter that holds the link.
    SameDocAnchor { anchor: String },
    /// A document named from the directory of the chapter that holds the
    /// link, with or without a heading in it.
    CrossDoc { path: String, anchor: Option<String> },
    /// A document named from the book's root, with or without a heading in it.
    Absolute { path: String, anchor: Option<String> },
    /// A page on the web.
    External { url: String },
    /// A target with a scheme that is not checked, such as a mail address.
    Ignored,
}

/// What a `LinkKind` stands for.
#[allow(inconsistent_fields)]
pub enum LinkKindView {
    SameDocAnchor { anchor: Seq<char> },
    CrossDoc { path: Seq<char>, anchor: Option<Seq<char>> },
    Absolute { path: Seq<char>, anchor: Option<Seq<char>> },
    External { url: Seq<char> },
    Ignored,
}

impl View for LinkKind {
    type V = LinkKindView;

    open spec fn view(&self) -> LinkKindView {
        match *self {
            LinkKind::SameDocAnchor { anchor } => LinkKindView::SameDocAnchor { anchor: anchor@ },
            LinkKind::CrossDoc { path, anchor } => LinkKindView::CrossDoc {
                path: path@,
                anchor: text_view(anchor),
            },
            LinkKind::Absolute { path, anchor } => LinkKindView::Absolute {
                path: path@,
                anchor: text_view(anchor),
            },
            LinkKind::External { url } => LinkKindView::External { url: url@ },
            LinkKind::Ignored => LinkKindView::Ignored,
        }
    }
}

impl Clone for LinkKind {
    fn clone(&self) -> (out: Self)
        ensures
            out@ == self@,
    {
        match self {
            LinkKind::SameDocAnchor { anchor } => LinkKind::SameDocAnchor { anchor: anchor.clone() },
            LinkKind::CrossDoc { path, anchor } => LinkKind::CrossDoc {
                path: path.clone(),
                anchor: copy_text(anchor),
            },
            LinkKind::Absolute { path, anchor } => LinkKind::Absolute {
                path: path.clone(),
                anchor: copy_text(anchor),
            },
            LinkKind::External { url } => LinkKind::External { url: url.clone() },
            LinkKind::Ignored => LinkKind::Ignored,
        }
    }
}

/// A link together with the kind of its target.
#[derive(Debug, PartialEq, Eq)]
pub struct ClassifiedLink {
    pub link: Link,
    pub kind: LinkKind,
}

/// What a `ClassifiedLink` stands for.
pub struct ClassifiedLinkView {
    pub link: LinkView,
    pub kind: LinkKindView,
}

impl View for ClassifiedLink {
    type V = ClassifiedLinkView;

    open spec fn view(&self) -> ClassifiedLinkView {
        ClassifiedLinkView { link: self.link@, kind: self.kind@ }
    }
}

impl Clone for ClassifiedLink {
    fn clone(&self) -> (out: Self)
        ensures
            out@ == self@,
    {
        ClassifiedLink { link: self.link.clone(), kind: self.kind.clone() }
    }
}

/// What a vector of classified links stands for.
pub open spec fn classified_views(links: Seq<ClassifiedLink>) -> Seq<ClassifiedLinkView> {
    Seq::new(links.len(), |i: int| links[i]@)
}

} // verus!
