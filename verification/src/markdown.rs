//! The markup of a chapter, as the `pulldown_cmark` parser reads it: links,
//! images, headings, text and raw HTML, each as a plain value.

use vstd::prelude::*;
use pulldown_cmark::{DefaultBrokenLinkCallback, Event, OffsetIter, Parser, Tag, TagEnd};

verus! {

/// One piece of a chapter's markup, with what the link checks read of it.
#[derive(Debug, PartialEq, Eq)]
pub enum Markup {
    /// A link opens. `target` is where it points, `at` the byte of the
    /// chapter at which the link starts.
    Link { target: String, at: usize },
    /// An image opens. `target` is its source, `at` the byte of the chapter
    /// at which the image starts.
    Image { target: String, at: usize },
    /// A heading opens.
    HeadingStart,
    /// A heading closes.
    HeadingEnd,
    /// Text, or inline code.
    Text { text: String },
    /// Raw HTML, in a block or inline, that starts at byte `at` of the chapter.
    Html { text: String, at: usize },
    /// Anything else.
    Other,
}

/// What a `Markup` stands for.
pub enum MarkupView {
    Link { target: Seq<char>, at: usize },
    Image { target: Seq<char>, at: usize },
    HeadingStart,
    HeadingEnd,
    Text { text: Seq<char> },
    Html { text: Seq<char>, at: usize },
    Other,
}

impl View for Markup {
    type V = MarkupView;

    open spec fn view(&self) -> MarkupView {
        match *self {
            Markup::Link { target, at } => MarkupView::Link { target: target@, at },
            Markup::Image { target, at } => MarkupView::Image { target: target@, at },
            Markup::HeadingStart => MarkupView::HeadingStart,
            Markup::HeadingEnd => MarkupView::HeadingEnd,
            Markup::Text { text } => MarkupView::Text { text: text@ },
            Markup::Html { text, at } => MarkupView::Html { text: text@, at },
            Markup::Other => MarkupView::Other,
        }
    }
}

/// What a vector of markup stands for.
pub open spec fn markup_views(items: Seq<Markup>) -> Seq<MarkupView> {
    Seq::new(items.len(), |i: int| items[i]@)
}

/// The iterator of `pulldown_cmark` that yields a text's events together with
/// their places in the text. Nothing inside it is visible here.
#[verifier::external_type_specification]
#[verifier::external_body]
#[verifier::reject_recursive_types(F)]
pub struct ExOffsetIter<'a, F>(OffsetIter<'a, F>);

/// The callback of `pulldown_cmark` that resolves no broken reference; it is
/// the one a parser has unless it is given another.
#[verifier::external_type_specification]
#[verifier::external_body]
pub struct ExDefaultBrokenLinkCallback(DefaultBrokenLinkCallback);

/// The markup that `pulldown_cmark`, with no extension switched on, reads in
/// a text: its events in order, each as a plain value.
pub uninterp spec fn markdown_events(text: Seq<char>) -> Seq<MarkupView>;

/// The markup that an iterator over a text's events has yet to yield.
pub uninterp spec fn events_left(events: OffsetIter<DefaultBrokenLinkCallback>) -> Seq<MarkupView>;

/// `Parser::new` followed by `Parser::into_offset_iter`: an iterator over the
/// events of `text`, parsed without extensions, that has yet to yield all of
/// the text's markup.
#[verifier::external_body]
fn open_markdown<'a>(text: &'a str) -> (events: OffsetIter<'a, DefaultBrokenLinkCallback>)
    ensures
        events_left(events) == markdown_events(text@),
{
    Parser::new(text).into_offset_iter()
}

/// `OffsetIter::next`: the next event, with the byte at which its source
/// starts. It is the first piece of markup that was left, and the rest is
/// left afterwards; `None` comes exactly when nothing was left. The start of
/// a link or an image gives its destination, text and inline code give their
/// characters, raw HTML gives its characters, the two ends of a heading give
/// themselves, and every other event gives `Other`.
#[verifier::external_body]
fn next_markup<'a>(events: &mut OffsetIter<'a, DefaultBrokenLinkCallback>) -> (next: Option<Markup>)
    ensures
        next is None <==> events_left(*old(events)).len() == 0,
        next is None ==> events_left(*final(events)).len() == 0,
        next is Some ==> next.unwrap()@ == events_left(*old(events))[0],
        next is Some ==> events_left(*final(events)) == events_left(*old(events)).skip(1),
{
    let (event, span) = events.next()?;
    Some(match event {
        Event::Start(Tag::Link { dest_url, .. }) => Markup::Link { target: dest_url.into_string(), at: span.start },
        Event::Start(Tag::Image { dest_url, .. }) => Markup::Image { target: dest_url.into_string(), at: span.start },
        Event::Start(Tag::Heading { .. }) => Markup::HeadingStart,
        Event::End(TagEnd::Heading(_)) => Markup::HeadingEnd,
        Event::Text(text) | Event::Code(text) => Markup::Text { text: text.into_string() },
        Event::Html(text) | Event::InlineHtml(text) => Markup::Html { text: text.into_string(), at: span.start },
        _ => Markup::Other,
    })
}

/// The markup of a text, in the order of the text.
pub fn markup_of(text: &str) -> (items: Vec<Markup>)
    ensures
        markup_views(items@) == markdown_events(text@),
{
    let mut events = open_markdown(text);
    let mut items: Vec<Markup> = Vec::new();
    loop
        invariant
            markup_views(items@) + events_left(events) == markdown_events(text@),
        ensures
            markup_views(items@) == markdown_events(text@),
        decreases events_left(events).len(),
    {
        let ghost left = events_left(events);
        let ghost before = markup_views(items@);
        match next_markup(&mut events) {
            None => {
                assert(before + left =~= before);
                break ;
            },
            Some(item) => {
                items.push(item);
                assert(markup_views(items@) =~= before.push(left[0]));
                assert(before.push(left[0]) + left.skip(1) =~= before + left);
            },
        }
    }
    items
}

} // verus!
