//! The links of a chapter, with the line on which each stands.

use vstd::prelude::*;
use vstd::string::StringExecFns;
use vstd::string::StringSliceAdditionalSpecFns;
use crate::html::{html_targets, target_views, targets_in_html};
use crate::link::{text_view, Link, LinkView};
use crate::markdown::{markdown_events, markup_of, markup_views, Markup, MarkupView};
use crate::text::chars_of;

verus! {

/// How many line breaks a run of bytes holds.
pub open spec fn newlines(bytes: Seq<u8>) -> nat
    decreases bytes.len(),
{
    if bytes.len() == 0 {
        0
    } else if bytes.last() == 10 {
        newlines(bytes.drop_last()) + 1
    } else {
        newlines(bytes.drop_last())
    }
}

/// The first `at` bytes, or all of them where there are fewer.
pub open spec fn before(bytes: Seq<u8>, at: usize) -> Seq<u8> {
    if at <= bytes.len() {
        bytes.take(at as int)
    } else {
        bytes
    }
}

/// A number, or the largest `usize` where it is larger than that.
pub open spec fn capped(n: nat) -> usize {
    if n > usize::MAX {
        usize::MAX
    } else {
        n as usize
    }
}

/// The line, counted from one, of what stands `extra` line breaks behind
/// byte `at`: one more than the line breaks before it.
pub open spec fn line_at(bytes: Seq<u8>, at: usize, extra: nat) -> usize {
    capped(1 + newlines(before(bytes, at)) + extra)
}

/// The text items that stand in a row from `from` on, joined.
pub open spec fn text_run(events: Seq<MarkupView>, from: int) -> Seq<char>
    decreases events.len() - from,
{
    if 0 <= from < events.len() {
        match events[from] {
            MarkupView::Text { text } => text + text_run(events, from + 1),
            _ => Seq::empty(),
        }
    } else {
        Seq::empty()
    }
}

/// The text of the link that opens at item `at`: the text items that
/// directly follow it; none where the link opens with anything else.
pub open spec fn link_text(events: Seq<MarkupView>, at: int) -> Option<Seq<char>> {
    if text_run(events, at + 1).len() == 0 {
        None
    } else {
        Some(text_run(events, at + 1))
    }
}

/// The raw HTML items that stand in a row from `from` on, joined.
pub open spec fn html_run(events: Seq<MarkupView>, from: int) -> Seq<char>
    decreases events.len() - from,
{
    if 0 <= from < events.len() {
        match events[from] {
            MarkupView::Html { text, at } => text + html_run(events, from + 1),
            _ => Seq::empty(),
        }
    } else {
        Seq::empty()
    }
}

/// Whether item `i` goes on with the raw HTML of the item before it.
pub open spec fn continues_html(events: Seq<MarkupView>, i: int) -> bool {
    0 < i <= events.len() && events[i - 1] is Html
}

/// The links that the targets found in a piece of raw HTML give, where the
/// HTML starts at byte `at` of the chapter.
pub open spec fn html_links(
    chapter: Seq<char>,
    bytes: Seq<u8>,
    at: usize,
    found: Seq<(nat, Seq<char>)>,
) -> Seq<LinkView> {
    Seq::new(
        found.len(),
        |k: int|
            LinkView {
                chapter,
                line: line_at(bytes, at, found[k].0) as nat,
                target: found[k].1,
                text: None,
            },
    )
}

/// The links that item `i` of a chapter's markup gives: one for a link or an
/// image; for raw HTML that does not go on with the item before it, one for
/// each target in it and in the raw HTML that directly follows, read as one
/// piece, so that a tag may run over several items; none for anything else.
pub open spec fn links_at(
    chapter: Seq<char>,
    bytes: Seq<u8>,
    events: Seq<MarkupView>,
    i: int,
) -> Seq<LinkView> {
    match events[i] {
        MarkupView::Link { target, at } => seq![
            LinkView {
                chapter,
                line: line_at(bytes, at, 0) as nat,
                target,
                text: link_text(events, i),
            },
        ],
        MarkupView::Image { target, at } => seq![
            LinkView {
                chapter,
                line: line_at(bytes, at, 0) as nat,
                target,
                text: link_text(events, i),
            },
        ],
        MarkupView::Html { text, at } => if continues_html(events, i) {
            Seq::empty()
        } else {
            html_links(chapter, bytes, at, html_targets(html_run(events, i), 0))
        },
        _ => Seq::empty(),
    }
}

/// The links that the first `n` items of a chapter's markup give, in order.
pub open spec fn links_before(
    chapter: Seq<char>,
    bytes: Seq<u8>,
    events: Seq<MarkupView>,
    n: int,
) -> Seq<LinkView>
    decreases n,
{
    if n <= 0 {
        Seq::empty()
    } else {
        links_before(chapter, bytes, events, n - 1) + links_at(chapter, bytes, events, n - 1)
    }
}

/// The links of a chapter, in the order of its markup: `chapter` is the
/// chapter's path, `bytes` its content and `events` the content's markup.
pub open spec fn links_in(chapter: Seq<char>, bytes: Seq<u8>, events: Seq<MarkupView>) -> Seq<
    LinkView,
> {
    links_before(chapter, bytes, events, events.len() as int)
}

/// What a vector of links stands for.
pub open spec fn link_views(links: Seq<Link>) -> Seq<LinkView> {
    Seq::new(links.len(), |i: int| links[i]@)
}

/// A place in a chapter's bytes together with the number of line breaks
/// before it, kept while the chapter is read from front to back.
pub struct LineCount {
    at: usize,
    breaks: usize,
}

impl LineCount {
    /// Whether the count is right for the given bytes.
    pub closed spec fn fits(&self, bytes: Seq<u8>) -> bool {
        self.at <= bytes.len() && self.breaks <= self.at && self.breaks == newlines(
            bytes.take(self.at as int),
        )
    }

    /// The count at the start of a chapter.
    pub fn new() -> (out: Self)
        ensures
            forall|bytes: Seq<u8>| out.fits(bytes),
    {
        let out = LineCount { at: 0, breaks: 0 };
        assert forall|bytes: Seq<u8>| out.fits(bytes) by {
            assert(bytes.take(0) =~= Seq::<u8>::empty());
        }
        out
    }

    /// The line of what stands `extra` line breaks behind byte `at`. The
    /// count moves on to `at`, and starts over where `at` lies before it.
    pub fn line(&mut self, bytes: &[u8], at: usize, extra: usize) -> (line: usize)
        requires
            old(self).fits(bytes@),
        ensures
            final(self).fits(bytes@),
            line == line_at(bytes@, at, extra as nat),
    {
        let end = if at <= bytes.len() {
            at
        } else {
            bytes.len()
        };
        if end < self.at {
            self.at = 0;
            self.breaks = 0;
            assert(bytes@.take(0) =~= Seq::<u8>::empty());
        }
        while self.at < end
            invariant
                self.at <= end <= bytes.len(),
                self.breaks <= self.at,
                self.breaks == newlines(bytes@.take(self.at as int)),
            decreases end - self.at,
        {
            proof {
                let next = bytes@.take(self.at + 1);
                assert(next.drop_last() =~= bytes@.take(self.at as int));
                assert(next.last() == bytes@[self.at as int]);
            }
            if bytes[self.at] == 10 {
                self.breaks += 1;
            }
            self.at += 1;
        }
        assert(bytes@.take(bytes.len() as int) =~= bytes@);
        let sum: u128 = self.breaks as u128 + extra as u128 + 1;
        if sum > usize::MAX as u128 {
            usize::MAX
        } else {
            sum as usize
        }
    }
}

/// The text of the link that opens at item `at`.
fn text_after(events: &Vec<Markup>, at: usize) -> (out: Option<String>)
    requires
        at < events.len(),
    ensures
        text_view(out) == link_text(markup_views(events@), at as int),
{
    let mut run = String::new();
    let mut i: usize = at + 1;
    let ghost all = markup_views(events@);
    loop
        invariant
            at < i <= events.len(),
            all == markup_views(events@),
            run@ + text_run(all, i as int) == text_run(all, at + 1),
        ensures
            run@ == text_run(all, at + 1),
        decreases events.len() - i,
    {
        if i >= events.len() {
            assert(run@ + Seq::<char>::empty() =~= run@);
            break ;
        }
        assert(all[i as int] == events@[i as int]@);
        match &events[i] {
            Markup::Text { text } => {
                let ghost old_run = run@;
                run.append(text.as_str());
                assert((old_run + text@) + text_run(all, i + 1) =~= old_run + (text@ + text_run(
                    all,
                    i + 1,
                )));
            },
            _ => {
                assert(run@ + Seq::<char>::empty() =~= run@);
                break ;
            },
        }
        i += 1;
    }
    if run.as_str().unicode_len() == 0 {
        None
    } else {
        Some(run)
    }
}

/// The raw HTML items that stand in a row from `from` on, joined.
fn html_from(events: &Vec<Markup>, from: usize) -> (out: String)
    requires
        from < events.len(),
    ensures
        out@ == html_run(markup_views(events@), from as int),
{
    let mut run = String::new();
    let mut i: usize = from;
    let ghost all = markup_views(events@);
    loop
        invariant
            from <= i <= events.len(),
            all == markup_views(events@),
            run@ + html_run(all, i as int) == html_run(all, from as int),
        ensures
            run@ == html_run(all, from as int),
        decreases events.len() - i,
    {
        if i >= events.len() {
            assert(run@ + Seq::<char>::empty() =~= run@);
            break ;
        }
        assert(all[i as int] == events@[i as int]@);
        match &events[i] {
            Markup::Html { text, .. } => {
                let ghost old_run = run@;
                run.append(text.as_str());
                assert((old_run + text@) + html_run(all, i + 1) =~= old_run + (text@ + html_run(
                    all,
                    i + 1,
                )));
            },
            _ => {
                assert(run@ + Seq::<char>::empty() =~= run@);
                break ;
            },
        }
        i += 1;
    }
    run
}

/// Whether item `i` goes on with the raw HTML of the item before it.
fn goes_on(events: &Vec<Markup>, i: usize) -> (out: bool)
    requires
        i < events.len(),
    ensures
        out == continues_html(markup_views(events@), i as int),
{
    if i == 0 {
        return false;
    }
    assert(markup_views(events@)[i - 1] == events@[i - 1]@);
    match &events[i - 1] {
        Markup::Html { .. } => true,
        _ => false,
    }
}

/// The links of a chapter, in the order of its markup: `chapter` is the
/// chapter's path, `content` its bytes and `events` the markup of the
/// content. Each link has the line on which it starts, counted from one.
pub fn links_from_markup(chapter: &str, content: &[u8], events: &Vec<Markup>) -> (links: Vec<Link>)
    ensures
        link_views(links@) == links_in(chapter@, content@, markup_views(events@)),
{
    let mut links: Vec<Link> = Vec::new();
    let mut count = LineCount::new();
    let mut i: usize = 0;
    let ghost all = markup_views(events@);
    assert(link_views(links@) =~= links_before(chapter@, content@, all, 0));
    while i < events.len()
        invariant
            i <= events.len(),
            all == markup_views(events@),
            count.fits(content@),
            link_views(links@) == links_before(chapter@, content@, all, i as int),
        decreases events.len() - i,
    {
        let ghost done = link_views(links@);
        assert(all[i as int] == events@[i as int]@);
        match &events[i] {
            Markup::Link { target, at } => {
                let line = count.line(content, *at, 0);
                let text = text_after(events, i);
                links.push(Link { chapter: chapter.to_owned(), line, target: target.clone(), text });
                assert(link_views(links@) =~= done + links_at(chapter@, content@, all, i as int));
            },
            Markup::Image { target, at } => {
                let line = count.line(content, *at, 0);
                let text = text_after(events, i);
                links.push(Link { chapter: chapter.to_owned(), line, target: target.clone(), text });
                assert(link_views(links@) =~= done + links_at(chapter@, content@, all, i as int));
            },
            Markup::Html { at, .. } => {
                if goes_on(events, i) {
                    assert(done + Seq::<LinkView>::empty() =~= done);
                    i += 1;
                    continue ;
                }
                let joined = html_from(events, i);
                let chars = chars_of(joined.as_str());
                let found = targets_in_html(chars.as_slice());
                let ghost wanted = html_links(chapter@, content@, *at, target_views(found@));
                let mut k: usize = 0;
                while k < found.len()
                    invariant
                        k <= found.len(),
                        count.fits(content@),
                        wanted == html_links(chapter@, content@, *at, target_views(found@)),
                        link_views(links@) == done + wanted.take(k as int),
                    decreases found.len() - k,
                {
                    let ghost so_far = link_views(links@);
                    let line = count.line(content, *at, found[k].0);
                    links.push(
                        Link {
                            chapter: chapter.to_owned(),
                            line,
                            target: found[k].1.clone(),
                            text: None,
                        },
                    );
                    assert(target_views(found@)[k as int] == (found@[k as int].0 as nat, found@[k as int].1@));
                    assert(link_views(links@) =~= so_far.push(wanted[k as int]));
                    assert(wanted.take(k + 1) =~= wanted.take(k as int).push(wanted[k as int]));
                    k += 1;
                }
                assert(wanted.take(found.len() as int) =~= wanted);
            },
            _ => {
                assert(done + Seq::<LinkView>::empty() =~= done);
            },
        }
        i += 1;
    }
    links
}

/// The links of a chapter, in the order in which they stand in it: the links
/// and images of its markdown, and the `a` and `img` tags of its raw HTML.
/// What is no well-formed link gives none.
pub fn extract_links(chapter: &str, content: &str) -> (links: Vec<Link>)
    ensures
        link_views(links@) == links_in(chapter@, content.spec_bytes(), markdown_events(content@)),
{
    let events = markup_of(content);
    links_from_markup(chapter, content.as_bytes(), &events)
}

} // verus!
