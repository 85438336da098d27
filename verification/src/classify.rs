//! The kind of a link's target, decided from its characters alone.

use vstd::prelude::*;
use crate::link::{ClassifiedLink, Link, LinkKind, LinkKindView};
use crate::text::{
    chars_of, find_char, index_of, is_letter_of, letter_of, slice_chars, string_of,
};

verus! {

/// Whether a character is a letter of the Latin alphabet.
pub open spec fn is_letter(c: char) -> bool {
    ('a' <= c && c <= 'z') || ('A' <= c && c <= 'Z')
}

/// Whether a character may stand in a scheme: letters, digits, `+`, `-`, `.`.
pub open spec fn is_scheme_char(c: char) -> bool {
    is_letter(c) || ('0' <= c && c <= '9') || c == '+' || c == '-' || c == '.'
}

/// Whether a run of characters is a scheme: a letter, then scheme characters.
pub open spec fn is_scheme(s: Seq<char>) -> bool {
    s.len() > 0 && is_letter(s[0]) && forall|i: int| 0 <= i < s.len() ==> is_scheme_char(s[i])
}

/// Whether a target starts with a scheme and a colon.
pub open spec fn has_scheme(target: Seq<char>) -> bool {
    index_of(target, ':') < target.len() && is_scheme(target.take(index_of(target, ':')))
}

/// Whether a scheme is `http` or `https`, in small or capital letters.
pub open spec fn is_web_scheme(s: Seq<char>) -> bool {
    (s.len() == 4 || s.len() == 5) && is_letter_of(s[0], 'h') && is_letter_of(s[1], 't')
        && is_letter_of(s[2], 't') && is_letter_of(s[3], 'p') && (s.len() == 5 ==> is_letter_of(
        s[4],
        's',
    ))
}

/// What stands behind the first `#` of a target, where it has one.
pub open spec fn anchor_part(target: Seq<char>) -> Option<Seq<char>> {
    if index_of(target, '#') < target.len() {
        Some(target.skip(index_of(target, '#') + 1))
    } else {
        None
    }
}

/// What stands before the first `#` of a target.
pub open spec fn path_part(target: Seq<char>) -> Seq<char> {
    target.take(index_of(target, '#'))
}

/// The kind of a target. In this order: a target with a scheme is a web page
/// where the scheme is `http` or `https`, and is ignored with any other; a
/// target that starts with `#` names a heading of its own chapter; any other
/// target is a path, up to its first `#`, and a heading behind it; the path
/// is read from the book's root where it starts with a slash, and from the
/// chapter's directory where it does not.
pub open spec fn kind_of(target: Seq<char>) -> LinkKindView {
    if has_scheme(target) {
        if is_web_scheme(target.take(index_of(target, ':'))) {
            LinkKindView::External { url: target }
        } else {
            LinkKindView::Ignored
        }
    } else if target.len() > 0 && target[0] == '#' {
        LinkKindView::SameDocAnchor { anchor: target.skip(1) }
    } else if target.len() > 0 && target[0] == '/' {
        LinkKindView::Absolute { path: path_part(target), anchor: anchor_part(target) }
    } else {
        LinkKindView::CrossDoc { path: path_part(target), anchor: anchor_part(target) }
    }
}

fn letter(c: char) -> (out: bool)
    ensures
        out == is_letter(c),
{
    ('a' <= c && c <= 'z') || ('A' <= c && c <= 'Z')
}

/// Whether the first `n` characters are a scheme.
fn scheme_before(chars: &[char], n: usize) -> (out: bool)
    requires
        n <= chars.len(),
    ensures
        out == is_scheme(chars@.take(n as int)),
{
    if n == 0 || !letter(chars[0]) {
        return false;
    }
    let mut i: usize = 0;
    while i < n
        invariant
            i <= n <= chars.len(),
            forall|j: int| 0 <= j < i ==> is_scheme_char(chars@.take(n as int)[j]),
        decreases n - i,
    {
        let c = chars[i];
        if !(letter(c) || ('0' <= c && c <= '9') || c == '+' || c == '-' || c == '.') {
            assert(!is_scheme_char(chars@.take(n as int)[i as int]));
            return false;
        }
        i += 1;
    }
    true
}

/// Whether the first `n` characters are `http` or `https`.
fn web_scheme_before(chars: &[char], n: usize) -> (out: bool)
    requires
        n <= chars.len(),
    ensures
        out == is_web_scheme(chars@.take(n as int)),
{
    if n != 4 && n != 5 {
        return false;
    }
    letter_of(chars[0], 'h') && letter_of(chars[1], 't') && letter_of(chars[2], 't') && letter_of(
        chars[3],
        'p',
    ) && (n == 4 || letter_of(chars[4], 's'))
}

/// The kind of a target, decided from its characters alone: nothing is
/// looked up, on disk or on the web.
pub fn classify_target(target: &str) -> (kind: LinkKind)
    ensures
        kind@ == kind_of(target@),
{
    let chars = chars_of(target);
    let colon = find_char(chars.as_slice(), ':');
    if colon < chars.len() && scheme_before(chars.as_slice(), colon) {
        if web_scheme_before(chars.as_slice(), colon) {
            return LinkKind::External { url: string_of(chars.as_slice()) };
        }
        return LinkKind::Ignored;
    }
    if chars.len() > 0 && chars[0] == '#' {
        let anchor = slice_chars(chars.as_slice(), 1, chars.len());
        return LinkKind::SameDocAnchor { anchor: string_of(anchor.as_slice()) };
    }
    let hash = find_char(chars.as_slice(), '#');
    let path = string_of(slice_chars(chars.as_slice(), 0, hash).as_slice());
    let anchor = if hash < chars.len() {
        Some(string_of(slice_chars(chars.as_slice(), hash + 1, chars.len()).as_slice()))
    } else {
        None
    };
    if chars.len() > 0 && chars[0] == '/' {
        LinkKind::Absolute { path, anchor }
    } else {
        LinkKind::CrossDoc { path, anchor }
    }
}

/// A link with the kind of its target.
pub fn classify(link: Link) -> (out: ClassifiedLink)
    ensures
        out@.link == link@,
        out@.kind == kind_of(link@.target),
{
    let kind = classify_target(link.target.as_str());
    ClassifiedLink { link, kind }
}

} // verus!
