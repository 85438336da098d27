//! Link targets in raw HTML: the `href` of an `a` tag and the `src` of an
//! `img` tag.

use vstd::prelude::*;
use crate::text::{is_letter_of, is_space, letter_of, slice_chars, space, string_of};

verus! {

/// Whether `word`, given in small letters, stands at `at` in `s`, in small or
/// capital letters.
pub open spec fn word_at(s: Seq<char>, at: int, word: Seq<char>) -> bool {
    0 <= at && at + word.len() <= s.len() && forall|k: int|
        0 <= k < word.len() ==> is_letter_of(#[trigger] s[at + k], word[k])
}

/// The first position from `from` on that holds `c`, or the length of `s`
/// where none does.
pub open spec fn next_index(s: Seq<char>, from: int, c: char) -> int
    decreases s.len() - from,
{
    if from < 0 || from >= s.len() {
        s.len() as int
    } else if s[from] == c {
        from
    } else {
        next_index(s, from + 1, c)
    }
}

/// Whether a tag with the given name opens at `at`: a `<`, the name, and
/// white space behind it.
pub open spec fn opens_tag(s: Seq<char>, at: int, name: Seq<char>) -> bool {
    0 <= at < s.len() && s[at] == '<' && word_at(s, at + 1, name) && at + 1 + name.len() < s.len()
        && is_space(s[at + 1 + name.len()])
}

/// Whether a character opens and closes an attribute's value.
pub open spec fn is_quote(c: char) -> bool {
    c == '"' || c == '\''
}

/// The value that the attribute `name` is given at `at`, before `end`: white
/// space stands before the name, `=` and a quote directly behind it, and the
/// value runs up to the next quote of the same kind, which stands before
/// `end`.
pub open spec fn value_at(s: Seq<char>, at: int, end: int, name: Seq<char>) -> Option<Seq<char>> {
    let quote = at + name.len() + 1;
    if 1 <= at && end <= s.len() && quote < end && is_space(s[at - 1]) && word_at(s, at, name)
        && s[quote - 1] == '=' && is_quote(s[quote]) && next_index(s, quote + 1, s[quote]) < end {
        Some(s.subrange(quote + 1, next_index(s, quote + 1, s[quote])))
    } else {
        None
    }
}

/// The first value that the attribute `name` is given from `from` on, before
/// `end`.
pub open spec fn first_value(s: Seq<char>, from: int, end: int, name: Seq<char>) -> Option<
    Seq<char>,
>
    decreases end - from,
{
    if from >= end {
        None
    } else if value_at(s, from, end, name) is Some {
        value_at(s, from, end, name)
    } else {
        first_value(s, from + 1, end, name)
    }
}

/// The name of the anchor tag.
pub open spec fn anchor_tag() -> Seq<char> {
    seq!['a']
}

/// The name of the image tag.
pub open spec fn image_tag() -> Seq<char> {
    seq!['i', 'm', 'g']
}

/// The attribute that holds an anchor's target.
pub open spec fn anchor_attribute() -> Seq<char> {
    seq!['h', 'r', 'e', 'f']
}

/// The attribute that holds an image's source.
pub open spec fn image_attribute() -> Seq<char> {
    seq!['s', 'r', 'c']
}

/// The target of the tag that opens at `at`: the `href` of an `a` tag, the
/// `src` of an `img` tag, looked for up to the tag's `>`. `None` where no
/// such tag opens there, or where it has no such attribute.
pub open spec fn tag_target(s: Seq<char>, at: int) -> Option<Seq<char>> {
    if opens_tag(s, at, anchor_tag()) {
        first_value(s, at + 1, next_index(s, at, '>'), anchor_attribute())
    } else if opens_tag(s, at, image_tag()) {
        first_value(s, at + 1, next_index(s, at, '>'), image_attribute())
    } else {
        None
    }
}

/// How many line breaks a run of characters holds.
pub open spec fn line_breaks(s: Seq<char>) -> nat
    decreases s.len(),
{
    if s.len() == 0 {
        0
    } else if s.last() == '\n' {
        line_breaks(s.drop_last()) + 1
    } else {
        line_breaks(s.drop_last())
    }
}

/// The targets of the tags that open from `from` on, in order, each with the
/// number of line breaks that stand before its tag.
pub open spec fn html_targets(s: Seq<char>, from: int) -> Seq<(nat, Seq<char>)>
    decreases s.len() - from,
{
    if from < 0 || from >= s.len() {
        Seq::empty()
    } else {
        match tag_target(s, from) {
            Some(target) => seq![(line_breaks(s.take(from)), target)] + html_targets(s, from + 1),
            None => html_targets(s, from + 1),
        }
    }
}

/// What a vector of targets with their line breaks stands for.
pub open spec fn target_views(found: Seq<(usize, String)>) -> Seq<(nat, Seq<char>)> {
    Seq::new(found.len(), |i: int| (found[i].0 as nat, found[i].1@))
}

fn word_here(s: &[char], at: usize, word: &[char]) -> (out: bool)
    ensures
        out == word_at(s@, at as int, word@),
{
    if word.len() > s.len() || at > s.len() - word.len() {
        return false;
    }
    let mut k: usize = 0;
    while k < word.len()
        invariant
            k <= word.len(),
            at + word.len() <= s.len(),
            forall|j: int| 0 <= j < k ==> is_letter_of(#[trigger] s@[at + j], word@[j]),
        decreases word.len() - k,
    {
        if !letter_of(s[at + k], word[k]) {
            assert(!is_letter_of(s@[at + k], word@[k as int]));
            return false;
        }
        k += 1;
    }
    true
}

fn find_from(s: &[char], from: usize, c: char) -> (out: usize)
    ensures
        out == next_index(s@, from as int, c),
        out <= s.len(),
        from <= s.len() ==> from <= out,
{
    if from >= s.len() {
        return s.len();
    }
    let mut i: usize = from;
    while i < s.len() && s[i] != c
        invariant
            from <= i <= s.len(),
            next_index(s@, i as int, c) == next_index(s@, from as int, c),
        decreases s.len() - i,
    {
        i += 1;
    }
    i
}

fn opens_tag_here(s: &[char], at: usize, name: &[char]) -> (out: bool)
    requires
        at < s.len(),
    ensures
        out == opens_tag(s@, at as int, name@),
{
    if s[at] != '<' || !word_here(s, at + 1, name) {
        return false;
    }
    let behind = at + 1 + name.len();
    behind < s.len() && space(s[behind])
}

fn value_here(s: &[char], at: usize, end: usize, name: &[char]) -> (out: Option<Vec<char>>)
    requires
        end <= s.len(),
        at < end,
    ensures
        out is Some <==> value_at(s@, at as int, end as int, name@) is Some,
        out is Some ==> out.unwrap()@ == value_at(s@, at as int, end as int, name@).unwrap(),
{
    if at < 1 || !space(s[at - 1]) || !word_here(s, at, name) {
        return None;
    }
    let equals = at + name.len();
    if equals >= end {
        return None;
    }
    let quote = equals + 1;
    if quote >= end || s[quote - 1] != '=' || !(s[quote] == '"' || s[quote] == '\'') {
        return None;
    }
    let close = find_from(s, quote + 1, s[quote]);
    if close >= end {
        return None;
    }
    Some(slice_chars(s, quote + 1, close))
}

fn first_value_in(s: &[char], from: usize, end: usize, name: &[char]) -> (out: Option<Vec<char>>)
    requires
        end <= s.len(),
    ensures
        out is Some <==> first_value(s@, from as int, end as int, name@) is Some,
        out is Some ==> out.unwrap()@ == first_value(s@, from as int, end as int, name@).unwrap(),
{
    let mut i: usize = from;
    while i < end
        invariant
            end <= s.len(),
            first_value(s@, i as int, end as int, name@) == first_value(
                s@,
                from as int,
                end as int,
                name@,
            ),
        decreases end - i,
    {
        let found = value_here(s, i, end, name);
        if found.is_some() {
            return found;
        }
        i += 1;
    }
    None
}

fn tag_target_here(s: &[char], at: usize) -> (out: Option<Vec<char>>)
    requires
        at < s.len(),
    ensures
        out is Some <==> tag_target(s@, at as int) is Some,
        out is Some ==> out.unwrap()@ == tag_target(s@, at as int).unwrap(),
{
    let anchor: [char; 1] = ['a'];
    let image: [char; 3] = ['i', 'm', 'g'];
    let href: [char; 4] = ['h', 'r', 'e', 'f'];
    let src: [char; 3] = ['s', 'r', 'c'];
    assert(anchor@ =~= anchor_tag());
    assert(image@ =~= image_tag());
    assert(href@ =~= anchor_attribute());
    assert(src@ =~= image_attribute());
    if opens_tag_here(s, at, anchor.as_slice()) {
        let end = find_from(s, at, '>');
        first_value_in(s, at + 1, end, href.as_slice())
    } else if opens_tag_here(s, at, image.as_slice()) {
        let end = find_from(s, at, '>');
        first_value_in(s, at + 1, end, src.as_slice())
    } else {
        None
    }
}

/// The targets of the `a` and `img` tags in a piece of raw HTML, in order,
/// each with the number of line breaks that stand before its tag.
pub fn targets_in_html(html: &[char]) -> (found: Vec<(usize, String)>)
    ensures
        target_views(found@) == html_targets(html@, 0),
{
    let mut found: Vec<(usize, String)> = Vec::new();
    let mut breaks: usize = 0;
    let mut at: usize = 0;
    assert(target_views(found@) + html_targets(html@, 0) =~= html_targets(html@, 0));
    assert(html@.take(0) =~= Seq::<char>::empty());
    while at < html.len()
        invariant
            at <= html.len(),
            breaks <= at,
            breaks == line_breaks(html@.take(at as int)),
            target_views(found@) + html_targets(html@, at as int) == html_targets(html@, 0),
        decreases html.len() - at,
    {
        let ghost before = target_views(found@);
        match tag_target_here(html, at) {
            Some(target) => {
                let text = string_of(target.as_slice());
                found.push((breaks, text));
                assert(target_views(found@) =~= before.push((breaks as nat, target@)));
                assert(before.push((breaks as nat, target@)) + html_targets(html@, at + 1)
                    =~= before + html_targets(html@, at as int));
            },
            None => {},
        }
        proof {
            let next = html@.take(at + 1);
            assert(next.drop_last() =~= html@.take(at as int));
            assert(next.last() == html@[at as int]);
        }
        if html[at] == '\n' {
            breaks += 1;
        }
        at += 1;
    }
    assert(target_views(found@) + html_targets(html@, at as int) =~= target_views(found@));
    found
}

} // verus!
