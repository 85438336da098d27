//! Anchors of headings: the slug of a heading's text, and the numbering that
//! keeps the anchors of one chapter apart.

use vstd::prelude::*;
use vstd::relations::injective_on;
use vstd::set_lib::{lemma_int_range, lemma_len_subset, lemma_map_size, set_int_range};
use crate::text::{
    chars_of, copy_chars, decimal, decimal_chars, holds_chars, is_space, lemma_decimal_injective,
    slice_chars, space, string_of, views,
};

verus! {

/// A character as the slug rules read it: capital letters become small ones,
/// every white space becomes a blank.
pub open spec fn fold_char(c: char) -> char {
    if 'A' <= c && c <= 'Z' {
        ((c as u8 + 32) as u8) as char
    } else if is_space(c) {
        ' '
    } else {
        c
    }
}

/// Whether a folded character stays in a slug: small letters, digits, the
/// hyphen and the blank.
pub open spec fn is_slug_char(c: char) -> bool {
    ('a' <= c && c <= 'z') || ('0' <= c && c <= '9') || c == '-' || c == ' '
}

/// The folded characters of a text that stay in a slug, in order.
pub open spec fn kept(text: Seq<char>) -> Seq<char>
    decreases text.len(),
{
    if text.len() == 0 {
        Seq::empty()
    } else if is_slug_char(fold_char(text.last())) {
        kept(text.drop_last()).push(fold_char(text.last()))
    } else {
        kept(text.drop_last())
    }
}

/// Every run of blanks replaced by one hyphen.
pub open spec fn hyphenated(s: Seq<char>) -> Seq<char>
    decreases s.len(),
{
    if s.len() == 0 {
        Seq::empty()
    } else if s.last() != ' ' {
        hyphenated(s.drop_last()).push(s.last())
    } else if s.len() >= 2 && s[s.len() - 2] == ' ' {
        hyphenated(s.drop_last())
    } else {
        hyphenated(s.drop_last()).push('-')
    }
}

/// How many hyphens a sequence starts with.
pub open spec fn leading_hyphens(s: Seq<char>) -> nat
    decreases s.len(),
{
    if s.len() > 0 && s[0] == '-' {
        1 + leading_hyphens(s.drop_first())
    } else {
        0
    }
}

/// How many hyphens a sequence ends with.
pub open spec fn trailing_hyphens(s: Seq<char>) -> nat
    decreases s.len(),
{
    if s.len() > 0 && s.last() == '-' {
        1 + trailing_hyphens(s.drop_last())
    } else {
        0
    }
}

/// A sequence without the hyphens at its two ends.
pub open spec fn trimmed(s: Seq<char>) -> Seq<char> {
    if leading_hyphens(s) >= s.len() {
        Seq::empty()
    } else {
        s.subrange(leading_hyphens(s) as int, s.len() - trailing_hyphens(s))
    }
}

/// The slug of a heading's text.
pub open spec fn slug_of(text: Seq<char>) -> Seq<char> {
    trimmed(hyphenated(kept(text)))
}

proof fn lemma_leading(s: Seq<char>, i: int)
    requires
        0 <= i <= s.len(),
        forall|j: int| 0 <= j < i ==> s[j] == '-',
        i < s.len() ==> s[i] != '-',
    ensures
        leading_hyphens(s) == i,
    decreases i,
{
    if i > 0 {
        let rest = s.drop_first();
        assert forall|j: int| 0 <= j < i - 1 implies rest[j] == '-' by {
            assert(rest[j] == s[j + 1]);
        }
        lemma_leading(rest, i - 1);
    }
}

proof fn lemma_trailing(s: Seq<char>, n: int)
    requires
        0 <= n <= s.len(),
        forall|j: int| s.len() - n <= j < s.len() ==> s[j] == '-',
        n < s.len() ==> s[s.len() - n - 1] != '-',
    ensures
        trailing_hyphens(s) == n,
    decreases n,
{
    if n > 0 {
        let rest = s.drop_last();
        assert forall|j: int| rest.len() - (n - 1) <= j < rest.len() implies rest[j] == '-' by {
            assert(rest[j] == s[j]);
        }
        lemma_trailing(rest, n - 1);
    }
}

/// A character as the slug rules read it.
pub fn fold(c: char) -> (out: char)
    ensures
        out == fold_char(c),
{
    if 'A' <= c && c <= 'Z' {
        ((c as u8) + 32u8) as char
    } else if space(c) {
        ' '
    } else {
        c
    }
}

/// Whether a folded character stays in a slug.
pub fn stays(c: char) -> (out: bool)
    ensures
        out == is_slug_char(c),
{
    ('a' <= c && c <= 'z') || ('0' <= c && c <= '9') || c == '-' || c == ' '
}

fn keep_chars(text: &[char]) -> (out: Vec<char>)
    ensures
        out@ == kept(text@),
{
    let mut out: Vec<char> = Vec::new();
    let mut i: usize = 0;
    while i < text.len()
        invariant
            i <= text.len(),
            out@ == kept(text@.take(i as int)),
        decreases text.len() - i,
    {
        let c = fold(text[i]);
        proof {
            let next = text@.take(i + 1);
            assert(next.drop_last() =~= text@.take(i as int));
            assert(next.last() == text@[i as int]);
        }
        if stays(c) {
            out.push(c);
        }
        i += 1;
    }
    assert(text@.take(text.len() as int) =~= text@);
    out
}

fn hyphenate(s: &[char]) -> (out: Vec<char>)
    ensures
        out@ == hyphenated(s@),
{
    let mut out: Vec<char> = Vec::new();
    let mut i: usize = 0;
    while i < s.len()
        invariant
            i <= s.len(),
            out@ == hyphenated(s@.take(i as int)),
        decreases s.len() - i,
    {
        proof {
            let next = s@.take(i + 1);
            assert(next.drop_last() =~= s@.take(i as int));
            assert(next.last() == s@[i as int]);
            if i >= 1 {
                assert(next[next.len() - 2] == s@[i - 1]);
            }
        }
        if s[i] != ' ' {
            out.push(s[i]);
        } else if i >= 1 && s[i - 1] == ' ' {
        } else {
            out.push('-');
        }
        i += 1;
    }
    assert(s@.take(s.len() as int) =~= s@);
    out
}

fn trim(s: &[char]) -> (out: Vec<char>)
    ensures
        out@ == trimmed(s@),
{
    let mut from: usize = 0;
    while from < s.len() && s[from] == '-'
        invariant
            from <= s.len(),
            forall|j: int| 0 <= j < from ==> s@[j] == '-',
        decreases s.len() - from,
    {
        from += 1;
    }
    proof {
        lemma_leading(s@, from as int);
    }
    if from == s.len() {
        return Vec::new();
    }
    let mut to: usize = s.len();
    while to > from + 1 && s[to - 1] == '-'
        invariant
            from < to <= s.len(),
            s@[from as int] != '-',
            forall|j: int| to <= j < s.len() ==> s@[j] == '-',
        decreases to,
    {
        to -= 1;
    }
    proof {
        lemma_trailing(s@, s.len() - to);
    }
    slice_chars(s, from, to)
}

/// The slug of a heading's text, as characters.
pub fn slug_chars(text: &[char]) -> (out: Vec<char>)
    ensures
        out@ == slug_of(text@),
{
    let kept_chars = keep_chars(text);
    let joined = hyphenate(kept_chars.as_slice());
    trim(joined.as_slice())
}

/// The slug of a heading's text: small letters, digits and hyphens of the
/// text, each run of white space turned into one hyphen, no hyphen at either
/// end.
pub fn slugify(text: &str) -> (out: String)
    ensures
        out@ == slug_of(text@),
{
    let chars = chars_of(text);
    let slug = slug_chars(chars.as_slice());
    string_of(slug.as_slice())
}

/// A slug with a number behind it: the slug, a hyphen, the number in decimal.
pub open spec fn numbered(slug: Seq<char>, k: nat) -> Seq<char> {
    slug.push('-') + decimal(k)
}

/// The first number from `k` on whose numbered slug is not among `seen`.
pub open spec fn first_free(seen: Seq<Seq<char>>, slug: Seq<char>, k: nat) -> nat
    decreases seen.len() + 1 - k,
{
    if k <= seen.len() && seen.contains(numbered(slug, k)) {
        first_free(seen, slug, k + 1)
    } else {
        k
    }
}

/// The anchor that a heading with the given slug gets after the anchors
/// `seen`: the slug itself where it is new, else the slug with the first
/// number, counted from one, that is new.
pub open spec fn anchor_for(seen: Seq<Seq<char>>, slug: Seq<char>) -> Seq<char> {
    if seen.contains(slug) {
        numbered(slug, first_free(seen, slug, 1))
    } else {
        slug
    }
}

/// The anchors of a chapter's headings, given the headings' texts in document
/// order.
pub open spec fn anchors_of(headings: Seq<Seq<char>>) -> Seq<Seq<char>>
    decreases headings.len(),
{
    if headings.len() == 0 {
        Seq::empty()
    } else {
        let seen = anchors_of(headings.drop_last());
        seen.push(anchor_for(seen, slug_of(headings.last())))
    }
}

/// Two numbers give one slug two different numbered forms.
pub proof fn lemma_numbered_injective(slug: Seq<char>, a: nat, b: nat)
    requires
        numbered(slug, a) == numbered(slug, b),
    ensures
        a == b,
{
    let head = slug.push('-');
    assert(numbered(slug, a).skip(head.len() as int) =~= decimal(a));
    assert(numbered(slug, b).skip(head.len() as int) =~= decimal(b));
    lemma_decimal_injective(a, b);
}

/// Where the numbered forms from one up to `k - 1` are all among `seen`, and
/// `k` is more than `seen` has members, the form with `k` is not among them.
proof fn lemma_full_house(seen: Seq<Seq<char>>, slug: Seq<char>, k: nat)
    requires
        k > seen.len(),
        forall|j: nat| 1 <= j < k ==> seen.contains(#[trigger] numbered(slug, j)),
    ensures
        !seen.contains(numbered(slug, k)),
{
    if seen.contains(numbered(slug, k)) {
        let f = |j: int| numbered(slug, j as nat);
        let dom = set_int_range(1, k as int + 1);
        let img = dom.map(f);
        lemma_int_range(1, k as int + 1);
        assert(injective_on(f, dom)) by {
            assert forall|x1: int, x2: int|
                dom.contains(x1) && dom.contains(x2) && #[trigger] f(x1) == #[trigger] f(x2)
            implies x1 == x2 by {
                lemma_numbered_injective(slug, x1 as nat, x2 as nat);
            }
        }
        lemma_map_size(dom, img, f);
        assert(img.subset_of(seen.to_set())) by {
            assert forall|t: Seq<char>| img.contains(t) implies seen.to_set().contains(t) by {
                let j = choose|j: int| dom.contains(j) && t == f(j);
                assert(seen.contains(numbered(slug, j as nat)));
            }
        }
        vstd::seq_lib::seq_to_set_is_finite(seen);
        lemma_len_subset(img, seen.to_set());
        seen.lemma_cardinality_of_set();
        assert(false);
    }
}

/// The number that `first_free` finds is not below its start and gives a
/// numbered form that is not among `seen`.
pub proof fn lemma_first_free(seen: Seq<Seq<char>>, slug: Seq<char>, k: nat)
    requires
        1 <= k,
        forall|j: nat| 1 <= j < k ==> seen.contains(#[trigger] numbered(slug, j)),
    ensures
        k <= first_free(seen, slug, k),
        !seen.contains(numbered(slug, first_free(seen, slug, k))),
    decreases seen.len() + 1 - k,
{
    if k <= seen.len() && seen.contains(numbered(slug, k)) {
        lemma_first_free(seen, slug, k + 1);
    } else if k > seen.len() {
        lemma_full_house(seen, slug, k);
    }
}

/// The anchor of a new heading is never one of the anchors before it.
pub proof fn lemma_anchor_is_new(seen: Seq<Seq<char>>, slug: Seq<char>)
    ensures
        !seen.contains(anchor_for(seen, slug)),
{
    if seen.contains(slug) {
        lemma_first_free(seen, slug, 1);
    }
}

/// Every heading of a chapter gets an anchor of its own: there are as many
/// anchors as headings, and no two of them are the same.
pub proof fn lemma_anchors_unique(headings: Seq<Seq<char>>)
    ensures
        anchors_of(headings).len() == headings.len(),
        anchors_of(headings).no_duplicates(),
    decreases headings.len(),
{
    if headings.len() > 0 {
        let seen = anchors_of(headings.drop_last());
        lemma_anchors_unique(headings.drop_last());
        lemma_anchor_is_new(seen, slug_of(headings.last()));
        let all = anchors_of(headings);
        assert forall|i: int, j: int| 0 <= i < all.len() && 0 <= j < all.len() && i != j implies all[i]
            != all[j] by {
            if i < seen.len() && j < seen.len() {
                assert(all[i] == seen[i] && all[j] == seen[j]);
            } else if i < seen.len() {
                assert(seen.contains(seen[i]));
            } else {
                assert(seen.contains(seen[j]));
            }
        }
    }
}

/// The numbered form of a slug.
fn numbered_chars(slug: &[char], k: u128) -> (out: Vec<char>)
    ensures
        out@ == numbered(slug@, k as nat),
{
    let mut out = copy_chars(slug);
    out.push('-');
    let mut digits = decimal_chars(k);
    out.append(&mut digits);
    out
}

/// The anchor that a heading with the given slug gets after the anchors
/// `seen`.
pub fn next_anchor(seen: &Vec<Vec<char>>, slug: &[char]) -> (out: Vec<char>)
    ensures
        out@ == anchor_for(views(seen@), slug@),
        !views(seen@).contains(out@),
{
    proof {
        lemma_anchor_is_new(views(seen@), slug@);
    }
    if !holds_chars(seen, slug) {
        return copy_chars(slug);
    }
    let mut k: u128 = 1;
    let mut candidate = numbered_chars(slug, k);
    while k <= seen.len() as u128 && holds_chars(seen, candidate.as_slice())
        invariant
            1 <= k <= seen.len() + 1,
            candidate@ == numbered(slug@, k as nat),
            first_free(views(seen@), slug@, k as nat) == first_free(views(seen@), slug@, 1),
        decreases seen.len() + 1 - k,
    {
        k += 1;
        candidate = numbered_chars(slug, k);
    }
    candidate
}

/// The anchors of a chapter's headings, given the headings' texts in document
/// order. No two of them are the same.
pub fn anchors(headings: &Vec<Vec<char>>) -> (out: Vec<Vec<char>>)
    ensures
        views(out@) == anchors_of(views(headings@)),
        views(out@).no_duplicates(),
        out.len() == headings.len(),
{
    let mut out: Vec<Vec<char>> = Vec::new();
    let mut i: usize = 0;
    assert(views(out@) =~= anchors_of(views(headings@).take(0)));
    while i < headings.len()
        invariant
            i <= headings.len(),
            views(out@) == anchors_of(views(headings@).take(i as int)),
        decreases headings.len() - i,
    {
        let slug = slug_chars(headings[i].as_slice());
        let anchor = next_anchor(&out, slug.as_slice());
        proof {
            let next = views(headings@).take(i + 1);
            assert(next.drop_last() =~= views(headings@).take(i as int));
            assert(next.last() == headings@[i as int]@);
        }
        let ghost before = views(out@);
        out.push(anchor);
        assert(views(out@) =~= before.push(anchor@));
        i += 1;
    }
    proof {
        assert(views(headings@).take(headings.len() as int) =~= views(headings@));
        lemma_anchors_unique(views(headings@));
    }
    out
}

} // verus!
