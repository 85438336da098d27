use mdbook_linkcheck::extract::{extract_links, links_from_markup, LineCount};
use mdbook_linkcheck::html::targets_in_html;
use mdbook_linkcheck::link::Link;
use mdbook_linkcheck::markdown::{markup_of, Markup};

fn text(s: &str) -> String {
    s.to_string()
}

fn targets(links: &[Link]) -> Vec<(usize, String)> {
    links.iter().map(|l| (l.line, l.target.clone())).collect()
}

fn html_targets(html: &str) -> Vec<(usize, String)> {
    let chars: Vec<char> = html.chars().collect();
    targets_in_html(&chars)
}

#[test]
fn markup_of_inline_link() {
    let items = markup_of("line one\n[see](intro.md#getting-started)\n");
    let links: Vec<&Markup> = items.iter().filter(|m| matches!(m, Markup::Link { .. })).collect();
    assert_eq!(links.len(), 1);
    assert_eq!(
        links[0],
        &Markup::Link { target: text("intro.md#getting-started"), at: 9 }
    );
}

#[test]
fn markup_of_heading_has_start_text_and_end() {
    let items = markup_of("# Title\n");
    assert_eq!(
        items,
        vec![Markup::HeadingStart, Markup::Text { text: text("Title") }, Markup::HeadingEnd]
    );
}

#[test]
fn markup_of_nothing_is_empty() {
    assert_eq!(markup_of(""), Vec::<Markup>::new());
}

#[test]
fn inline_link_has_line_target_and_text() {
    let links = extract_links("api.md", "first\n\n[see](intro.md#getting-started) more\n");
    assert_eq!(
        links,
        vec![Link {
            chapter: text("api.md"),
            line: 3,
            target: text("intro.md#getting-started"),
            text: Some(text("see")),
        }]
    );
}

#[test]
fn link_on_the_first_line_is_on_line_one() {
    let links = extract_links("a.md", "[x](y.md)");
    assert_eq!(targets(&links), vec![(1, text("y.md"))]);
}

#[test]
fn links_come_in_the_order_of_the_text() {
    let links = extract_links("a.md", "[a](one.md) and [b](two.md)\n\n[c](three.md)\n");
    assert_eq!(
        targets(&links),
        vec![(1, text("one.md")), (1, text("two.md")), (3, text("three.md"))]
    );
}

#[test]
fn reference_links_are_resolved_by_their_definitions() {
    let content = "See [the intro][intro] and [other].\n\n[intro]: intro.md#start\n[other]: other.md\n";
    let links = extract_links("a.md", content);
    assert_eq!(targets(&links), vec![(1, text("intro.md#start")), (1, text("other.md"))]);
    assert_eq!(links[0].text, Some(text("the intro")));
}

#[test]
fn automatic_links_are_links() {
    let links = extract_links("a.md", "one\ntwo <https://example.com/x> three\n");
    assert_eq!(targets(&links), vec![(2, text("https://example.com/x"))]);
}

#[test]
fn images_are_links() {
    let links = extract_links("a.md", "\n\n![alt](img/pic.png)\n");
    assert_eq!(targets(&links), vec![(3, text("img/pic.png"))]);
    assert_eq!(links[0].text, Some(text("alt")));
}

#[test]
fn a_link_that_opens_with_markup_has_no_plain_text() {
    let links = extract_links("a.md", "[*see* this](x.md)\n");
    assert_eq!(targets(&links), vec![(1, text("x.md"))]);
    assert_eq!(links[0].text, None);
}

#[test]
fn malformed_links_are_not_extracted() {
    assert_eq!(extract_links("a.md", "[text](\n"), Vec::<Link>::new());
    assert_eq!(extract_links("a.md", "[text] (x.md\n"), Vec::<Link>::new());
    assert_eq!(extract_links("a.md", "[undefined][nowhere]\n"), Vec::<Link>::new());
    assert_eq!(extract_links("a.md", "plain text only\n"), Vec::<Link>::new());
}

#[test]
fn links_in_code_are_not_extracted() {
    let content = "```\n[x](y.md)\n```\n\n`[a](b.md)`\n";
    assert_eq!(extract_links("a.md", content), Vec::<Link>::new());
}

#[test]
fn characters_of_several_bytes_do_not_shift_lines() {
    let content = "héllo wörld — ünïcode\nzwei ✓✓✓\n\n[x](y.md)\n";
    let links = extract_links("a.md", content);
    assert_eq!(targets(&links), vec![(4, text("y.md"))]);
}

#[test]
fn raw_html_anchor_and_image_are_links() {
    let content = "text\n\n<div>\n<a href=\"intro.md#top\">x</a>\n<img src='pic.png'>\n</div>\n";
    let links = extract_links("a.md", content);
    assert_eq!(targets(&links), vec![(4, text("intro.md#top")), (5, text("pic.png"))]);
    assert_eq!(links[0].text, None);
    assert_eq!(links[0].chapter, "a.md");
}

#[test]
fn inline_html_anchor_is_a_link() {
    let content = "one\ntwo <a href=\"x.md\">x</a> three\n";
    let links = extract_links("a.md", content);
    assert_eq!(targets(&links), vec![(2, text("x.md"))]);
}

#[test]
fn html_targets_count_line_breaks_before_the_tag() {
    assert_eq!(
        html_targets("<p>\n\n<a class=\"c\" href=\"a.md\">\n<IMG SRC='b.png'>"),
        vec![(2, text("a.md")), (3, text("b.png"))]
    );
}

#[test]
fn html_tags_without_a_target_give_nothing() {
    assert_eq!(html_targets("<a name=\"x\">"), Vec::<(usize, String)>::new());
    assert_eq!(html_targets("<a href=x.md>"), Vec::<(usize, String)>::new());
    assert_eq!(html_targets("<a href=\"x.md>"), Vec::<(usize, String)>::new());
    assert_eq!(html_targets("<abbr href=\"x.md\">"), Vec::<(usize, String)>::new());
    assert_eq!(html_targets("<img href=\"x.md\">"), Vec::<(usize, String)>::new());
    assert_eq!(html_targets("<a> href=\"x.md\""), Vec::<(usize, String)>::new());
    assert_eq!(html_targets(""), Vec::<(usize, String)>::new());
}

#[test]
fn html_target_may_be_empty_and_may_hold_the_other_quote() {
    assert_eq!(html_targets("<a href=\"\">"), vec![(0, text(""))]);
    assert_eq!(html_targets("<a href='a\"b'>"), vec![(0, text("a\"b"))]);
}

#[test]
fn html_takes_the_first_target_of_a_tag() {
    assert_eq!(html_targets("<a href=\"one\" href=\"two\">"), vec![(0, text("one"))]);
}

#[test]
fn line_count_follows_the_bytes() {
    let bytes = b"a\nb\n\nc";
    let mut count = LineCount::new();
    assert_eq!(count.line(bytes, 0, 0), 1);
    assert_eq!(count.line(bytes, 1, 0), 1);
    assert_eq!(count.line(bytes, 2, 0), 2);
    assert_eq!(count.line(bytes, 5, 0), 4);
    assert_eq!(count.line(bytes, 5, 2), 6);
    assert_eq!(count.line(bytes, 1000, 0), 4);
}

#[test]
fn line_count_starts_over_when_it_goes_back() {
    let bytes = b"a\nb\nc\n";
    let mut count = LineCount::new();
    assert_eq!(count.line(bytes, 4, 0), 3);
    assert_eq!(count.line(bytes, 2, 0), 2);
    assert_eq!(count.line(bytes, 6, 0), 4);
}

#[test]
fn links_from_markup_use_the_given_items() {
    let events = vec![
        Markup::Other,
        Markup::Link { target: text("a.md"), at: 4 },
        Markup::Text { text: text("one ") },
        Markup::Text { text: text("two") },
        Markup::Other,
        Markup::Text { text: text("not this") },
        Markup::Image { target: text("b.png"), at: 0 },
        Markup::Html { text: text("\n<a href=\"c.md\">"), at: 2 },
    ];
    let links = links_from_markup("ch.md", b"x\ny\nz\n", &events);
    assert_eq!(
        links,
        vec![
            Link { chapter: text("ch.md"), line: 3, target: text("a.md"), text: Some(text("one two")) },
            Link { chapter: text("ch.md"), line: 1, target: text("b.png"), text: None },
            Link { chapter: text("ch.md"), line: 3, target: text("c.md"), text: None },
        ]
    );
}

#[test]
fn a_tag_may_run_over_several_lines_of_raw_html() {
    let content = "intro\n\n<p>\n<a\n  class=\"c\"\n  href=\"x.md\">x</a>\n<img src=\"y.png\">\n</p>\n";
    let links = extract_links("a.md", content);
    assert_eq!(targets(&links), vec![(4, text("x.md")), (7, text("y.png"))]);
}

#[test]
fn raw_html_items_in_a_row_are_read_as_one_piece() {
    let events = vec![
        Markup::Html { text: text("<p>\n<a\n"), at: 2 },
        Markup::Html { text: text(" href=\"a.md\">\n"), at: 9 },
        Markup::Html { text: text("<img src='b.png'>"), at: 24 },
        Markup::Other,
        Markup::Html { text: text("<a href=\"c.md\">"), at: 0 },
    ];
    let links = links_from_markup("ch.md", b"x\ny\nz\n", &events);
    assert_eq!(
        targets(&links),
        vec![(3, text("a.md")), (5, text("b.png")), (1, text("c.md"))]
    );
}
