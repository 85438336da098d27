use mdbook_linkcheck::anchors::{decode, heading_anchors};
use mdbook_linkcheck::slug::slugify;

fn strings(items: &[&str]) -> Vec<String> {
    items.iter().map(|s| s.to_string()).collect()
}

#[test]
fn slug_of_plain_heading() {
    assert_eq!(slugify("Getting Started"), "getting-started");
}

#[test]
fn slug_drops_what_is_no_letter_digit_hyphen_or_blank() {
    assert_eq!(slugify("Hello, World!"), "hello-world");
    assert_eq!(slugify("snake_case & more"), "snakecase-more");
    assert_eq!(slugify("Ünïcode 42"), "ncode-42");
}

#[test]
fn slug_turns_each_run_of_white_space_into_one_hyphen() {
    assert_eq!(slugify("a   b\t\tc"), "a-b-c");
    assert_eq!(slugify("a \t b"), "a-b");
}

#[test]
fn slug_keeps_inner_hyphens_and_trims_outer_ones() {
    assert_eq!(slugify("  A - B  "), "a---b");
    assert_eq!(slugify("--x--"), "x");
    assert_eq!(slugify("- -"), "");
}

#[test]
fn slug_of_nothing_is_empty() {
    assert_eq!(slugify(""), "");
    assert_eq!(slugify("!!!"), "");
    assert_eq!(slugify("   "), "");
}

#[test]
fn anchors_of_a_chapter_follow_the_headings() {
    let found = heading_anchors("# Getting Started\n\ntext\n\n## Next Steps\n");
    assert_eq!(found, strings(&["getting-started", "next-steps"]));
}

#[test]
fn repeated_headings_are_numbered_from_one() {
    let found = heading_anchors("# Setup\n\n## Setup\n\n### Setup\n");
    assert_eq!(found, strings(&["setup", "setup-1", "setup-2"]));
}

#[test]
fn a_number_that_is_taken_is_passed_over() {
    let found = heading_anchors("# a\n\n# a-1\n\n# a\n\n# a\n");
    assert_eq!(found, strings(&["a", "a-1", "a-2", "a-3"]));
}

#[test]
fn a_numbered_slug_that_is_taken_gets_a_number_of_its_own() {
    let found = heading_anchors("# a\n\n# a\n\n# a-1\n");
    assert_eq!(found, strings(&["a", "a-1", "a-1-1"]));
}

#[test]
fn no_two_anchors_of_a_chapter_are_the_same() {
    let mut content = String::new();
    for _ in 0..12 {
        content.push_str("# Same\n\n## same\n\n# same-1\n\n");
    }
    let found = heading_anchors(&content);
    assert_eq!(found.len(), 36);
    for i in 0..found.len() {
        for j in 0..i {
            assert_ne!(found[i], found[j]);
        }
    }
    assert_eq!(found[0], "same");
    assert_eq!(found[1], "same-1");
    assert_eq!(found[2], "same-1-1");
}

#[test]
fn numbers_go_past_nine() {
    let mut content = String::new();
    for _ in 0..12 {
        content.push_str("# x\n\n");
    }
    let found = heading_anchors(&content);
    assert_eq!(found[9], "x-9");
    assert_eq!(found[10], "x-10");
    assert_eq!(found[11], "x-11");
}

#[test]
fn heading_text_includes_inline_code_and_emphasis() {
    let found = heading_anchors("# Using `cargo build` *now*\n");
    assert_eq!(found, strings(&["using-cargo-build-now"]));
}

#[test]
fn text_outside_headings_gives_no_anchor() {
    assert_eq!(heading_anchors("just a paragraph\n"), Vec::<String>::new());
    assert_eq!(heading_anchors(""), Vec::<String>::new());
}

#[test]
fn decode_reads_valid_utf8() {
    assert_eq!(decode(b"plain"), Some("plain"));
    assert_eq!(decode("héllo".as_bytes()), Some("héllo"));
    assert_eq!(decode(b""), Some(""));
}

#[test]
fn decode_refuses_invalid_utf8() {
    assert_eq!(decode(&[0x66, 0x6f, 0xff]), None);
    assert_eq!(decode(&[0xc3]), None);
}
