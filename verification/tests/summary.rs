use blog_content::summary::{find_word_boundary, strip_html_tags, truncate_html_text};

#[test]
fn strips_tags_and_evens_out_whitespace() {
    assert_eq!(strip_html_tags("<p>Some <em>text</em>.</p>\n"), "Some text.");
    assert_eq!(strip_html_tags("<h1>Title</h1>\n<p>One\n  two</p>"), "Title One two");
    assert_eq!(strip_html_tags("  plain   text  "), "plain text");
    assert_eq!(strip_html_tags(""), "");
    assert_eq!(strip_html_tags("<br>"), "");
    assert_eq!(strip_html_tags(" \t\n"), "");
}

#[test]
fn strips_without_regard_to_nesting() {
    assert_eq!(strip_html_tags("a > b"), "a b");
    assert_eq!(strip_html_tags("a < b"), "a");
    assert_eq!(strip_html_tags("a <<b> c"), "a c");
    assert_eq!(strip_html_tags("a <b>> c"), "a c");
    assert_eq!(strip_html_tags("x<a href=\"y\">z</a>"), "xz");
}

#[test]
fn strips_unicode_whitespace() {
    assert_eq!(strip_html_tags("a\u{00A0}\u{2003}b\u{3000}"), "a b");
    assert_eq!(strip_html_tags("a\u{200B}b"), "a\u{200B}b");
}

#[test]
fn word_boundary_keeps_short_texts() {
    assert_eq!(find_word_boundary("hello", 10), "hello");
    assert_eq!(find_word_boundary("hello", 5), "hello");
    assert_eq!(find_word_boundary("", 0), "");
    assert_eq!(find_word_boundary("hi  ", 10), "hi  ");
}

#[test]
fn word_boundary_ends_the_word_at_the_bound() {
    assert_eq!(find_word_boundary("hello world foo", 10), "hello world");
    assert_eq!(find_word_boundary("hello world foo", 11), "hello world");
    assert_eq!(find_word_boundary("hello world foo", 12), "hello world foo");
    assert_eq!(find_word_boundary("hello world foo", 5), "hello");
    assert_eq!(find_word_boundary("hello world foo", 4), "hello");
    assert_eq!(find_word_boundary("hello world foo", 0), "hello");
    assert_eq!(find_word_boundary("hello   world", 6), "hello");
    assert_eq!(find_word_boundary("   hello", 1), "");
}

#[test]
fn truncation_never_splits_a_word() {
    assert_eq!(truncate_html_text("hello world foo", 10), "hello world...");
}

#[test]
fn truncation_marks_only_what_was_cut() {
    assert_eq!(truncate_html_text("hello world foo", 15), "hello world foo");
    assert_eq!(truncate_html_text("hello world foo", 100), "hello world foo");
    assert_eq!(truncate_html_text("hello world foo", 14), "hello world foo");
    assert_eq!(truncate_html_text("hello world foo", 12), "hello world foo");
    assert_eq!(truncate_html_text("hello world foo", 11), "hello world...");
    assert_eq!(truncate_html_text("hello world foo", 5), "hello...");
    assert_eq!(truncate_html_text("hello world foo", 3), "hello...");
    assert_eq!(truncate_html_text("hello world foo", 0), "hello...");
    assert_eq!(truncate_html_text("hello", 0), "hello");
    assert_eq!(truncate_html_text("", 0), "");
}

#[test]
fn truncation_works_on_the_plain_text() {
    assert_eq!(
        truncate_html_text("<p>Some <em>text</em> that   goes\non.</p>", 9),
        "Some text..."
    );
    assert_eq!(
        truncate_html_text("<p>Some <em>text</em> that   goes\non.</p>", 10),
        "Some text that..."
    );
    assert_eq!(
        truncate_html_text("<p>Some <em>text</em> that   goes\non.</p>", 22),
        "Some text that goes on."
    );
}

#[test]
fn truncation_counts_characters() {
    assert_eq!(truncate_html_text("h\u{00E9}llo w\u{00F6}rld", 5), "h\u{00E9}llo...");
    assert_eq!(truncate_html_text("h\u{00E9}llo", 5), "h\u{00E9}llo");
    assert_eq!(truncate_html_text("\u{00E9}\u{00E9}\u{00E9}", 3), "\u{00E9}\u{00E9}\u{00E9}");
    assert_eq!(truncate_html_text("\u{00E9}\u{00E9}\u{00E9} x", 3), "\u{00E9}\u{00E9}\u{00E9}...");
}
