use blog_content::error::{AppError, ContentError, Phase};
use blog_content::feed::add_item;
use blog_content::route::{requested_file, select_page, PageTarget, PathLookup};
use blog_content::text::{
    char_is_whitespace, chars_of, find_from, matches_at, normalized, same_ignoring_ascii_case,
};

fn chars(s: &str) -> Vec<char> {
    s.chars().collect()
}

#[test]
fn one_file_never_stops_the_process() {
    for phase in [Phase::Startup, Phase::Serving] {
        assert!(!ContentError::MalformedMetadata.stops_process(phase));
    }
}

#[test]
fn other_errors_stop_the_start_only() {
    for e in [
        ContentError::DirectoryUnavailable,
        ContentError::IndexBuildFailed,
        ContentError::WatchSubscriptionFailed,
    ] {
        assert!(e.stops_process(Phase::Startup));
        assert!(!e.stops_process(Phase::Serving));
    }
}

#[test]
fn errors_have_their_messages() {
    assert_eq!(ContentError::DirectoryUnavailable.message(), "Unable to read directory 'posts'");
    assert_eq!(
        ContentError::MalformedMetadata.message(),
        "Unable to parse markdown with frontmatter"
    );
    assert_eq!(ContentError::IndexBuildFailed.message(), "Failed to process any posts");
    assert_eq!(ContentError::WatchSubscriptionFailed.message(), "Failed to setup file watcher");
}

#[test]
fn handler_error_is_an_internal_server_error() {
    let e = AppError("disk on fire".to_string());
    assert_eq!(e.status_code(), 500);
    assert_eq!(e.body(), "Internal server error: disk on fire");
    let e = AppError::from_content(ContentError::IndexBuildFailed);
    assert_eq!(e.0, "Failed to process any posts");
    assert_eq!(e.body(), "Internal server error: Failed to process any posts");
}

#[test]
fn new_item_goes_first() {
    let mut items = vec![2, 3];
    add_item(&mut items, 1);
    assert_eq!(items, vec![1, 2, 3]);
    let mut none: Vec<String> = Vec::new();
    add_item(&mut none, "first".to_string());
    assert_eq!(none, vec!["first".to_string()]);
}

#[test]
fn no_path_asks_for_home() {
    assert!(matches!(requested_file(None), PathLookup::Home));
}

#[test]
fn path_names_a_markdown_file() {
    match requested_file(Some("hello")) {
        PathLookup::File(name) => assert_eq!(name, "hello.md"),
        other => panic!("{other:?}"),
    }
    match requested_file(Some("a.b/c")) {
        PathLookup::File(name) => assert_eq!(name, "a.b/c.md"),
        other => panic!("{other:?}"),
    }
    match requested_file(Some("")) {
        PathLookup::File(name) => assert_eq!(name, ".md"),
        other => panic!("{other:?}"),
    }
}

#[test]
fn path_that_steps_up_is_refused() {
    for path in ["..", "../secret", "a/../b", "a..b", "trailing..", "..."] {
        assert!(matches!(requested_file(Some(path)), PathLookup::Rejected), "{path}");
    }
}

#[test]
fn page_follows_from_what_was_found() {
    assert_eq!(select_page(None), PageTarget::NotFound);
    assert_eq!(select_page(Some("")), PageTarget::Home);
    assert_eq!(select_page(Some("404")), PageTarget::NotFound);
    assert_eq!(select_page(Some("# A post")), PageTarget::Post);
    assert_eq!(select_page(Some("4040")), PageTarget::Post);
    assert_eq!(select_page(Some(" ")), PageTarget::Post);
}

#[test]
fn whitespace_is_what_unicode_says() {
    for code in 0..=0x11_0000u32 {
        if let Some(c) = char::from_u32(code) {
            assert_eq!(char_is_whitespace(c), c.is_whitespace(), "{code:#x}");
        }
    }
}

#[test]
fn chars_are_taken_in_order() {
    assert_eq!(chars_of("h\u{00E9}llo"), chars("h\u{00E9}llo"));
    assert_eq!(chars_of(""), Vec::<char>::new());
}

#[test]
fn search_finds_the_first_match() {
    let text = chars("abcabcab");
    assert_eq!(find_from(&text, &chars("abc"), 0), Some(0));
    assert_eq!(find_from(&text, &chars("abc"), 1), Some(3));
    assert_eq!(find_from(&text, &chars("abc"), 4), None);
    assert_eq!(find_from(&text, &chars("ab"), 4), Some(6));
    assert_eq!(find_from(&text, &chars("ab"), 7), None);
    assert_eq!(find_from(&text, &chars("x"), 0), None);
    assert_eq!(find_from(&text, &chars("abcabcabc"), 0), None);
    assert_eq!(find_from(&text, &chars(""), 3), Some(3));
    assert_eq!(find_from(&text, &chars(""), 8), Some(8));
    assert_eq!(find_from(&text, &chars(""), 9), None);
    assert!(matches_at(&text, &chars("cab"), 2));
    assert!(!matches_at(&text, &chars("cab"), 3));
    assert!(!matches_at(&text, &chars("ab"), 7));
    assert!(matches_at(&text, &chars(""), 8));
    assert!(!matches_at(&text, &chars(""), 9));
}

#[test]
fn search_agrees_with_str_find() {
    let texts = ["", "+++", "+++a+++b", "a+++", "++ +++", "++++++", "+ + +"];
    for text in texts {
        for from in 0..=text.len() {
            let expected = text[from..].find("+++").map(|i| i + from);
            assert_eq!(find_from(&chars(text), &chars("+++"), from), expected, "{text} {from}");
        }
    }
}

#[test]
fn words_are_joined_by_single_spaces() {
    for s in ["", " ", "a", " a ", "a  b", "\ta\n\nb  c ", "a\u{2003}\u{00A0}b", "  x"] {
        let expected = s.split_whitespace().collect::<Vec<_>>().join(" ");
        assert_eq!(normalized(&chars(s)), chars(&expected), "{s:?}");
    }
}

#[test]
fn ascii_letters_are_compared_without_case() {
    let pairs = [
        ("", ""),
        ("a", "A"),
        ("Rust", "rUST"),
        ("rust", "rusty"),
        ("a", "b"),
        ("@", "`"),
        ("[", "{"),
        ("Z", "z"),
        ("\u{00E9}", "\u{00C9}"),
        ("caf\u{00E9}", "CAF\u{00E9}"),
        ("\u{212A}", "k"),
    ];
    for (a, b) in pairs {
        assert_eq!(
            same_ignoring_ascii_case(&chars(a), &chars(b)),
            a.eq_ignore_ascii_case(b),
            "{a} {b}"
        );
    }
}
