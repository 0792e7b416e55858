use blog_content::error::ContentError;
use blog_content::front_matter::FrontMatter;
use blog_content::index::{
    build_frontmatter_index, get_all_posts, install_snapshot, slug_of_file, ContentIndex, PostFile,
};

fn titled(title: &str) -> FrontMatter {
    let mut meta = FrontMatter::empty();
    meta.title = Some(title.to_string());
    meta
}

fn file(slug: &str, content: &str) -> PostFile {
    PostFile { slug: slug.to_string(), content: Some(content.to_string()) }
}

fn unreadable(slug: &str) -> PostFile {
    PostFile { slug: slug.to_string(), content: None }
}

#[test]
fn new_index_is_empty() {
    let index = ContentIndex::new();
    assert_eq!(index.len(), 0);
    assert!(index.get("any").is_none());
}

#[test]
fn with_entry_adds_a_post() {
    let index = ContentIndex::new().with_entry("a".to_string(), titled("A"));
    let index = index.with_entry("b".to_string(), titled("B"));
    assert_eq!(index.len(), 2);
    assert_eq!(index.get("a").unwrap().title.as_deref(), Some("A"));
    assert_eq!(index.get("b").unwrap().title.as_deref(), Some("B"));
    assert!(index.get("c").is_none());
    assert_eq!(index.entry_at(0).unwrap().slug, "a");
    assert_eq!(index.entry_at(1).unwrap().slug, "b");
    assert!(index.entry_at(2).is_none());
}

#[test]
fn with_entry_replaces_the_post_of_the_same_slug() {
    let index = ContentIndex::new()
        .with_entry("a".to_string(), titled("A"))
        .with_entry("b".to_string(), titled("B"))
        .with_entry("a".to_string(), titled("A2"));
    assert_eq!(index.len(), 2);
    assert_eq!(index.get("a").unwrap().title.as_deref(), Some("A2"));
    assert_eq!(index.entry_at(0).unwrap().slug, "a");
    assert_eq!(index.entry_at(1).unwrap().slug, "b");
    assert!(index.entry_at(2).is_none());
}

#[test]
fn slugs_are_told_apart_by_case() {
    let index = ContentIndex::new()
        .with_entry("post".to_string(), titled("lower"))
        .with_entry("Post".to_string(), titled("upper"));
    assert_eq!(index.len(), 2);
    assert_eq!(index.get("post").unwrap().title.as_deref(), Some("lower"));
    assert_eq!(index.get("Post").unwrap().title.as_deref(), Some("upper"));
}

#[test]
fn rebuild_indexes_every_file_that_decodes() {
    let files = vec![
        file("one", "+++\ntitle = \"One\"\n+++\nbody"),
        file("two", "no header"),
        file("three", "+++\ntitle = \"Three\"\ndate = \"2024-01-01\"\n+++\n"),
    ];
    let (index, report) = build_frontmatter_index(&files).unwrap();
    assert_eq!(index.len(), 3);
    assert_eq!(report.indexed, 3);
    assert!(report.failed.is_empty());
    assert_eq!(index.get("one").unwrap().title.as_deref(), Some("One"));
    assert!(index.get("two").unwrap().title.is_none());
    assert_eq!(index.get("three").unwrap().title.as_deref(), Some("Three"));
}

#[test]
fn malformed_file_is_left_out_and_the_others_are_indexed() {
    let files = vec![
        file("a", "+++\ntitle = \"A\"\n+++\n"),
        file("b", "+++\ntitle = \"B\"\n+++\n"),
        file("broken", "+++\ntitle = 12\n+++\n"),
        file("c", "+++\ntitle = \"C\"\n+++\n"),
        file("d", "+++\ntitle = \"D\"\n+++\n"),
        file("e", "+++\ntitle = \"E\"\n+++\n"),
    ];
    let (index, report) = build_frontmatter_index(&files).unwrap();
    assert_eq!(index.len(), 5);
    assert_eq!(report.indexed, 5);
    assert_eq!(report.failed, vec!["broken".to_string()]);
    assert!(index.get("broken").is_none());
    for slug in ["a", "b", "c", "d", "e"] {
        assert!(index.get(slug).is_some());
    }
}

#[test]
fn unreadable_file_is_left_out() {
    let files = vec![unreadable("gone"), file("here", "text")];
    let (index, report) = build_frontmatter_index(&files).unwrap();
    assert_eq!(index.len(), 1);
    assert_eq!(report.failed, vec!["gone".to_string()]);
    assert!(index.get("gone").is_none());
    assert!(index.get("here").is_some());
}

#[test]
fn rebuild_of_no_files_gives_an_empty_index() {
    let (index, report) = build_frontmatter_index(&Vec::new()).unwrap();
    assert_eq!(index.len(), 0);
    assert_eq!(report.indexed, 0);
    assert!(report.failed.is_empty());
}

#[test]
fn rebuild_fails_when_every_file_fails() {
    let files = vec![file("x", "+++\ndate = 5\n+++\n"), unreadable("y")];
    assert_eq!(build_frontmatter_index(&files).err(), Some(ContentError::IndexBuildFailed));
    let files = vec![unreadable("only")];
    assert_eq!(build_frontmatter_index(&files).err(), Some(ContentError::IndexBuildFailed));
}

#[test]
fn later_file_of_a_slug_takes_the_place_of_the_earlier() {
    let files = vec![
        file("a", "+++\ntitle = \"first\"\n+++\n"),
        file("b", "+++\ntitle = \"B\"\n+++\n"),
        file("a", "+++\ntitle = \"second\"\n+++\n"),
        file("b", "+++\ntitle = 0\n+++\n"),
    ];
    let (index, report) = build_frontmatter_index(&files).unwrap();
    assert_eq!(index.len(), 2);
    assert_eq!(index.get("a").unwrap().title.as_deref(), Some("second"));
    assert_eq!(index.get("b").unwrap().title.as_deref(), Some("B"));
    assert_eq!(report.failed, vec!["b".to_string()]);
}

#[test]
fn install_puts_the_new_snapshot_in_place() {
    let mut current = ContentIndex::new().with_entry("old".to_string(), titled("Old"));
    let files = vec![file("n1", "a"), file("n2", "b")];
    let report = install_snapshot(&mut current, build_frontmatter_index(&files)).unwrap();
    assert_eq!(report.indexed, 2);
    assert_eq!(current.len(), 2);
    assert!(current.get("old").is_none());
    assert!(current.get("n1").is_some());
    assert!(current.get("n2").is_some());
}

#[test]
fn install_keeps_the_snapshot_when_the_rebuild_failed() {
    let mut current = ContentIndex::new().with_entry("old".to_string(), titled("Old"));
    let files = vec![file("bad", "+++\ntitle = 1\n+++\n")];
    let r = install_snapshot(&mut current, build_frontmatter_index(&files));
    assert_eq!(r.err(), Some(ContentError::IndexBuildFailed));
    assert_eq!(current.len(), 1);
    assert_eq!(current.get("old").unwrap().title.as_deref(), Some("Old"));
}

#[test]
fn a_reader_sees_the_old_or_the_new_snapshot() {
    let mut current = ContentIndex::new();
    let mut sizes = vec![current.len()];
    for round in 0..6usize {
        let files: Vec<PostFile> =
            (0..round + 2).map(|i| file(&format!("post-{i}"), "text")).collect();
        let old = current.len();
        let outcome = if round % 3 == 2 {
            build_frontmatter_index(&vec![unreadable("x")])
        } else {
            build_frontmatter_index(&files)
        };
        let new = match &outcome {
            Ok((index, _)) => index.len(),
            Err(_) => old,
        };
        let _ = install_snapshot(&mut current, outcome);
        assert!(current.len() == old || current.len() == new);
        assert_eq!(current.len(), new);
        sizes.push(current.len());
    }
    assert_eq!(sizes, vec![0, 2, 3, 3, 5, 6, 6]);
}

#[test]
fn slug_is_the_name_without_its_ending() {
    assert_eq!(slug_of_file("hello.md"), Some("hello".to_string()));
    assert_eq!(slug_of_file("a.b.md"), Some("a.b".to_string()));
    assert_eq!(slug_of_file("x.md"), Some("x".to_string()));
    assert_eq!(slug_of_file("..md"), Some(".".to_string()));
    assert_eq!(slug_of_file("sp ace.md"), Some("sp ace".to_string()));
    assert_eq!(slug_of_file("\u{00E9}t\u{00E9}.md"), Some("\u{00E9}t\u{00E9}".to_string()));
}

#[test]
fn other_files_have_no_slug() {
    assert_eq!(slug_of_file(".md"), None);
    assert_eq!(slug_of_file("md"), None);
    assert_eq!(slug_of_file(""), None);
    assert_eq!(slug_of_file("notes.txt"), None);
    assert_eq!(slug_of_file("post.MD"), None);
    assert_eq!(slug_of_file("post.md.bak"), None);
    assert_eq!(slug_of_file("post.mdx"), None);
    assert_eq!(slug_of_file("postmd"), None);
    assert_eq!(slug_of_file("post."), None);
}

#[test]
fn slug_agrees_with_the_parts_of_a_path() {
    let names = ["hello.md", "a.b.md", ".md", "..md", "md", "x.txt", "post.md.bak", "n.MD", "a."];
    for name in names {
        let path = std::path::Path::new(name);
        let expected = if path.extension().and_then(|e| e.to_str()) == Some("md") {
            path.file_stem().and_then(|s| s.to_str()).map(|s| s.to_string())
        } else {
            None
        };
        assert_eq!(slug_of_file(name), expected, "{name}");
    }
}

#[test]
fn posts_are_the_markdown_files_of_the_directory() {
    let names: Vec<String> = ["b.md", "notes.txt", "a.md", ".md", "c.markdown", "d.md"]
        .iter()
        .map(|s| s.to_string())
        .collect();
    assert_eq!(
        get_all_posts(Some(&names)),
        Ok(vec!["b".to_string(), "a".to_string(), "d".to_string()])
    );
    assert_eq!(get_all_posts(Some(&Vec::new())), Ok(Vec::<String>::new()));
}

#[test]
fn directory_that_cannot_be_listed_is_an_error() {
    assert_eq!(get_all_posts(None), Err(ContentError::DirectoryUnavailable));
}
