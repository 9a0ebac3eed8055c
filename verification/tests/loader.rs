use mdblog::page::{meta_ok, LoadOutcome, Page};

fn valid_page(stem: &str, content: &str) -> Page {
    match Page::new(stem, content) {
        LoadOutcome::Valid(p) => p,
        LoadOutcome::Skipped => panic!("expected a valid page, candidate was skipped"),
        LoadOutcome::Malformed(m) => panic!("expected a valid page, got diagnostic: {}", m),
    }
}

#[test]
fn valid_stem_gives_id() {
    let p = valid_page("20230101000000", "Hello");
    assert_eq!(p.id(), "20230101000000");
    assert_eq!(p.md, "Hello");
    assert!(p.front_matter.is_none());
}

#[test]
fn front_matter_round_trip() {
    let (fm, body) = Page::parse("---\na: 1\n---\nBody").unwrap();
    let expected: serde_yaml::Value = serde_yaml::from_str("a: 1").unwrap();
    assert_eq!(fm, Some(expected));
    assert_eq!(body, "Body");
}

#[test]
fn no_delimiter_gives_null_front_matter() {
    let (fm, body) = Page::parse("  \nJust text\nmore text\n ").unwrap();
    assert!(fm.is_none());
    assert_eq!(body, "Just text\nmore text");
}

#[test]
fn bad_stem_is_skipped() {
    assert!(matches!(Page::new("not-a-date", "Hello"), LoadOutcome::Skipped));
}

#[test]
fn oversize_file_is_excluded() {
    assert!(!meta_ok(true, 100_000_001));
    assert!(!meta_ok(true, 100_000_000));
    assert!(meta_ok(true, 99_999_999));
    assert!(!meta_ok(false, 1));
}

#[test]
fn malformed_yaml_aborts_the_document() {
    let r = Page::new("20230101000000", "---\n: invalid yaml :::\n---\nBody");
    assert!(matches!(r, LoadOutcome::Malformed(_)));
}

#[test]
fn malformed_yaml_after_bad_stem_still_skips() {
    let r = Page::new("not-a-date", "---\n: invalid yaml :::\n---\nBody");
    assert!(matches!(r, LoadOutcome::Skipped));
}

#[test]
fn calendar_is_validated() {
    assert!(matches!(Page::new("20231301000000", "x"), LoadOutcome::Skipped));
    assert!(matches!(Page::new("20230229000000", "x"), LoadOutcome::Skipped));
    assert!(matches!(Page::new("20240229000000", "x"), LoadOutcome::Valid(_)));
    assert!(matches!(Page::new("20230101240000", "x"), LoadOutcome::Skipped));
    assert!(matches!(Page::new("2023010100000", "x"), LoadOutcome::Skipped));
    assert!(matches!(Page::new("202301010000001", "x"), LoadOutcome::Skipped));
}

#[test]
fn title_strips_markup() {
    let p = valid_page("20230101000000", "**Hello** _world_");
    assert_eq!(p.title(), "Hello world");
}

#[test]
fn title_takes_first_line_only() {
    let p = valid_page("20230101000000", "# A heading\n\nA paragraph");
    assert_eq!(p.title(), "A heading");
}

#[test]
fn empty_body_has_empty_title() {
    let p = valid_page("20230101000000", "");
    assert_eq!(p.md, "");
    assert_eq!(p.title(), "");
}

#[test]
fn md_html_renders_markdown() {
    let p = valid_page("20230101000000", "# Hi");
    assert_eq!(p.md_html(), "<h1>Hi</h1>\n");
}

#[test]
fn inline_dashes_do_not_close_the_block() {
    let (fm, body) = Page::parse("---\nabc---def\n---\nBody").unwrap();
    let expected: serde_yaml::Value = serde_yaml::from_str("abc---def").unwrap();
    assert_eq!(fm, Some(expected));
    assert_eq!(body, "Body");
}

#[test]
fn closing_delimiter_must_be_a_full_line() {
    let (fm, body) = Page::parse("---\na: 1\n---of text\nBody").unwrap();
    assert!(fm.is_none());
    assert_eq!(body, "---\na: 1\n---of text\nBody");
}

#[test]
fn front_matter_may_end_the_document() {
    let (fm, body) = Page::parse("---\na: 1\n---").unwrap();
    assert!(fm.is_some());
    assert_eq!(body, "");
}

#[test]
fn document_is_trimmed_before_splitting() {
    let (fm, body) = Page::parse("\n  ---\na: 1\n---\nBody\n\n").unwrap();
    let expected: serde_yaml::Value = serde_yaml::from_str("a: 1").unwrap();
    assert_eq!(fm, Some(expected));
    assert_eq!(body, "Body");
}
