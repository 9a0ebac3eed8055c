use mdblog::page::{LoadOutcome, Page};
use mdblog::posts::{CollectionError, Posts};
use mdblog::web::{home_menu, post_file_name, post_response, probe_step, PortProbe};

fn outcome(stem: &str, content: &str) -> LoadOutcome {
    Page::new(stem, content)
}

#[test]
fn collection_sorts_most_recent_first() {
    let outcomes = vec![
        outcome("20230101000000", "B"),
        outcome("20230601000000", "A"),
        outcome("20220101000000", "C"),
    ];
    let posts = Posts::new(outcomes).unwrap();
    let ids: Vec<String> = posts.into_vec().iter().map(|p| p.id()).collect();
    assert_eq!(ids, vec!["20230601000000", "20230101000000", "20220101000000"]);
}

#[test]
fn invalid_candidates_are_excluded() {
    let outcomes = vec![outcome("not-a-date", "X"), outcome("20230101000000", "B")];
    let posts = Posts::new(outcomes).unwrap();
    assert_eq!(posts.len(), 1);
    assert_eq!(posts.get(0).id(), "20230101000000");
}

#[test]
fn no_valid_post_means_no_collection() {
    let outcomes = vec![outcome("not-a-date", "X")];
    assert!(matches!(Posts::new(outcomes), Err(CollectionError::NoPosts)));
    assert!(matches!(Posts::new(Vec::new()), Err(CollectionError::NoPosts)));
}

#[test]
fn malformed_document_aborts_the_collection() {
    let outcomes = vec![
        outcome("20230101000000", "B"),
        outcome("20230201000000", "---\n: invalid yaml :::\n---\nBody"),
    ];
    assert!(matches!(Posts::new(outcomes), Err(CollectionError::Malformed(_))));
}

#[test]
fn menu_marks_year_and_month_changes() {
    let outcomes = vec![
        outcome("20230101000000", "B"),
        outcome("20230601000000", "A"),
        outcome("20220101000000", "C"),
    ];
    let posts = Posts::new(outcomes).unwrap();
    let menu = home_menu(&posts);
    let mut expected = String::new();
    expected.push_str("<div class=\"year\">2023</div>");
    expected.push_str("<div class=\"month\">06</div>");
    expected.push_str("<div class=\"item\"><a href=\"/post/20230601000000\">A</a></div>");
    expected.push_str("<div class=\"month\">01</div>");
    expected.push_str("<div class=\"item\"><a href=\"/post/20230101000000\">B</a></div>");
    expected.push_str("<div class=\"year\">2022</div>");
    expected.push_str("<div class=\"item\"><a href=\"/post/20220101000000\">C</a></div>");
    assert_eq!(menu, expected);
}

#[test]
fn missing_post_gets_the_not_found_fragment() {
    let r = post_response(LoadOutcome::Skipped);
    assert_eq!(r.unwrap(), "<h1>404</h1>");
}

#[test]
fn valid_post_gets_its_rendered_body() {
    let r = post_response(outcome("20230101000000", "# Hi"));
    assert_eq!(r.unwrap(), "<h1>Hi</h1>\n");
}

#[test]
fn malformed_post_surfaces_its_diagnostic() {
    let r = post_response(outcome("20230101000000", "---\n: bad :::\n---\nBody"));
    assert!(r.is_err());
}

#[test]
fn post_file_name_appends_the_extension() {
    assert_eq!(post_file_name("20230101000000"), "20230101000000.md");
    assert_eq!(post_file_name("doesnotexist"), "doesnotexist.md");
}

#[test]
fn port_scan_steps() {
    assert_eq!(probe_step(3000, true), PortProbe::Serve(3000));
    assert_eq!(probe_step(3000, false), PortProbe::Next(3001));
    assert_eq!(probe_step(65533, false), PortProbe::Next(65534));
    assert_eq!(probe_step(65534, false), PortProbe::Exhausted);
}
