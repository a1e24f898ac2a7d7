use get_music::pager::{check_reply, Crawl, CrawlError, CrawlStep, Stage};
use get_music::track::{Page, Track, Uploads};

fn track(id: &str) -> Track {
    Track {
        id: id.to_string(),
        name: format!("Track {}", id),
        preview_url: format!("https://audio.example.com/previews/{}.mp3", id),
    }
}

fn page(ids: &[&str], next: Option<&str>, has_more: bool) -> Page {
    Page {
        tracks: ids.iter().map(|i| track(i)).collect(),
        next_cursor: next.map(|c| c.to_string()),
        has_more,
    }
}

fn ids(tracks: &[Track]) -> Vec<String> {
    tracks.iter().map(|t| t.id.clone()).collect()
}

/// Feeds the replies in order and returns the final step.
fn replay(first: Page, replies: Vec<Result<Page, CrawlError>>) -> (CrawlStep, Vec<String>) {
    let mut cursors = Vec::new();
    let mut step = Crawl::start("U1".to_string(), first);
    for reply in replies {
        match step {
            CrawlStep::Fetch(c) => {
                cursors.push(c.cursor.clone());
                step = c.resume(reply);
            }
            other => return (other, cursors),
        }
    }
    (step, cursors)
}

#[test]
fn crawl_concatenates_pages_in_order() {
    let first = page(&["a", "b"], Some("c1"), true);
    let replies = vec![
        Ok(page(&["c"], Some("c2"), true)),
        Ok(page(&["d", "e"], Some("c3"), true)),
        Ok(page(&["f"], None, false)),
    ];
    let (step, cursors) = replay(first, replies);
    assert_eq!(cursors, vec!["c1", "c2", "c3"]);
    match step {
        CrawlStep::Done(tracks) => assert_eq!(ids(&tracks), vec!["a", "b", "c", "d", "e", "f"]),
        _ => panic!("the crawl should be complete"),
    }
}

#[test]
fn crawl_of_a_single_page_needs_no_fetch() {
    match Crawl::start("U1".to_string(), page(&["a"], Some("c1"), false)) {
        CrawlStep::Done(tracks) => assert_eq!(ids(&tracks), vec!["a"]),
        _ => panic!("a last first page is the whole catalog"),
    }
}

#[test]
fn crawl_of_an_empty_catalog() {
    match Crawl::start("U1".to_string(), page(&[], None, false)) {
        CrawlStep::Done(tracks) => assert!(tracks.is_empty()),
        _ => panic!("an empty first page is the whole catalog"),
    }
}

#[test]
fn crawl_failure_drops_the_catalog() {
    let first = page(&["a"], Some("c1"), true);
    let replies = vec![
        Ok(page(&["b"], Some("c2"), true)),
        Err(CrawlError::Api { stage: Stage::Page, status: 500, body: "oops".to_string() }),
        Ok(page(&["c"], None, false)),
    ];
    let (step, cursors) = replay(first, replies);
    assert_eq!(cursors, vec!["c1", "c2"]);
    match step {
        CrawlStep::Failed(CrawlError::Api { stage, status, body }) => {
            assert_eq!(stage, Stage::Page);
            assert_eq!(status, 500);
            assert_eq!(body, "oops");
        }
        _ => panic!("the crawl should fail with the page error"),
    }
}

#[test]
fn crawl_transport_failure_on_first_fetch() {
    let first = page(&["a"], Some("c1"), true);
    let error = CrawlError::Transport { stage: Stage::Page, message: "reset".to_string() };
    let (step, _) = replay(first, vec![Err(error)]);
    assert!(matches!(step, CrawlStep::Failed(CrawlError::Transport { .. })));
}

#[test]
fn crawl_request_asks_for_the_cursor() {
    match Crawl::start("U1".to_string(), page(&["a"], Some("c1"), true)) {
        CrawlStep::Fetch(c) => {
            let p = c.request(&"query Q".to_string());
            assert_eq!(p.query, "query Q");
            assert_eq!(p.variables.id.as_deref(), Some("U1"));
            assert_eq!(p.variables.cursor.as_deref(), Some("c1"));
            assert_eq!(p.variables.username, None);
            assert_eq!(p.variables.order_by, "LATEST");
            assert_eq!(p.variables.count, 10);
        }
        _ => panic!("a page with a successor asks for it"),
    }
}

#[test]
fn reply_with_success_and_page_is_accepted() {
    let u = Uploads { owner_id: "U1".to_string(), page: page(&["a"], Some("c1"), true) };
    match check_reply(Stage::Lookup, 200, "{}".to_string(), Some(u)) {
        Ok(u) => {
            assert_eq!(u.owner_id, "U1");
            assert_eq!(ids(&u.page.tracks), vec!["a"]);
        }
        Err(_) => panic!("a complete page with status 200 is accepted"),
    }
}

#[test]
fn reply_with_bad_status_is_api_error() {
    let u = Uploads { owner_id: "U1".to_string(), page: page(&["a"], None, false) };
    match check_reply(Stage::Lookup, 404, "not here".to_string(), Some(u)) {
        Err(CrawlError::Api { stage, status, body }) => {
            assert_eq!(stage, Stage::Lookup);
            assert_eq!(status, 404);
            assert_eq!(body, "not here");
        }
        _ => panic!("status 404 is an api error"),
    }
}

#[test]
fn reply_that_does_not_decode_is_api_error() {
    match check_reply(Stage::Page, 200, "<html>".to_string(), None) {
        Err(CrawlError::Api { stage, status, body }) => {
            assert_eq!(stage, Stage::Page);
            assert_eq!(status, 200);
            assert_eq!(body, "<html>");
        }
        _ => panic!("an undecodable body is an api error"),
    }
}

#[test]
fn reply_announcing_more_without_cursor_is_api_error() {
    let u = Uploads { owner_id: "U1".to_string(), page: page(&["a"], None, true) };
    assert!(matches!(
        check_reply(Stage::Page, 200, "{}".to_string(), Some(u)),
        Err(CrawlError::Api { status: 200, .. })
    ));
}
