use get_music::downloader::{DownloadError, DownloadResult, ProbeEvent};
use get_music::locator::MediaConfig;
use get_music::pager::{CrawlError, Stage};
use get_music::run::{begin, RunStep};
use get_music::track::{Page, Track, Uploads};

fn config() -> MediaConfig {
    MediaConfig {
        marker: "previews/".to_string(),
        preview_ext: ".mp3".to_string(),
        cdn_domain: "mixcloud.com".to_string(),
        format: "m4a".to_string(),
        bitrate: 64,
        signature: "TOKEN".to_string(),
        first_shard: 1,
        shard_count: 3,
    }
}

fn track(id: &str, preview: &str) -> Track {
    Track { id: id.to_string(), name: format!("Track {}", id), preview_url: preview.to_string() }
}

fn lookup(tracks: Vec<Track>, next: Option<&str>, has_more: bool) -> Result<Uploads, CrawlError> {
    Ok(Uploads {
        owner_id: "U1".to_string(),
        page: Page { tracks, next_cursor: next.map(|c| c.to_string()), has_more },
    })
}

/// Drives a run: pages come from `pages` in order, shard `serving` (1-based host number in the
/// URL) answers with success, every other shard with 404. Returns the cursors asked for, the
/// number of probes, and the final step.
fn drive(mut step: RunStep, mut pages: Vec<Page>, serving: &str) -> (Vec<String>, usize, RunStep) {
    let mut cursors = Vec::new();
    let mut probes = 0;
    loop {
        step = match step {
            RunStep::Fetch(p) => {
                let body = p.request(&"query P".to_string());
                cursors.push(body.variables.cursor.clone().unwrap());
                let page = pages.remove(0);
                p.resume(Ok(page))
            }
            RunStep::Probe(d) => {
                probes += 1;
                if d.url().starts_with(serving) {
                    d.step(ProbeEvent::Answered(200))
                } else {
                    d.step(ProbeEvent::Answered(404))
                }
            }
            RunStep::Save(d) => d.step(ProbeEvent::Saved(10)),
            done => return (cursors, probes, done),
        };
    }
}

#[test]
fn run_single_page_downloads_every_track() {
    let tracks = vec![
        track("A", "https://a.example/previews/a.mp3"),
        track("B", "https://a.example/previews/b.mp3"),
    ];
    let step = begin(config(), lookup(tracks, None, false));
    let (cursors, probes, done) = drive(step, vec![], "https://stream2.");
    assert!(cursors.is_empty());
    assert_eq!(probes, 4);
    match done {
        RunStep::Finished(outcomes) => {
            assert_eq!(outcomes.len(), 2);
            assert_eq!(outcomes[0].track.id, "A");
            assert_eq!(outcomes[1].track.id, "B");
            assert!(matches!(outcomes[0].result, DownloadResult::Success(10)));
            assert!(matches!(outcomes[1].result, DownloadResult::Success(10)));
        }
        _ => panic!("the run should finish"),
    }
}

#[test]
fn run_failed_downloads_still_give_outcomes() {
    let tracks = vec![
        track("A", "https://a.example/previews/a.mp3"),
        track("B", "https://a.example/no-media-here"),
    ];
    let step = begin(config(), lookup(tracks, None, false));
    let (_, probes, done) = drive(step, vec![], "https://stream9.");
    assert_eq!(probes, 3);
    match done {
        RunStep::Finished(outcomes) => {
            assert_eq!(outcomes.len(), 2);
            assert_eq!(outcomes[0].track.id, "A");
            assert!(matches!(
                outcomes[0].result,
                DownloadResult::Failure(DownloadError::Status(404))
            ));
            assert_eq!(outcomes[1].track.id, "B");
            assert!(matches!(outcomes[1].result, DownloadResult::Failure(DownloadError::NoMedia)));
        }
        _ => panic!("the run should finish"),
    }
}

#[test]
fn run_follows_cursor_to_second_page() {
    let first = vec![track("A", "https://a.example/previews/a.mp3")];
    let second = Page {
        tracks: vec![track("B", "https://a.example/previews/b.mp3")],
        next_cursor: None,
        has_more: false,
    };
    let step = begin(config(), lookup(first, Some("c1"), true));
    let (cursors, _, done) = drive(step, vec![second], "https://stream1.");
    assert_eq!(cursors, vec!["c1"]);
    match done {
        RunStep::Finished(outcomes) => {
            let ids: Vec<&str> = outcomes.iter().map(|o| o.track.id.as_str()).collect();
            assert_eq!(ids, vec!["A", "B"]);
        }
        _ => panic!("the run should finish"),
    }
}

#[test]
fn run_failed_lookup_is_fatal() {
    let error = CrawlError::Api { stage: Stage::Lookup, status: 403, body: "denied".to_string() };
    match begin(config(), Err(error)) {
        RunStep::Failed(CrawlError::Api { stage, status, .. }) => {
            assert_eq!(stage, Stage::Lookup);
            assert_eq!(status, 403);
        }
        _ => panic!("a failed lookup ends the run"),
    }
}

#[test]
fn run_failed_page_is_fatal() {
    let first = vec![track("A", "https://a.example/previews/a.mp3")];
    match begin(config(), lookup(first, Some("c1"), true)) {
        RunStep::Fetch(p) => {
            let error = CrawlError::Transport { stage: Stage::Page, message: "dns".to_string() };
            assert!(matches!(p.resume(Err(error)), RunStep::Failed(CrawlError::Transport { .. })));
        }
        _ => panic!("the run should ask for the second page"),
    }
}

#[test]
fn run_empty_catalog_finishes_at_once() {
    assert!(matches!(
        begin(config(), lookup(vec![], None, false)),
        RunStep::Finished(o) if o.is_empty()
    ));
}

#[test]
fn run_gives_same_named_tracks_distinct_files() {
    let mut first = track("A", "https://a.example/previews/a.mp3");
    first.name = "Live".to_string();
    let mut second = track("B", "https://a.example/previews/b.mp3");
    second.name = "Live".to_string();
    let mut third = track("C", "https://a.example/previews/c.mp3");
    third.name = "Live".to_string();
    let mut step = begin(config(), lookup(vec![first, second, third], None, false));
    let mut files = Vec::new();
    loop {
        step = match step {
            RunStep::Probe(d) => d.step(ProbeEvent::Answered(200)),
            RunStep::Save(d) => {
                files.push(d.destination());
                d.step(ProbeEvent::Saved(1))
            }
            RunStep::Finished(o) => {
                assert_eq!(o.len(), 3);
                break;
            }
            _ => panic!("the run should only download"),
        };
    }
    assert_eq!(files, vec!["Live.m4a", "Live (1).m4a", "Live (2).m4a"]);
}

#[test]
fn run_failed_save_does_not_take_a_name() {
    let mut first = track("A", "https://a.example/previews/a.mp3");
    first.name = "Live".to_string();
    let mut second = track("B", "https://a.example/previews/b.mp3");
    second.name = "Live".to_string();
    let mut step = begin(config(), lookup(vec![first, second], None, false));
    let mut files = Vec::new();
    loop {
        step = match step {
            RunStep::Probe(d) => {
                if d.current.track.id == "A" {
                    d.step(ProbeEvent::Answered(404))
                } else {
                    d.step(ProbeEvent::Answered(200))
                }
            }
            RunStep::Save(d) => {
                files.push(d.destination());
                d.step(ProbeEvent::Saved(1))
            }
            RunStep::Finished(_) => break,
            _ => panic!("the run should only download"),
        };
    }
    assert_eq!(files, vec!["Live.m4a"]);
}
