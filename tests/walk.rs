use std::collections::HashMap;
use std::collections::HashSet;

use nautica_downloader::downloader::{Downloader, DownloaderBuilder};
use nautica_downloader::walk::{step, WalkAction, WalkEvent, WalkState};

struct Catalog {
    pages: HashMap<String, (Vec<&'static str>, Option<&'static str>)>,
    broken: HashSet<&'static str>,
}

struct Run {
    downloads: Vec<String>,
    finished: bool,
}

/// Drives a walk against an in-memory catalog and sync store.
fn run(downloader: &Downloader, catalog: &Catalog, store: &mut HashSet<String>) -> Run {
    let (mut state, mut action) = downloader.start_walk();
    let mut downloads = Vec::new();
    loop {
        let event = match &action {
            WalkAction::FetchPage(url) => match catalog.pages.get(url) {
                Some((ids, next)) => WalkEvent::PageLoaded {
                    ids: ids.iter().map(|s| s.to_string()).collect(),
                    next: next.map(|s| s.to_string()),
                },
                None => WalkEvent::PageFailed,
            },
            WalkAction::CheckRecord(id) => WalkEvent::RecordChecked(store.contains(id)),
            WalkAction::Download(id) => {
                downloads.push(id.clone());
                WalkEvent::DownloadFinished(!catalog.broken.contains(id.as_str()))
            }
            WalkAction::SaveRecord(id) => {
                store.insert(id.clone());
                WalkEvent::RecordSaved(true)
            }
            WalkAction::Finish => return Run { downloads, finished: true },
            WalkAction::Abort => return Run { downloads, finished: false },
        };
        let (s, a) = step(state, event);
        state = s;
        action = a;
    }
}

fn downloader() -> Downloader {
    Downloader::builder().base_url("http://mirror".to_string()).build()
}

fn catalog() -> Catalog {
    let mut pages = HashMap::new();
    pages.insert(
        "http://mirror/app/songs?sort=uploaded".to_string(),
        (vec!["s9", "s8", "s7"], Some("http://mirror/app/songs?page=2")),
    );
    pages.insert("http://mirror/app/songs?page=2".to_string(), (vec!["s6", "s5"], None));
    Catalog { pages, broken: HashSet::new() }
}

#[test]
fn first_run_downloads_every_item_in_order() {
    let mut store = HashSet::new();
    let r = run(&downloader(), &catalog(), &mut store);
    assert!(r.finished);
    assert_eq!(r.downloads, vec!["s9", "s8", "s7", "s6", "s5"]);
    assert_eq!(store.len(), 5);
}

#[test]
fn walk_stops_at_first_recorded_item() {
    let mut store: HashSet<String> = ["s7".to_string()].into_iter().collect();
    let r = run(&downloader(), &catalog(), &mut store);
    assert!(r.finished);
    assert_eq!(r.downloads, vec!["s9", "s8"]);
}

#[test]
fn second_run_downloads_nothing() {
    let mut store = HashSet::new();
    let first = run(&downloader(), &catalog(), &mut store);
    assert_eq!(first.downloads.len(), 5);
    let second = run(&downloader(), &catalog(), &mut store);
    assert!(second.finished);
    assert!(second.downloads.is_empty());
}

#[test]
fn failed_download_is_passed_over_and_retried_later() {
    let mut cat = catalog();
    cat.broken.insert("s8");
    let mut store = HashSet::new();
    let r = run(&downloader(), &cat, &mut store);
    assert!(r.finished);
    assert_eq!(r.downloads, vec!["s9", "s8", "s7", "s6", "s5"]);
    assert!(!store.contains("s8"));
    // The newest item is recorded, so the next walk stops at once.
    let again = run(&downloader(), &cat, &mut store);
    assert!(again.downloads.is_empty());
}

#[test]
fn page_failure_aborts_the_walk() {
    let mut cat = catalog();
    cat.pages.remove("http://mirror/app/songs?page=2");
    let mut store = HashSet::new();
    let r = run(&downloader(), &cat, &mut store);
    assert!(!r.finished);
    assert_eq!(r.downloads, vec!["s9", "s8", "s7"]);
}

#[test]
fn empty_page_follows_next_link() {
    let (s, a) = step(
        WalkState::Fetching,
        WalkEvent::PageLoaded { ids: Vec::new(), next: Some("u2".to_string()) },
    );
    assert!(matches!(s, WalkState::Fetching));
    assert!(matches!(a, WalkAction::FetchPage(ref u) if u == "u2"));
    let (s, a) = step(s, WalkEvent::PageLoaded { ids: Vec::new(), next: None });
    assert!(matches!(s, WalkState::Done));
    assert!(matches!(a, WalkAction::Finish));
}

#[test]
fn unexpected_event_fails_the_walk() {
    let (s, a) = step(WalkState::Fetching, WalkEvent::RecordChecked(true));
    assert!(matches!(s, WalkState::Failed));
    assert!(matches!(a, WalkAction::Abort));
    let (s, a) = step(WalkState::Done, WalkEvent::PageFailed);
    assert!(matches!(s, WalkState::Done));
    assert!(matches!(a, WalkAction::Finish));
}

#[test]
fn failed_record_write_aborts() {
    let (s, _) = step(
        WalkState::Fetching,
        WalkEvent::PageLoaded { ids: vec!["a".to_string()], next: None },
    );
    let (s, _) = step(s, WalkEvent::RecordChecked(false));
    let (s, a) = step(s, WalkEvent::DownloadFinished(true));
    assert!(matches!(a, WalkAction::SaveRecord(ref id) if id == "a"));
    let (s, a) = step(s, WalkEvent::RecordSaved(false));
    assert!(matches!(s, WalkState::Failed));
    assert!(matches!(a, WalkAction::Abort));
}

#[test]
fn builder_defaults_and_setters() {
    let b = DownloaderBuilder::default();
    assert_eq!(b.dest, "nautica");
    assert_eq!(b.base_url, "https://ksm.dev");
    let d = Downloader::builder().dest("/tmp/charts".to_string()).base_url("http://x".to_string()).build();
    assert_eq!(d.dest, "/tmp/charts");
    assert_eq!(d.base_url, "http://x");
}

#[test]
fn server_urls() {
    let d = Downloader::builder().build();
    assert_eq!(d.listing_url(), "https://ksm.dev/app/songs?sort=uploaded");
    assert_eq!(
        d.download_url("5441d590-4d43-11ee-a602-d95b1bfc2e6d"),
        "https://ksm.dev/songs/5441d590-4d43-11ee-a602-d95b1bfc2e6d/download"
    );
}
