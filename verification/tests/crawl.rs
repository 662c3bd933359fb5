use std::collections::HashMap;

use mirror_caddy::crawl::{CrawlError, Crawler};
use mirror_caddy::listing::{classify, FileTask, RemoteEntry, WorkItem};

fn entry(name: &str, url: &str, is_dir: bool) -> RemoteEntry {
    RemoteEntry { name: Some(name.to_string()), url: Some(url.to_string()), is_dir }
}

fn task(path: &str, url: &str) -> FileTask {
    FileTask { path: path.to_string(), url: url.to_string() }
}

/// Runs a crawl to its end against listings held in memory, claiming work
/// for every idle worker before completing the claimed directories in
/// turn. A URL without a listing stands for a fetch that fails.
fn crawl(
    server: &HashMap<String, Vec<(String, String, bool)>>,
    base: &str,
    workers: usize,
) -> (Vec<FileTask>, Vec<String>) {
    let mut crawler = Crawler::new(base, workers);
    let mut failed: Vec<String> = Vec::new();
    let mut rounds = 0;
    while !crawler.is_finished() {
        rounds += 1;
        assert!(rounds < 10_000, "the crawl does not end");
        let mut claimed: Vec<(usize, WorkItem)> = Vec::new();
        for w in 0..workers {
            if let Some(item) = crawler.claim(w) {
                claimed.push((w, item));
            }
        }
        assert!(!claimed.is_empty(), "open queue, but nothing to claim");
        for (w, item) in claimed {
            let listing = server.get(&item.url).map(|entries| {
                entries
                    .iter()
                    .map(|(n, u, d)| entry(n, u, *d))
                    .collect::<Vec<RemoteEntry>>()
            });
            if listing.is_none() {
                failed.push(item.url.clone());
            }
            crawler.complete(w, listing).unwrap();
        }
    }
    assert_eq!(crawler.in_flight(), 0);
    (crawler.into_files(), failed)
}

fn sorted(mut files: Vec<FileTask>) -> Vec<(String, String)> {
    let mut v: Vec<(String, String)> = files.drain(..).map(|f| (f.path, f.url)).collect();
    v.sort();
    v
}

fn sample_tree() -> HashMap<String, Vec<(String, String, bool)>> {
    let mut server = HashMap::new();
    server.insert(
        "http://h/".to_string(),
        vec![
            ("..".to_string(), "../".to_string(), true),
            ("docs/".to_string(), "./docs/".to_string(), true),
            ("readme.txt".to_string(), "./readme.txt".to_string(), false),
            ("img".to_string(), "./img".to_string(), true),
        ],
    );
    server.insert(
        "http://h/docs/".to_string(),
        vec![
            ("a.md".to_string(), "./a.md".to_string(), false),
            ("deep/".to_string(), "./deep/".to_string(), true),
        ],
    );
    server.insert(
        "http://h/docs/deep/".to_string(),
        vec![("x.bin".to_string(), "./x.bin".to_string(), false)],
    );
    server.insert(
        "http://h/img/".to_string(),
        vec![("logo.png".to_string(), "logo.png".to_string(), false)],
    );
    server
}

#[test]
fn classify_builds_paths_and_urls() {
    let dir = WorkItem { url: "http://h/docs/".to_string(), prefix: "docs/".to_string() };
    let entries = vec![
        entry("sub/", "./sub/", true),
        entry("a.txt", "./a.txt", false),
        entry("b.txt", "b.txt", false),
    ];
    let (dirs, files) = classify(&dir, &entries);
    assert_eq!(
        dirs,
        vec![WorkItem { url: "http://h/docs/sub/".to_string(), prefix: "docs/sub/".to_string() }]
    );
    assert_eq!(
        files,
        vec![task("docs/a.txt", "http://h/docs/a.txt"), task("docs/b.txt", "http://h/docs/b.txt")]
    );
}

#[test]
fn classify_skips_dot_names_and_empty_names() {
    let dir = WorkItem { url: "http://h/".to_string(), prefix: String::new() };
    let entries = vec![
        entry(".", "./", true),
        entry("..", "../", true),
        entry("../", "../", true),
        entry("", "./x", false),
        entry("///", "./y", false),
        RemoteEntry { name: None, url: Some("./z".to_string()), is_dir: false },
    ];
    let (dirs, files) = classify(&dir, &entries);
    assert!(dirs.is_empty());
    assert!(files.is_empty());
}

#[test]
fn classify_reads_a_missing_url_as_empty() {
    let dir = WorkItem { url: "http://h/".to_string(), prefix: "p/".to_string() };
    let entries = vec![RemoteEntry { name: Some("f".to_string()), url: None, is_dir: false }];
    let (_, files) = classify(&dir, &entries);
    assert_eq!(files, vec![task("p/f", "http://h/")]);
}

#[test]
fn classify_strips_only_one_leading_dot_slash() {
    let dir = WorkItem { url: "http://h/".to_string(), prefix: String::new() };
    let entries = vec![entry("f", "././f", false), entry("g", ".g", false)];
    let (_, files) = classify(&dir, &entries);
    assert_eq!(files, vec![task("f", "http://h/./f"), task("g", "http://h/.g")]);
}

#[test]
fn new_crawl_offers_the_root() {
    let mut crawler = Crawler::new("http://h", 2);
    assert_eq!(crawler.workers(), 2);
    assert_eq!(crawler.in_flight(), 1);
    assert_eq!(crawler.discovered(), 0);
    assert!(!crawler.is_finished());
    let item = crawler.claim(0).unwrap();
    assert_eq!(item, WorkItem { url: "http://h/".to_string(), prefix: String::new() });
    assert_eq!(crawler.claim(1), None);
}

#[test]
fn claim_is_refused_for_busy_and_unknown_workers() {
    let mut crawler = Crawler::new("http://h", 1);
    assert_eq!(crawler.claim(1), None);
    assert!(crawler.claim(0).is_some());
    assert_eq!(crawler.claim(0), None);
}

#[test]
fn claimed_urls_end_with_a_slash() {
    let mut crawler = Crawler::new("http://h", 1);
    crawler.claim(0).unwrap();
    let closed = crawler.complete(0, Some(vec![entry("img", "./img", true)])).unwrap();
    assert!(!closed);
    let item = crawler.claim(0).unwrap();
    assert_eq!(item, WorkItem { url: "http://h/img/".to_string(), prefix: "img/".to_string() });
}

#[test]
fn completion_by_an_idle_worker_is_refused() {
    let mut crawler = Crawler::new("http://h", 2);
    assert_eq!(crawler.complete(0, None), Err(CrawlError::Idle));
    assert_eq!(crawler.complete(7, Some(Vec::new())), Err(CrawlError::Idle));
    assert_eq!(crawler.in_flight(), 1);
    assert!(!crawler.is_finished());
}

#[test]
fn counter_gains_subdirectories_and_loses_the_finished_one() {
    let mut crawler = Crawler::new("http://h", 3);
    crawler.claim(0).unwrap();
    let closed = crawler
        .complete(
            0,
            Some(vec![entry("a", "./a/", true), entry("b", "./b/", true), entry("f", "./f", false)]),
        )
        .unwrap();
    assert!(!closed);
    assert_eq!(crawler.in_flight(), 2);
    assert_eq!(crawler.discovered(), 1);
    crawler.claim(1).unwrap();
    crawler.claim(2).unwrap();
    assert_eq!(crawler.complete(1, Some(Vec::new())), Ok(false));
    assert_eq!(crawler.in_flight(), 1);
    assert!(!crawler.is_finished());
    assert_eq!(crawler.complete(2, None), Ok(true));
    assert_eq!(crawler.in_flight(), 0);
    assert!(crawler.is_finished());
}

#[test]
fn the_queue_closes_exactly_once() {
    let mut crawler = Crawler::new("http://h", 2);
    crawler.claim(0).unwrap();
    assert_eq!(crawler.complete(0, Some(Vec::new())), Ok(true));
    assert!(crawler.is_finished());
    assert_eq!(crawler.claim(0), None);
    assert_eq!(crawler.claim(1), None);
    assert_eq!(crawler.complete(0, Some(Vec::new())), Err(CrawlError::Idle));
    assert!(crawler.is_finished());
}

#[test]
fn failed_root_listing_ends_the_crawl_with_no_files() {
    let server = HashMap::new();
    let (files, failed) = crawl(&server, "http://h", 5);
    assert!(files.is_empty());
    assert_eq!(failed, vec!["http://h/".to_string()]);
}

#[test]
fn crawl_finds_every_file_for_any_worker_count() {
    let server = sample_tree();
    let expected = vec![
        ("docs/a.md".to_string(), "http://h/docs/a.md".to_string()),
        ("docs/deep/x.bin".to_string(), "http://h/docs/deep/x.bin".to_string()),
        ("img/logo.png".to_string(), "http://h/img/logo.png".to_string()),
        ("readme.txt".to_string(), "http://h/readme.txt".to_string()),
    ];
    for workers in [1usize, 5, 50] {
        let (files, failed) = crawl(&server, "http://h", workers);
        assert!(failed.is_empty());
        assert_eq!(sorted(files), expected);
    }
}

#[test]
fn failed_branch_is_left_out_and_the_crawl_still_ends() {
    let mut server = HashMap::new();
    server.insert(
        "http://h/".to_string(),
        vec![
            ("good/".to_string(), "./good/".to_string(), true),
            ("broken/".to_string(), "./broken/".to_string(), true),
        ],
    );
    server.insert(
        "http://h/good/".to_string(),
        vec![
            ("one.txt".to_string(), "./one.txt".to_string(), false),
            ("two.txt".to_string(), "./two.txt".to_string(), false),
        ],
    );
    for workers in [1usize, 5] {
        let (files, failed) = crawl(&server, "http://h", workers);
        assert_eq!(
            sorted(files),
            vec![
                ("good/one.txt".to_string(), "http://h/good/one.txt".to_string()),
                ("good/two.txt".to_string(), "http://h/good/two.txt".to_string()),
            ]
        );
        assert_eq!(failed, vec!["http://h/broken/".to_string()]);
    }
}

#[test]
fn found_paths_have_proper_segments() {
    let (files, _) = crawl(&sample_tree(), "http://h", 5);
    assert_eq!(files.len(), 4);
    for file in files {
        for segment in file.path.split('/') {
            assert!(!segment.is_empty() && segment != "." && segment != "..", "in {}", file.path);
        }
    }
}
