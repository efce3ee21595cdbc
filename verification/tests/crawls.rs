use std::collections::{HashMap, VecDeque};

use vdovitsa::coordinator::{CoordinatorAction, TargetCoordinator};
use vdovitsa::crawler::{CrawlAction, Vdovitsa, USER_AGENT};
use vdovitsa::error::CrawlerError;
use vdovitsa::host::Host;
use vdovitsa::link::normalize;
use vdovitsa::target::{CrawlTarget, TargetSet};
use vdovitsa::worker::{UrlWorker, WorkerAction, WorkerEvent};

fn domain(name: &str) -> Host {
    Host::Domain(name.to_string())
}

fn target(name: &str) -> CrawlTarget {
    CrawlTarget::new(domain(name))
}

fn targets(names: &[&str]) -> TargetSet {
    let mut set = TargetSet::new();
    for name in names {
        set.insert(target(name));
    }
    set
}

fn crawler(names: &[&str]) -> Vdovitsa {
    Vdovitsa::new(targets(names)).unwrap()
}

/// A page of a pretend web: its content type and its text.
struct Page {
    content_type: Option<String>,
    body: Option<String>,
}

fn html(body: &str) -> Page {
    Page { content_type: Some("text/html; charset=utf-8".to_string()), body: Some(body.to_string()) }
}

/// What a pretend crawl did.
struct Trace {
    probed: Vec<String>,
    fetched: Vec<String>,
    coordinators: Vec<Host>,
    completions: usize,
}

/// Runs one worker against the pretend web, whose pages are found by key.
fn run_worker(site: &HashMap<String, Page>, url: String, trace: &mut Trace) -> Option<Vec<String>> {
    let (mut worker, mut action) = UrlWorker::start(url);
    loop {
        let event = match action {
            WorkerAction::Probe(url) => {
                trace.probed.push(url.clone());
                match site.get(&normalize(&url)) {
                    Some(page) => WorkerEvent::Headers(page.content_type.clone()),
                    None => WorkerEvent::ProbeFailed,
                }
            }
            WorkerAction::Fetch(url) => {
                trace.fetched.push(url.clone());
                match site.get(&normalize(&url)).and_then(|page| page.body.clone()) {
                    Some(body) => WorkerEvent::Body(body),
                    None => WorkerEvent::FetchFailed,
                }
            }
            WorkerAction::Send(links) => return Some(links),
            WorkerAction::Stop => return None,
        };
        action = worker.step(event);
    }
}

/// Crawls one host of the pretend web. A worker runs only while the inbox is
/// empty. With `reap_late` the worker that sent a batch still counts as at
/// work when the batch is taken in.
fn crawl_target(
    site: &HashMap<String, Page>,
    host: Host,
    reap_late: bool,
    trace: &mut Trace,
) -> Vec<Host> {
    let (mut coordinator, first) = TargetCoordinator::start(host);
    let mut waiting: VecDeque<String> = VecDeque::new();
    let mut inbox: VecDeque<Vec<String>> = VecDeque::new();
    let mut open = true;
    let mut reported = Vec::new();
    let mut pending = vec![first];
    loop {
        for action in pending.drain(..) {
            match action {
                CoordinatorAction::Close => open = false,
                CoordinatorAction::Fetch(url) => waiting.push_back(url),
                CoordinatorAction::Report(host) => reported.push(host),
            }
        }
        if let Some(batch) = inbox.pop_front() {
            let idle = !reap_late && waiting.is_empty();
            pending = coordinator.on_links(idle, batch);
        } else if let Some(url) = waiting.pop_front() {
            if let Some(batch) = run_worker(site, url, trace) {
                if open {
                    inbox.push_back(batch);
                }
            }
        } else {
            return reported;
        }
    }
}

/// Crawls the pretend web from `seeds`, one coordinator at a time.
fn crawl(site: &HashMap<String, Page>, seeds: &[&str], reap_late: bool) -> Trace {
    let mut trace = Trace { probed: vec![], fetched: vec![], coordinators: vec![], completions: 0 };
    let mut crawler = crawler(seeds);
    let mut waiting: VecDeque<CrawlTarget> = VecDeque::new();
    let mut inbox: VecDeque<CrawlTarget> = VecDeque::new();
    let mut open = true;
    let mut pending = crawler.start();
    loop {
        for action in pending.drain(..) {
            match action {
                CrawlAction::Close => open = false,
                CrawlAction::Spawn(target) => waiting.push_back(target),
            }
        }
        if let Some(candidate) = inbox.pop_front() {
            let idle = !reap_late && waiting.is_empty();
            pending = crawler.on_target(idle, candidate);
        } else if let Some(target) = waiting.pop_front() {
            trace.coordinators.push(target.host().clone());
            for host in crawl_target(site, target.host().clone(), reap_late, &mut trace) {
                if open {
                    inbox.push_back(CrawlTarget::new(host));
                }
            }
        } else {
            trace.completions += 1;
            return trace;
        }
    }
}

fn small_web() -> HashMap<String, Page> {
    let mut site = HashMap::new();
    site.insert(
        "example.com".to_string(),
        html(
            "<a href=\"/about\">about</a>\
             <a href=\"https://sibling.example.com/\">sibling</a>\
             <a href=\"https://unrelated.org\">elsewhere</a>\
             <a href=\"ftp://x.com\">files</a>",
        ),
    );
    site.insert("example.com/about".to_string(), html("<a href=\"/about/team\">team</a>"));
    site.insert("example.com/about/team".to_string(), html("<p>us</p>"));
    site.insert("sibling.example.com".to_string(), html("<a href=\"https://example.com/\">back</a>"));
    site.insert("unrelated.org".to_string(), html("<a href=\"/x\">x</a>"));
    site.insert("x.com".to_string(), html("<a href=\"/y\">y</a>"));
    site
}

#[test]
fn the_default_error_has_the_default_message() {
    assert_eq!(CrawlerError::new().message(), "Crawl Target Error");
}

#[test]
fn an_error_carries_its_message() {
    assert_eq!(CrawlerError::with_message("no client").message(), "no client");
    assert_eq!(CrawlerError::with_message("").message(), "");
    assert_eq!(CrawlerError::with_message("a"), CrawlerError::with_message("a"));
    assert_ne!(CrawlerError::with_message("a"), CrawlerError::new());
}

#[test]
fn a_target_is_its_host() {
    let target = CrawlTarget::new(Host::Ipv4(7));
    assert_eq!(target.host(), &Host::Ipv4(7));
    assert_eq!(target, CrawlTarget::new(Host::Ipv4(7)));
    assert_ne!(target, CrawlTarget::new(Host::Ipv6(7)));
    assert_eq!(target.clone(), target);
}

#[test]
fn a_new_target_set_is_empty() {
    let set = TargetSet::new();
    assert!(set.is_empty());
    assert_eq!(set.len(), 0);
    assert!(!set.contains(&target("example.com")));
    assert_eq!(set.to_vec(), vec![]);
}

#[test]
fn a_target_set_holds_each_target_once_in_order() {
    let mut set = TargetSet::new();
    assert!(set.insert(target("b.example.com")));
    assert!(set.insert(target("a.example.com")));
    assert!(!set.insert(target("b.example.com")));
    assert!(set.insert(CrawlTarget::new(Host::Ipv4(1))));
    assert!(!set.insert(CrawlTarget::new(Host::Ipv4(1))));
    assert!(set.insert(CrawlTarget::new(Host::Ipv6(1))));
    assert_eq!(set.len(), 4);
    assert!(!set.is_empty());
    assert!(set.contains(&target("a.example.com")));
    assert!(!set.contains(&target("example.com")));
    assert_eq!(
        set.to_vec(),
        vec![
            target("b.example.com"),
            target("a.example.com"),
            CrawlTarget::new(Host::Ipv4(1)),
            CrawlTarget::new(Host::Ipv6(1)),
        ]
    );
}

#[test]
fn a_crawler_keeps_its_first_targets() {
    let crawler = crawler(&["example.com", "example.org"]);
    assert_eq!(crawler.crawl_targets().to_vec(), vec![target("example.com"), target("example.org")]);
}

#[test]
fn a_crawler_can_be_made_without_targets() {
    let crawler = Vdovitsa::new(TargetSet::new()).unwrap();
    assert!(crawler.crawl_targets().is_empty());
    assert_eq!(crawler.start(), vec![]);
}

#[test]
fn a_crawler_is_made_from_a_client_that_was_built() {
    let built = reqwest::Client::builder().user_agent(USER_AGENT).build();
    assert!(built.is_ok());
    let made = Vdovitsa::with_client(targets(&["example.com"]), built);
    match made {
        Ok(crawler) => assert_eq!(crawler.crawl_targets().to_vec(), vec![target("example.com")]),
        Err(error) => panic!("no crawler: {}", error.message()),
    }
}

#[test]
fn a_client_that_cannot_be_built_gives_the_construction_error() {
    let built = reqwest::Client::builder().user_agent("two\nlines").build();
    assert!(built.is_err());
    let made = Vdovitsa::with_client(targets(&["example.com"]), built);
    match made {
        Ok(_) => panic!("a crawler without a client"),
        Err(error) => assert_eq!(error.message(), "Failed to initialse web client."),
    }
}

#[test]
fn the_user_agent_names_the_crawler() {
    assert_eq!(USER_AGENT, "vdovitsa/0.1.0");
}

#[test]
fn a_crawl_starts_a_coordinator_for_each_first_target() {
    let crawler = crawler(&["example.com", "example.org"]);
    assert_eq!(
        crawler.start(),
        vec![CrawlAction::Spawn(target("example.com")), CrawlAction::Spawn(target("example.org"))]
    );
}

#[test]
fn a_new_candidate_becomes_a_target_with_a_coordinator() {
    let mut crawler = crawler(&["example.com"]);
    let actions = crawler.on_target(false, target("sibling.example.com"));
    assert_eq!(actions, vec![CrawlAction::Spawn(target("sibling.example.com"))]);
    assert_eq!(
        crawler.crawl_targets().to_vec(),
        vec![target("example.com"), target("sibling.example.com")]
    );
}

#[test]
fn a_seed_that_is_reported_later_gets_no_second_coordinator() {
    let mut crawler = crawler(&["example.com"]);
    assert_eq!(crawler.start(), vec![CrawlAction::Spawn(target("example.com"))]);
    assert_eq!(crawler.on_target(false, target("example.com")), vec![]);
    assert_eq!(crawler.crawl_targets().len(), 1);
}

#[test]
fn a_candidate_that_is_reported_twice_gets_one_coordinator() {
    let mut crawler = crawler(&["example.com"]);
    let first = crawler.on_target(false, target("b.example.com"));
    let second = crawler.on_target(false, target("b.example.com"));
    assert_eq!(first, vec![CrawlAction::Spawn(target("b.example.com"))]);
    assert_eq!(second, vec![]);
    assert_eq!(crawler.crawl_targets().len(), 2);
}

#[test]
fn the_crawler_closes_its_inbox_first_when_no_coordinator_is_left() {
    let mut crawler = crawler(&["example.com"]);
    assert_eq!(
        crawler.on_target(true, target("b.example.com")),
        vec![CrawlAction::Close, CrawlAction::Spawn(target("b.example.com"))]
    );
    assert_eq!(crawler.on_target(true, target("b.example.com")), vec![CrawlAction::Close]);
    assert_eq!(crawler.on_target(true, target("example.com")), vec![CrawlAction::Close]);
}

#[test]
fn a_small_web_is_crawled_to_the_end() {
    let trace = crawl(&small_web(), &["example.com"], false);
    assert_eq!(trace.coordinators, vec![domain("example.com"), domain("sibling.example.com")]);
    assert_eq!(
        trace.fetched,
        vec!["https://example.com", "https://example.com/about", "https://sibling.example.com"]
    );
    assert_eq!(trace.probed, trace.fetched);
    assert_eq!(trace.completions, 1);
}

#[test]
fn with_late_reaping_the_deeper_pages_are_reached_too() {
    let trace = crawl(&small_web(), &["example.com"], true);
    assert_eq!(trace.coordinators, vec![domain("example.com"), domain("sibling.example.com")]);
    assert_eq!(
        trace.fetched,
        vec![
            "https://example.com",
            "https://example.com/about",
            "https://example.com/about/team",
            "https://sibling.example.com",
        ]
    );
    assert_eq!(trace.completions, 1);
}

#[test]
fn unrelated_hosts_and_other_schemes_are_never_asked_for() {
    for reap_late in [false, true] {
        let trace = crawl(&small_web(), &["example.com"], reap_late);
        for url in &trace.probed {
            assert!(!url.contains("unrelated.org"), "{}", url);
            assert!(!url.contains("x.com"), "{}", url);
            assert!(!url.starts_with("ftp"), "{}", url);
        }
        assert!(!trace.coordinators.contains(&domain("unrelated.org")));
        assert!(!trace.coordinators.contains(&domain("x.com")));
    }
}

#[test]
fn no_page_is_asked_for_twice_in_a_crawl() {
    let mut site = small_web();
    site.insert(
        "example.com/about".to_string(),
        html("<a href=\"/about\">self</a><a href=\"/about/\">self</a><a href=\"/about/team\">team</a>"),
    );
    site.insert(
        "example.com/about/team".to_string(),
        html("<a href=\"/about\">up</a><a href=\"/about/team\">self</a>"),
    );
    let trace = crawl(&site, &["example.com"], true);
    let mut seen = trace.probed.clone();
    seen.sort();
    seen.dedup();
    assert_eq!(seen.len(), trace.probed.len());
}

#[test]
fn a_host_whose_pages_have_no_links_is_crawled_and_done() {
    let mut site = HashMap::new();
    site.insert("quiet.example".to_string(), html("<p>nothing to follow</p>"));
    for reap_late in [false, true] {
        let trace = crawl(&site, &["quiet.example"], reap_late);
        assert_eq!(trace.fetched, vec!["https://quiet.example"]);
        assert_eq!(trace.coordinators, vec![domain("quiet.example")]);
        assert_eq!(trace.completions, 1);
    }
}

#[test]
fn a_host_that_serves_json_is_probed_and_left() {
    let mut site = HashMap::new();
    site.insert(
        "api.example".to_string(),
        Page {
            content_type: Some("application/json".to_string()),
            body: Some("<a href=\"/next\">next</a>".to_string()),
        },
    );
    site.insert("api.example/next".to_string(), html("<p>hidden</p>"));
    let trace = crawl(&site, &["api.example"], true);
    assert_eq!(trace.probed, vec!["https://api.example"]);
    assert_eq!(trace.fetched, Vec::<String>::new());
    assert_eq!(trace.completions, 1);
}

#[test]
fn a_host_that_cannot_be_reached_is_left() {
    let site = HashMap::new();
    let trace = crawl(&site, &["offline.example"], false);
    assert_eq!(trace.probed, vec!["https://offline.example"]);
    assert_eq!(trace.fetched, Vec::<String>::new());
    assert_eq!(trace.coordinators, vec![domain("offline.example")]);
    assert_eq!(trace.completions, 1);
}

#[test]
fn a_target_that_is_seed_and_discovery_is_crawled_once() {
    let mut site = HashMap::new();
    site.insert("a.example.com".to_string(), html("<a href=\"https://b.example.com/\">b</a>"));
    site.insert("b.example.com".to_string(), html("<a href=\"https://a.example.com/\">a</a>"));
    let trace = crawl(&site, &["a.example.com", "b.example.com"], true);
    assert_eq!(trace.coordinators, vec![domain("a.example.com"), domain("b.example.com")]);
    assert_eq!(trace.fetched, vec!["https://a.example.com", "https://b.example.com"]);
    assert_eq!(trace.completions, 1);
}
