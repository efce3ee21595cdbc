//! The work on one URL: probe it, fetch it where it is an HTML page, and
//! send the links found on it.
//!
//! The worker does no I/O of its own. It is told what came of each request
//! and answers with what to do next. A failed request, a page that is not
//! HTML and a page without links all end the same way: the worker stops and
//! sends nothing.

use crate::text::{has_prefix, views};
use vstd::hash_set::StringHashSet;
use vstd::prelude::*;

verus! {

/// The attribute values that `scraper` finds in a document: nothing where
/// `Selector::parse` rejects `selector`; else, for each element that
/// `Html::select` yields from the result of `Html::parse_document`, in the
/// order in which it yields them, what `Element::attr` gives for `attribute`.
pub uninterp spec fn selected_attributes(
    document: Seq<char>,
    selector: Seq<char>,
    attribute: Seq<char>,
) -> Option<Seq<Option<Seq<char>>>>;

/// The view of an optional string.
pub open spec fn optional_text(value: Option<String>) -> Option<Seq<char>> {
    match value {
        Some(text) => Some(text@),
        None => None,
    }
}

/// The views of a list of optional strings.
pub open spec fn optional_texts(values: Seq<Option<String>>) -> Seq<Option<Seq<char>>> {
    values.map_values(|value: Option<String>| optional_text(value))
}

/// The view of what a search for attributes returned.
pub open spec fn found_attributes(found: Option<Vec<Option<String>>>) -> Option<
    Seq<Option<Seq<char>>>,
> {
    match found {
        Some(values) => Some(optional_texts(values@)),
        None => None,
    }
}

/// The values that are present in `values`, each once, in the order in
/// which they first appear.
pub open spec fn distinct_values(values: Seq<Option<Seq<char>>>) -> Seq<Seq<char>>
    decreases values.len(),
{
    if values.len() == 0 {
        Seq::empty()
    } else {
        let before = distinct_values(values.drop_last());
        match values.last() {
            Some(value) => if before.contains(value) {
                before
            } else {
                before.push(value)
            },
            None => before,
        }
    }
}

/// The links of a page, given the `href` values of its anchors.
pub open spec fn page_links(found: Option<Seq<Option<Seq<char>>>>) -> Seq<Seq<char>> {
    match found {
        Some(values) => distinct_values(values),
        None => Seq::empty(),
    }
}

/// The links of the page whose text is `body`.
pub open spec fn links_of(body: Seq<char>) -> Seq<Seq<char>> {
    page_links(selected_attributes(body, "a"@, "href"@))
}

/// Whether a `Content-Type` header announces an HTML page. A header that is
/// absent or unreadable does not.
pub open spec fn announces_html(content_type: Option<Seq<char>>) -> bool {
    match content_type {
        Some(value) => "text/html"@.is_prefix_of(value),
        None => false,
    }
}

/// The distinct values hold each present value, and hold it once.
pub proof fn lemma_distinct_values(values: Seq<Option<Seq<char>>>)
    ensures
        distinct_values(values).no_duplicates(),
        forall|value: Seq<char>|
            distinct_values(values).contains(value) <==> values.contains(Some(value)),
    decreases values.len(),
{
    if values.len() > 0 {
        let init = values.drop_last();
        lemma_distinct_values(init);
        let before = distinct_values(init);
        let after = distinct_values(values);
        assert forall|value: Seq<char>| after.contains(value) <==> values.contains(
            Some(value),
        ) by {
            if values.contains(Some(value)) {
                let i = choose|i: int| 0 <= i < values.len() && values[i] == Some(value);
                if i < init.len() {
                    assert(init[i] == Some(value));
                    assert(before.contains(value));
                    let j = choose|j: int| 0 <= j < before.len() && before[j] == value;
                    assert(after[j] == value);
                } else if !before.contains(value) {
                    assert(after[before.len() as int] == value);
                }
            }
            if after.contains(value) {
                let j = choose|j: int| 0 <= j < after.len() && after[j] == value;
                if j < before.len() && before[j] == value {
                    assert(before.contains(value));
                    let i = choose|i: int| 0 <= i < init.len() && init[i] == Some(value);
                    assert(values[i] == Some(value));
                } else {
                    assert(values.last() == Some(value));
                }
            }
        }
    }
}

/// Runs `scraper` on `document`: `Selector::parse` on `selector`, then
/// `Html::parse_document`, `Html::select` and, on each element,
/// `Element::attr` for `attribute`. The result is named
/// [`selected_attributes`]; nothing is claimed of what it holds.
#[verifier::external_body]
fn select_attributes(document: &str, selector: &str, attribute: &str) -> (found: Option<
    Vec<Option<String>>,
>)
    ensures
        found_attributes(found) == selected_attributes(document@, selector@, attribute@),
{
    let selector = scraper::Selector::parse(selector).ok()?;
    let html = scraper::Html::parse_document(document);
    Some(html.select(&selector).map(|e| e.value().attr(attribute).map(String::from)).collect())
}

/// Keeps the values that are present, each once, in the order in which
/// they first appear.
pub fn collect_links(values: Vec<Option<String>>) -> (links: Vec<String>)
    ensures
        views(links@) == distinct_values(optional_texts(values@)),
{
    let ghost all = optional_texts(values@);
    let mut seen = StringHashSet::new();
    let mut links: Vec<String> = Vec::new();
    let mut i: usize = 0;
    while i < values.len()
        invariant
            i <= values.len(),
            all == optional_texts(values@),
            views(links@) == distinct_values(all.take(i as int)),
            forall|value: Seq<char>| seen@.contains(value) <==> views(links@).contains(value),
        decreases values.len() - i,
    {
        proof {
            let prefix = all.take(i + 1);
            assert(prefix.drop_last() == all.take(i as int));
        }
        let ghost before = views(links@);
        match &values[i] {
            Some(text) => {
                if !seen.contains(text.as_str()) {
                    seen.insert(text.clone());
                    links.push(text.clone());
                    assert(views(links@) =~= before.push(text@));
                    assert forall|value: Seq<char>| seen@.contains(value) <==> views(
                        links@,
                    ).contains(value) by {
                        if before.contains(value) {
                            let j = choose|j: int| 0 <= j < before.len() && before[j] == value;
                            assert(views(links@)[j] == value);
                        }
                        if value == text@ {
                            assert(views(links@)[before.len() as int] == value);
                        }
                    }
                }
            },
            None => {},
        }
        i += 1;
    }
    assert(all.take(i as int) == all);
    links
}

/// The links of a page, given what the search for the `href` values of its
/// anchors returned.
pub fn links_from(found: Option<Vec<Option<String>>>) -> (links: Vec<String>)
    ensures
        views(links@) == page_links(found_attributes(found)),
{
    match found {
        Some(values) => collect_links(values),
        None => Vec::new(),
    }
}

/// The links of the page whose text is `body`: the `href` values of its
/// anchor elements, each once.
pub fn extract_links(body: &str) -> (links: Vec<String>)
    ensures
        views(links@) == links_of(body@),
{
    links_from(select_attributes(body, "a", "href"))
}

/// Whether a `Content-Type` header announces an HTML page.
pub fn is_html(content_type: &Option<String>) -> (html: bool)
    ensures
        html == announces_html(optional_text(*content_type)),
{
    match content_type {
        Some(value) => has_prefix(value.as_str(), "text/html"),
        None => false,
    }
}

/// Where a worker stands.
#[derive(Debug, Clone, Copy, PartialEq, Eq, Structural)]
pub enum WorkerPhase {
    /// The headers of the URL were asked for.
    Probing,
    /// The page itself was asked for.
    Fetching,
    /// Nothing more will be done.
    Done,
}

/// What a worker is told.
#[derive(Debug, PartialEq, Eq)]
pub enum WorkerEvent {
    /// The request for the headers failed.
    ProbeFailed,
    /// The headers came, with this `Content-Type`: nothing where the header
    /// is absent or is not readable text.
    Headers(Option<String>),
    /// The request for the page failed, or its body is not text.
    FetchFailed,
    /// The page came, with this text.
    Body(String),
}

/// The mathematical value of a [`WorkerEvent`].
pub ghost enum WorkerEventView {
    ProbeFailed,
    Headers(Option<Seq<char>>),
    FetchFailed,
    Body(Seq<char>),
}

impl View for WorkerEvent {
    type V = WorkerEventView;

    open spec fn view(&self) -> WorkerEventView {
        match self {
            WorkerEvent::ProbeFailed => WorkerEventView::ProbeFailed,
            WorkerEvent::Headers(content_type) => WorkerEventView::Headers(
                optional_text(*content_type),
            ),
            WorkerEvent::FetchFailed => WorkerEventView::FetchFailed,
            WorkerEvent::Body(text) => WorkerEventView::Body(text@),
        }
    }
}

/// What a worker asks for.
#[derive(Debug, PartialEq, Eq)]
pub enum WorkerAction {
    /// Request the headers of this URL.
    Probe(String),
    /// Request the page at this URL.
    Fetch(String),
    /// Send these links to the coordinator, then stop.
    Send(Vec<String>),
    /// Stop without sending anything.
    Stop,
}

/// The mathematical value of a [`WorkerAction`].
pub ghost enum WorkerActionView {
    Probe(Seq<char>),
    Fetch(Seq<char>),
    Send(Seq<Seq<char>>),
    Stop,
}

impl View for WorkerAction {
    type V = WorkerActionView;

    open spec fn view(&self) -> WorkerActionView {
        match self {
            WorkerAction::Probe(url) => WorkerActionView::Probe(url@),
            WorkerAction::Fetch(url) => WorkerActionView::Fetch(url@),
            WorkerAction::Send(links) => WorkerActionView::Send(views(links@)),
            WorkerAction::Stop => WorkerActionView::Stop,
        }
    }
}

/// What is done with the links of a page: they are sent, unless there are
/// none.
pub open spec fn send_or_stop(links: Seq<Seq<char>>) -> WorkerActionView {
    if links.len() > 0 {
        WorkerActionView::Send(links)
    } else {
        WorkerActionView::Stop
    }
}

/// The phase that follows `phase` on `event`, and what the worker for `url`
/// then asks for.
pub open spec fn worker_step(phase: WorkerPhase, url: Seq<char>, event: WorkerEventView) -> (
    WorkerPhase,
    WorkerActionView,
) {
    match (phase, event) {
        (WorkerPhase::Probing, WorkerEventView::Headers(content_type)) => if announces_html(
            content_type,
        ) {
            (WorkerPhase::Fetching, WorkerActionView::Fetch(url))
        } else {
            (WorkerPhase::Done, WorkerActionView::Stop)
        },
        (WorkerPhase::Fetching, WorkerEventView::Body(text)) => (
            WorkerPhase::Done,
            send_or_stop(links_of(text)),
        ),
        _ => (WorkerPhase::Done, WorkerActionView::Stop),
    }
}

/// A worker sends links only for a page that it fetched, and never an empty
/// list: a page without links sends nothing.
pub proof fn lemma_sends_only_links(phase: WorkerPhase, url: Seq<char>, event: WorkerEventView)
    ensures
        worker_step(phase, url, event).1 matches WorkerActionView::Send(links) ==> {
            &&& phase == WorkerPhase::Fetching
            &&& event matches WorkerEventView::Body(text)
            &&& links == links_of(text)
            &&& links.len() > 0
        },
{
}

/// A worker fetches a page only after headers that announce HTML. After any
/// other answer to its probe it is done, and once done it asks for nothing.
pub proof fn lemma_fetches_only_html(phase: WorkerPhase, url: Seq<char>, event: WorkerEventView)
    ensures
        worker_step(phase, url, event).1 is Fetch ==> {
            &&& phase == WorkerPhase::Probing
            &&& event matches WorkerEventView::Headers(content_type)
            &&& announces_html(content_type)
        },
        phase == WorkerPhase::Probing && !(worker_step(phase, url, event).1 is Fetch)
            ==> worker_step(phase, url, event) == (WorkerPhase::Done, WorkerActionView::Stop),
        phase == WorkerPhase::Done ==> worker_step(phase, url, event) == (
            WorkerPhase::Done,
            WorkerActionView::Stop,
        ),
        !(worker_step(phase, url, event).1 is Probe),
{
}

/// The work on one URL.
#[derive(Debug)]
pub struct UrlWorker {
    url: String,
    phase: WorkerPhase,
}

impl UrlWorker {
    /// The URL that this worker is for.
    pub closed spec fn url(&self) -> Seq<char> {
        self.url@
    }

    /// Where this worker stands.
    pub closed spec fn phase(&self) -> WorkerPhase {
        self.phase
    }

    /// A worker for `url`, and its first request: the headers of `url`.
    pub fn start(url: String) -> (started: (UrlWorker, WorkerAction))
        ensures
            started.0.url() == url@,
            started.0.phase() == WorkerPhase::Probing,
            started.1@ == WorkerActionView::Probe(url@),
    {
        let request = WorkerAction::Probe(url.clone());
        (UrlWorker { url, phase: WorkerPhase::Probing }, request)
    }

    /// Whether this worker has stopped.
    pub fn is_done(&self) -> (done: bool)
        ensures
            done == (self.phase() == WorkerPhase::Done),
    {
        self.phase == WorkerPhase::Done
    }

    /// Takes in what came of the last request and says what to do next.
    pub fn step(&mut self, event: WorkerEvent) -> (action: WorkerAction)
        ensures
            final(self).url() == old(self).url(),
            (final(self).phase(), action@) == worker_step(
                old(self).phase(),
                old(self).url(),
                event@,
            ),
    {
        match (self.phase, event) {
            (WorkerPhase::Probing, WorkerEvent::Headers(content_type)) => {
                if is_html(&content_type) {
                    self.phase = WorkerPhase::Fetching;
                    WorkerAction::Fetch(self.url.clone())
                } else {
                    self.phase = WorkerPhase::Done;
                    WorkerAction::Stop
                }
            },
            (WorkerPhase::Fetching, WorkerEvent::Body(text)) => {
                self.phase = WorkerPhase::Done;
                let links = extract_links(text.as_str());
                if links.len() > 0 {
                    WorkerAction::Send(links)
                } else {
                    WorkerAction::Stop
                }
            },
            _ => {
                self.phase = WorkerPhase::Done;
                WorkerAction::Stop
            },
        }
    }
}

} // verus!
