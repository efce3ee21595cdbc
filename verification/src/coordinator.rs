//! The crawl of one host.
//!
//! A coordinator owns the set of pages of its host that were handed to a
//! worker, each known by the normal form of its URL. It takes in the batches of links that the workers send, one at a
//! time, and answers each with what to do: fetch a page of its host that was
//! not seen before, report a related host, or close its inbox once no worker
//! is left that could send. It runs no worker and holds no channel: whoever
//! drives it does, and tells it with each batch whether any worker is still
//! at work.

use crate::host::{Host, HostView};
use crate::link::{
    absolute_url, display_host, host_text, link_outcome, normalize, normalize_url, resolve_link,
    LinkOutcome, LinkOutcomeView,
};
use crate::text::views;
use vstd::hash_set::StringHashSet;
use vstd::prelude::*;
use vstd::string::*;

verus! {

/// What a coordinator asks for.
#[derive(Debug, PartialEq, Eq)]
pub enum CoordinatorAction {
    /// Close the inbox: the batches already in it are still handed over,
    /// none can follow.
    Close,
    /// Start a worker on this URL.
    Fetch(String),
    /// Report this host as a candidate target.
    Report(Host),
}

/// The mathematical value of a [`CoordinatorAction`].
pub ghost enum CoordinatorActionView {
    Close,
    Fetch(Seq<char>),
    Report(HostView),
}

impl View for CoordinatorAction {
    type V = CoordinatorActionView;

    open spec fn view(&self) -> CoordinatorActionView {
        match self {
            CoordinatorAction::Close => CoordinatorActionView::Close,
            CoordinatorAction::Fetch(url) => CoordinatorActionView::Fetch(url@),
            CoordinatorAction::Report(host) => CoordinatorActionView::Report(host@),
        }
    }
}

/// The view of an optional action.
pub open spec fn optional_action(action: Option<CoordinatorAction>) -> Option<
    CoordinatorActionView,
> {
    match action {
        Some(action) => Some(action@),
        None => None,
    }
}

/// The set of visited pages after one link with this outcome, and what is
/// asked for on its account. A page is known by the normal form of its URL.
pub open spec fn visit(crawled: Set<Seq<char>>, outcome: LinkOutcomeView) -> (
    Set<Seq<char>>,
    Option<CoordinatorActionView>,
) {
    match outcome {
        LinkOutcomeView::Page(url) => if crawled.contains(normalize_url(url)) {
            (crawled, None)
        } else {
            (crawled.insert(normalize_url(url)), Some(CoordinatorActionView::Fetch(url)))
        },
        LinkOutcomeView::NewTarget(host) => (crawled, Some(CoordinatorActionView::Report(host))),
        LinkOutcomeView::Dropped => (crawled, None),
    }
}

/// The set of visited pages after links with these outcomes, taken in
/// order, and what is asked for on their account.
pub open spec fn visit_all(crawled: Set<Seq<char>>, outcomes: Seq<LinkOutcomeView>) -> (
    Set<Seq<char>>,
    Seq<CoordinatorActionView>,
)
    decreases outcomes.len(),
{
    if outcomes.len() == 0 {
        (crawled, Seq::empty())
    } else {
        let before = visit_all(crawled, outcomes.drop_last());
        let step = visit(before.0, outcomes.last());
        match step.1 {
            Some(action) => (step.0, before.1.push(action)),
            None => (step.0, before.1),
        }
    }
}

/// The outcomes of the links of a batch found while crawling `target`.
pub open spec fn outcomes_of(links: Seq<Seq<char>>, target: HostView) -> Seq<LinkOutcomeView> {
    links.map_values(
        |href: Seq<char>| link_outcome(absolute_url(href), href, target, host_text(target)),
    )
}

/// The request to close the inbox, where no worker is at work.
pub open spec fn closing(idle: bool) -> Seq<CoordinatorActionView> {
    if idle {
        seq![CoordinatorActionView::Close]
    } else {
        Seq::empty()
    }
}

/// The pages that `actions` ask to fetch, in order: the normal forms of the
/// URLs to fetch.
pub open spec fn fetched_pages(actions: Seq<CoordinatorActionView>) -> Seq<Seq<char>>
    decreases actions.len(),
{
    if actions.len() == 0 {
        Seq::empty()
    } else {
        let before = fetched_pages(actions.drop_last());
        match actions.last() {
            CoordinatorActionView::Fetch(url) => before.push(normalize_url(url)),
            _ => before,
        }
    }
}

/// Taking in two runs of links one after the other is taking in the two
/// runs joined.
pub proof fn lemma_visit_all_append(
    crawled: Set<Seq<char>>,
    first: Seq<LinkOutcomeView>,
    second: Seq<LinkOutcomeView>,
)
    ensures
        visit_all(crawled, first + second).0 == visit_all(
            visit_all(crawled, first).0,
            second,
        ).0,
        visit_all(crawled, first + second).1 == visit_all(crawled, first).1 + visit_all(
            visit_all(crawled, first).0,
            second,
        ).1,
    decreases second.len(),
{
    if second.len() > 0 {
        lemma_visit_all_append(crawled, first, second.drop_last());
        assert((first + second).drop_last() =~= first + second.drop_last());
    }
}

/// No page is asked for twice: the URLs that a run of links asks to fetch
/// differ in their normal forms from each other and from every page visited
/// before, and the pages visited afterwards are those visited before and
/// those asked for.
pub proof fn lemma_no_page_fetched_twice(crawled: Set<Seq<char>>, outcomes: Seq<LinkOutcomeView>)
    ensures
        fetched_pages(visit_all(crawled, outcomes).1).no_duplicates(),
        forall|key: Seq<char>| #[trigger]
            fetched_pages(visit_all(crawled, outcomes).1).contains(key) ==> !crawled.contains(key),
        forall|key: Seq<char>| #[trigger]
            visit_all(crawled, outcomes).0.contains(key) <==> crawled.contains(key)
                || fetched_pages(visit_all(crawled, outcomes).1).contains(key),
    decreases outcomes.len(),
{
    if outcomes.len() > 0 {
        lemma_no_page_fetched_twice(crawled, outcomes.drop_last());
        let before = visit_all(crawled, outcomes.drop_last());
        let after = visit_all(crawled, outcomes);
        let pages_before = fetched_pages(before.1);
        let pages_after = fetched_pages(after.1);
        let step = visit(before.0, outcomes.last());
        match step.1 {
            Some(action) => {
                assert(after.1.drop_last() =~= before.1);
                match action {
                    CoordinatorActionView::Fetch(url) => {
                        let key = normalize_url(url);
                        assert forall|other: Seq<char>| #[trigger]
                            pages_after.contains(other) <==> pages_before.contains(other) || other
                                == key by {
                            if pages_before.contains(other) {
                                let i = choose|i: int|
                                    0 <= i < pages_before.len() && pages_before[i] == other;
                                assert(pages_after[i] == other);
                            }
                            if other == key {
                                assert(pages_after[pages_before.len() as int] == other);
                            }
                        }
                        assert forall|other: Seq<char>| #[trigger]
                            after.0.contains(other) <==> crawled.contains(other)
                                || pages_after.contains(other) by {
                            assert(pages_after.contains(other) <==> pages_before.contains(other)
                                || other == key);
                            assert(before.0.contains(other) <==> crawled.contains(other)
                                || pages_before.contains(other));
                        }
                    },
                    _ => {},
                }
            },
            None => {},
        }
    }
}

/// A page that one batch asked for is never asked for by a later one.
pub proof fn lemma_never_fetched_again(
    crawled: Set<Seq<char>>,
    earlier: Seq<LinkOutcomeView>,
    later: Seq<LinkOutcomeView>,
)
    ensures
        forall|key: Seq<char>| #[trigger]
            fetched_pages(visit_all(crawled, earlier).1).contains(key) ==> !fetched_pages(
                visit_all(visit_all(crawled, earlier).0, later).1,
            ).contains(key),
{
    lemma_no_page_fetched_twice(crawled, earlier);
    lemma_no_page_fetched_twice(visit_all(crawled, earlier).0, later);
}

/// The crawl of one host.
pub struct TargetCoordinator {
    host: Host,
    crawled: StringHashSet,
}

impl TargetCoordinator {
    /// The host being crawled.
    pub closed spec fn host(&self) -> HostView {
        self.host@
    }

    /// The pages that were handed to a worker, each as the normal form of
    /// its URL, and the host itself, which stands for its root page.
    pub closed spec fn crawled(&self) -> Set<Seq<char>> {
        self.crawled@
    }

    /// A coordinator for `host`, and its first request: the root page of
    /// `host`, which counts as visited under the host as it is written.
    pub fn start(host: Host) -> (started: (TargetCoordinator, CoordinatorAction))
        ensures
            started.0.host() == host@,
            started.0.crawled() == Set::<Seq<char>>::empty().insert(host_text(host@)),
            started.1@ == CoordinatorActionView::Fetch("https://"@ + host_text(host@)),
    {
        let key = display_host(&host);
        let mut url = "https://".to_owned();
        url.append(key.as_str());
        let mut crawled = StringHashSet::new();
        crawled.insert(key);
        (TargetCoordinator { host, crawled }, CoordinatorAction::Fetch(url))
    }

    /// The host being crawled.
    pub fn target(&self) -> (host: &Host)
        ensures
            host@ == self.host(),
    {
        &self.host
    }

    /// Whether the page with the normal form `key` counts as visited.
    pub fn has_crawled(&self, key: &str) -> (found: bool)
        ensures
            found == self.crawled().contains(key@),
    {
        self.crawled.contains(key)
    }

    /// Takes in one link, given what it resolved to.
    pub fn apply(&mut self, outcome: LinkOutcome) -> (action: Option<CoordinatorAction>)
        ensures
            final(self).host() == old(self).host(),
            (final(self).crawled(), optional_action(action)) == visit(
                old(self).crawled(),
                outcome@,
            ),
    {
        match outcome {
            LinkOutcome::Page(url) => {
                let key = normalize(url.as_str());
                if self.crawled.contains(key.as_str()) {
                    None
                } else {
                    self.crawled.insert(key);
                    Some(CoordinatorAction::Fetch(url))
                }
            },
            LinkOutcome::NewTarget(host) => Some(CoordinatorAction::Report(host)),
            LinkOutcome::Dropped => None,
        }
    }

    /// Takes in a batch of links. `idle` says whether, now that the batch
    /// has arrived, no worker of this coordinator is at work any more: then
    /// the inbox is closed first. The links are then taken in order.
    pub fn on_links(&mut self, idle: bool, links: Vec<String>) -> (actions: Vec<CoordinatorAction>)
        ensures
            final(self).host() == old(self).host(),
            final(self).crawled() == visit_all(
                old(self).crawled(),
                outcomes_of(views(links@), old(self).host()),
            ).0,
            views(actions@) == closing(idle) + visit_all(
                old(self).crawled(),
                outcomes_of(views(links@), old(self).host()),
            ).1,
    {
        let ghost start = self.crawled();
        let ghost outcomes = outcomes_of(views(links@), self.host());
        let mut actions: Vec<CoordinatorAction> = Vec::new();
        if idle {
            actions.push(CoordinatorAction::Close);
        }
        let mut i: usize = 0;
        while i < links.len()
            invariant
                i <= links.len(),
                self.host() == old(self).host(),
                outcomes == outcomes_of(views(links@), self.host()),
                self.crawled() == visit_all(start, outcomes.take(i as int)).0,
                views(actions@) == closing(idle) + visit_all(start, outcomes.take(i as int)).1,
            decreases links.len() - i,
        {
            let outcome = resolve_link(links[i].as_str(), &self.host);
            proof {
                let prefix = outcomes.take(i + 1);
                assert(prefix.drop_last() == outcomes.take(i as int));
            }
            let ghost listed = views(actions@);
            match self.apply(outcome) {
                Some(action) => {
                    actions.push(action);
                    assert(views(actions@) =~= listed.push(actions@.last()@));
                },
                None => {},
            }
            i += 1;
        }
        assert(outcomes.take(i as int) == outcomes);
        actions
    }
}

} // verus!
