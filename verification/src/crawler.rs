//! The crawler: the targets of a crawl and the web client that its workers
//! share.
//!
//! The crawler decides which hosts get a coordinator. It starts one for each
//! of its first targets, and then takes in the candidate targets that the
//! coordinators report, one at a time: a host that is not yet a target
//! becomes one and gets a coordinator, any other is passed over. Whoever
//! drives the crawler runs the coordinators, and tells it with each
//! candidate whether any coordinator is still at work.

use crate::error::CrawlerError;
use crate::host::{domains_share_parent, host_relation, Host, HostRelation, HostView};
use crate::target::{with_target, CrawlTarget, TargetSet};
use crate::text::views;
use vstd::prelude::*;

verus! {

/// The web client of `reqwest`. Nothing is known of a value of it.
#[verifier::external_type_specification]
#[verifier::external_body]
pub struct ExClient(reqwest::Client);

/// The error of `reqwest`. Nothing is known of a value of it.
#[verifier::external_type_specification]
#[verifier::external_body]
pub struct ExClientError(reqwest::Error);

/// What a crawler asks for.
#[derive(Debug, PartialEq, Eq)]
pub enum CrawlAction {
    /// Close the inbox: the candidates already in it are still handed over,
    /// none can follow.
    Close,
    /// Start a coordinator for this target.
    Spawn(CrawlTarget),
}

/// The mathematical value of a [`CrawlAction`].
pub ghost enum CrawlActionView {
    Close,
    Spawn(HostView),
}

impl View for CrawlAction {
    type V = CrawlActionView;

    open spec fn view(&self) -> CrawlActionView {
        match self {
            CrawlAction::Close => CrawlActionView::Close,
            CrawlAction::Spawn(target) => CrawlActionView::Spawn(target@),
        }
    }
}

/// What is asked for at the start of a crawl: a coordinator for each target,
/// in order.
pub open spec fn first_actions(targets: Seq<HostView>) -> Seq<CrawlActionView> {
    targets.map_values(|target: HostView| CrawlActionView::Spawn(target))
}

/// The request to close the inbox, where no coordinator is at work.
pub open spec fn closing(idle: bool) -> Seq<CrawlActionView> {
    if idle {
        seq![CrawlActionView::Close]
    } else {
        Seq::empty()
    }
}

/// What is asked for when the candidate `target` arrives while `targets` are
/// the targets: the inbox is closed first where no coordinator is at work,
/// and the candidate gets a coordinator unless it is a target already.
pub open spec fn candidate_actions(targets: Seq<HostView>, idle: bool, target: HostView) -> Seq<
    CrawlActionView,
> {
    if targets.contains(target) {
        closing(idle)
    } else {
        closing(idle).push(CrawlActionView::Spawn(target))
    }
}

/// A host gets at most one coordinator: a candidate that is a target
/// already gets none, and a candidate that got one is a target from then on.
pub proof fn lemma_one_coordinator_per_host(
    targets: Seq<HostView>,
    idle: bool,
    target: HostView,
    idle_again: bool,
)
    ensures
        targets.contains(target) ==> !candidate_actions(targets, idle, target).contains(
            CrawlActionView::Spawn(target),
        ),
        with_target(targets, target).contains(target),
        !candidate_actions(with_target(targets, target), idle_again, target).contains(
            CrawlActionView::Spawn(target),
        ),
{
    let after = with_target(targets, target);
    if !targets.contains(target) {
        assert(after[targets.len() as int] == target);
    }
}

/// The user agent under which the crawler asks for pages.
pub const USER_AGENT: &'static str = "vdovitsa/0.1.0";

/// Builds a web client with `reqwest::Client::builder`,
/// `ClientBuilder::user_agent` and `ClientBuilder::build`. Whether that
/// succeeds depends on the machine, so nothing is claimed of the result.
#[verifier::external_body]
fn build_client(user_agent: &str) -> Result<reqwest::Client, reqwest::Error> {
    reqwest::Client::builder().user_agent(user_agent).build()
}

/// A crawler.
pub struct Vdovitsa {
    crawl_targets: TargetSet,
    client: reqwest::Client,
}

impl Vdovitsa {
    /// The targets of the crawl, in the order in which they were admitted.
    pub closed spec fn targets(&self) -> Seq<HostView> {
        self.crawl_targets@
    }

    /// The web client of the crawl.
    pub closed spec fn web_client(&self) -> reqwest::Client {
        self.client
    }

    /// A crawler for `initial_targets`, given what building its web client
    /// came to: where that failed there is no crawler.
    pub fn with_client(
        initial_targets: TargetSet,
        built: Result<reqwest::Client, reqwest::Error>,
    ) -> (made: Result<Vdovitsa, CrawlerError>)
        ensures
            built is Ok ==> made is Ok && made->Ok_0.targets() == initial_targets@
                && made->Ok_0.web_client() == built->Ok_0,
            built is Err ==> made is Err && made->Err_0@ == "Failed to initialse web client."@,
    {
        match built {
            Ok(client) => Ok(Vdovitsa { crawl_targets: initial_targets, client }),
            Err(_) => Err(CrawlerError::with_message("Failed to initialse web client.")),
        }
    }

    /// A crawler for `initial_targets`. It fails only where no web client
    /// can be built.
    pub fn new(initial_targets: TargetSet) -> (made: Result<Vdovitsa, CrawlerError>)
        ensures
            match made {
                Ok(crawler) => crawler.targets() == initial_targets@,
                Err(error) => error@ == "Failed to initialse web client."@,
            },
    {
        let built = build_client(USER_AGENT);
        Vdovitsa::with_client(initial_targets, built)
    }

    /// The web client that the workers of this crawl share.
    pub fn client(&self) -> (client: &reqwest::Client)
        ensures
            *client == self.web_client(),
    {
        &self.client
    }

    /// The targets of the crawl.
    pub fn crawl_targets(&self) -> (targets: &TargetSet)
        ensures
            targets@ == self.targets(),
    {
        &self.crawl_targets
    }

    /// What to do at the start of the crawl: start a coordinator for each
    /// target.
    pub fn start(&self) -> (actions: Vec<CrawlAction>)
        ensures
            views(actions@) == first_actions(self.targets()),
            self.targets().no_duplicates(),
    {
        let targets = self.crawl_targets.to_vec();
        let ghost hosts = views(targets@);
        let mut actions: Vec<CrawlAction> = Vec::new();
        let mut i: usize = 0;
        while i < targets.len()
            invariant
                i <= targets.len(),
                hosts == views(targets@),
                views(actions@) == first_actions(hosts.take(i as int)),
            decreases targets.len() - i,
        {
            let ghost listed = views(actions@);
            actions.push(CrawlAction::Spawn(targets[i].clone()));
            assert(views(actions@) =~= listed.push(CrawlActionView::Spawn(hosts[i as int])));
            i += 1;
        }
        actions
    }

    /// Takes in a candidate target. `idle` says whether, now that the
    /// candidate has arrived, no coordinator of this crawl is at work any
    /// more: then the inbox is closed first.
    pub fn on_target(&mut self, idle: bool, target: CrawlTarget) -> (actions: Vec<CrawlAction>)
        ensures
            final(self).web_client() == old(self).web_client(),
            final(self).targets() == with_target(old(self).targets(), target@),
            final(self).targets().contains(target@),
            final(self).targets().no_duplicates(),
            views(actions@) == candidate_actions(old(self).targets(), idle, target@),
    {
        let mut actions: Vec<CrawlAction> = Vec::new();
        if idle {
            actions.push(CrawlAction::Close);
        }
        let ghost close = views(actions@);
        assert(close =~= closing(idle));
        if !self.crawl_targets.contains(&target) {
            self.crawl_targets.insert(target.clone());
            actions.push(CrawlAction::Spawn(target));
            assert(views(actions@) =~= close.push(CrawlActionView::Spawn(target@)));
        }
        actions
    }

    /// Classifies `host1` against `host2`.
    pub fn compare_hosts(host1: &Host, host2: &Host) -> (relation: HostRelation)
        ensures
            relation == host_relation(host1@, host2@),
    {
        match (host1, host2) {
            (Host::Domain(domain1), Host::Domain(domain2)) => {
                if *domain1 == *domain2 {
                    HostRelation::Same
                } else if domains_share_parent(domain1.as_str(), domain2.as_str()) {
                    HostRelation::Related
                } else {
                    HostRelation::Unrelated
                }
            },
            (Host::Ipv4(ip1), Host::Ipv4(ip2)) => {
                if *ip1 == *ip2 {
                    HostRelation::Same
                } else {
                    HostRelation::Unrelated
                }
            },
            (Host::Ipv6(ip1), Host::Ipv6(ip2)) => {
                if *ip1 == *ip2 {
                    HostRelation::Same
                } else {
                    HostRelation::Unrelated
                }
            },
            _ => HostRelation::Unrelated,
        }
    }
}

} // verus!
