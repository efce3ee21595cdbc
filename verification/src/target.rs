//! Crawl targets and the set of targets of a crawl.

use crate::host::{Host, HostView};
use crate::text::views;
use vstd::prelude::*;
use vstd::std_specs::cmp::PartialEqSpecImpl;

verus! {

/// A host designated for crawling. Two targets are equal when their hosts
/// are.
#[derive(Debug)]
pub struct CrawlTarget {
    host: Host,
}

impl View for CrawlTarget {
    type V = HostView;

    closed spec fn view(&self) -> HostView {
        self.host@
    }
}

impl Clone for CrawlTarget {
    fn clone(&self) -> (copy: CrawlTarget)
        ensures
            copy@ == self@,
    {
        CrawlTarget { host: self.host.clone() }
    }
}

impl PartialEq for CrawlTarget {
    fn eq(&self, other: &CrawlTarget) -> (equal: bool) {
        self.host == other.host
    }
}

impl PartialEqSpecImpl for CrawlTarget {
    open spec fn obeys_eq_spec() -> bool {
        true
    }

    open spec fn eq_spec(&self, other: &CrawlTarget) -> bool {
        self@ == other@
    }
}

impl Eq for CrawlTarget {

}

impl CrawlTarget {
    /// The target for `host`.
    pub fn new(host: Host) -> (target: CrawlTarget)
        ensures
            target@ == host@,
    {
        CrawlTarget { host }
    }

    /// The host of this target.
    pub fn host(&self) -> (host: &Host)
        ensures
            host@ == self@,
    {
        &self.host
    }
}

/// The targets after `target` was offered: it is added at the end unless it
/// is there already.
pub open spec fn with_target(targets: Seq<HostView>, target: HostView) -> Seq<HostView> {
    if targets.contains(target) {
        targets
    } else {
        targets.push(target)
    }
}

/// Offering a target keeps a list of targets free of repetitions, and a
/// second offer of the same target changes nothing.
pub proof fn lemma_with_target(targets: Seq<HostView>, target: HostView)
    requires
        targets.no_duplicates(),
    ensures
        with_target(targets, target).no_duplicates(),
        with_target(targets, target).contains(target),
        with_target(with_target(targets, target), target) == with_target(targets, target),
        forall|other: HostView| targets.contains(other) ==> with_target(targets, target).contains(other),
{
    let after = with_target(targets, target);
    if !targets.contains(target) {
        assert(after[targets.len() as int] == target);
        assert forall|other: HostView| targets.contains(other) implies after.contains(other) by {
            let i = choose|i: int| 0 <= i < targets.len() && targets[i] == other;
            assert(after[i] == other);
        }
    }
}

/// The targets of a crawl: every host ever admitted, in the order of
/// admission, none of them twice. Targets are only ever added.
pub struct TargetSet {
    items: Vec<CrawlTarget>,
}

impl View for TargetSet {
    type V = Seq<HostView>;

    closed spec fn view(&self) -> Seq<HostView> {
        views(self.items@)
    }
}

impl TargetSet {
    #[verifier::type_invariant]
    spec fn no_repetition(self) -> bool {
        views(self.items@).no_duplicates()
    }

    /// The empty set.
    pub fn new() -> (set: TargetSet)
        ensures
            set@ == Seq::<HostView>::empty(),
    {
        let set = TargetSet { items: Vec::new() };
        set
    }

    /// The number of targets.
    pub fn len(&self) -> (count: usize)
        ensures
            count == self@.len(),
            self@.no_duplicates(),
    {
        proof {
            use_type_invariant(self);
        }
        self.items.len()
    }

    /// Whether there is no target.
    pub fn is_empty(&self) -> (empty: bool)
        ensures
            empty == (self@.len() == 0),
    {
        self.items.len() == 0
    }

    /// Whether `target` is in the set.
    pub fn contains(&self, target: &CrawlTarget) -> (found: bool)
        ensures
            found == self@.contains(target@),
            self@.no_duplicates(),
    {
        proof {
            use_type_invariant(self);
        }
        let mut i: usize = 0;
        while i < self.items.len()
            invariant
                i <= self.items.len(),
                self@.no_duplicates(),
                forall|j: int| 0 <= j < i ==> self@[j] != target@,
            decreases self.items.len() - i,
        {
            if self.items[i] == *target {
                assert(self@[i as int] == target@);
                return true;
            }
            i += 1;
        }
        false
    }

    /// Offers `target` to the set, and says whether it was new.
    pub fn insert(&mut self, target: CrawlTarget) -> (added: bool)
        ensures
            added == !old(self)@.contains(target@),
            final(self)@ == with_target(old(self)@, target@),
            final(self)@.contains(target@),
            final(self)@.no_duplicates(),
    {
        proof {
            use_type_invariant(&*self);
            lemma_with_target(self@, target@);
        }
        if self.contains(&target) {
            false
        } else {
            let ghost before = self@;
            let mut items: Vec<CrawlTarget> = Vec::new();
            core::mem::swap(&mut items, &mut self.items);
            items.push(target);
            assert(views(items@) =~= before.push(target@));
            self.items = items;
            true
        }
    }

    /// The targets, in the order of admission.
    pub fn to_vec(&self) -> (targets: Vec<CrawlTarget>)
        ensures
            views(targets@) == self@,
            self@.no_duplicates(),
    {
        proof {
            use_type_invariant(self);
        }
        let mut targets: Vec<CrawlTarget> = Vec::new();
        let mut i: usize = 0;
        while i < self.items.len()
            invariant
                i <= self.items.len(),
                views(targets@) == self@.take(i as int),
            decreases self.items.len() - i,
        {
            targets.push(self.items[i].clone());
            assert(self@.take(i + 1) =~= self@.take(i as int).push(self@[i as int]));
            i += 1;
        }
        targets
    }
}

} // verus!
