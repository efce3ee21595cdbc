//! Hosts and the relation between two of them.
//!
//! A host is a domain name, an IPv4 address or an IPv6 address. Two domain
//! names that differ are still related when their last two dot-separated
//! labels agree. Multi-part public suffixes are not recognised, and a domain
//! is never resolved to compare it with an address.

use crate::text::{chars_of, same_chars, views};
use vstd::prelude::*;
use vstd::std_specs::cmp::PartialEqSpecImpl;

verus! {

/// How two hosts relate.
#[derive(Debug, Clone, Copy, PartialEq, Eq, Structural)]
pub enum HostRelation {
    /// The hosts are the same host.
    Same,
    /// The hosts differ but share their last two labels.
    Related,
    /// Anything else.
    Unrelated,
}

/// A host: a domain name, or an address given by its numeric value.
#[derive(Debug)]
pub enum Host {
    /// A DNS domain name, as dot-separated labels.
    Domain(String),
    /// An IPv4 address, most significant octet first.
    Ipv4(u32),
    /// An IPv6 address, most significant segment first.
    Ipv6(u128),
}

/// The mathematical value of a [`Host`].
pub ghost enum HostView {
    Domain(Seq<char>),
    Ipv4(u32),
    Ipv6(u128),
}

impl View for Host {
    type V = HostView;

    open spec fn view(&self) -> HostView {
        match self {
            Host::Domain(name) => HostView::Domain(name@),
            Host::Ipv4(bits) => HostView::Ipv4(*bits),
            Host::Ipv6(bits) => HostView::Ipv6(*bits),
        }
    }
}

impl Clone for Host {
    fn clone(&self) -> (copy: Host)
        ensures
            copy@ == self@,
    {
        match self {
            Host::Domain(name) => Host::Domain(name.clone()),
            Host::Ipv4(bits) => Host::Ipv4(*bits),
            Host::Ipv6(bits) => Host::Ipv6(*bits),
        }
    }
}

impl PartialEq for Host {
    fn eq(&self, other: &Host) -> (equal: bool) {
        match (self, other) {
            (Host::Domain(a), Host::Domain(b)) => *a == *b,
            (Host::Ipv4(a), Host::Ipv4(b)) => *a == *b,
            (Host::Ipv6(a), Host::Ipv6(b)) => *a == *b,
            _ => false,
        }
    }
}

impl PartialEqSpecImpl for Host {
    open spec fn obeys_eq_spec() -> bool {
        true
    }

    open spec fn eq_spec(&self, other: &Host) -> bool {
        self@ == other@
    }
}

impl Eq for Host {

}

/// The labels of a domain name: the pieces between its dots. A name without
/// a dot is one label; the empty name is one empty label.
pub open spec fn labels(name: Seq<char>) -> Seq<Seq<char>>
    decreases name.len(),
{
    if name.len() == 0 {
        seq![Seq::<char>::empty()]
    } else {
        let before = labels(name.drop_last());
        if name.last() == '.' {
            before.push(Seq::<char>::empty())
        } else {
            before.drop_last().push(before.last().push(name.last()))
        }
    }
}

/// The last two entries of `parts`, or all of them where there are fewer.
pub open spec fn last_two<A>(parts: Seq<A>) -> Seq<A> {
    if parts.len() <= 2 {
        parts
    } else {
        parts.subrange(parts.len() - 2, parts.len() as int)
    }
}

/// Whether two domain names end in the same two labels.
pub open spec fn share_parent(a: Seq<char>, b: Seq<char>) -> bool {
    last_two(labels(a)) == last_two(labels(b))
}

/// The relation of host `a` to host `b`.
pub open spec fn host_relation(a: HostView, b: HostView) -> HostRelation {
    match (a, b) {
        (HostView::Domain(x), HostView::Domain(y)) => if x == y {
            HostRelation::Same
        } else if share_parent(x, y) {
            HostRelation::Related
        } else {
            HostRelation::Unrelated
        },
        (HostView::Ipv4(x), HostView::Ipv4(y)) => if x == y {
            HostRelation::Same
        } else {
            HostRelation::Unrelated
        },
        (HostView::Ipv6(x), HostView::Ipv6(y)) => if x == y {
            HostRelation::Same
        } else {
            HostRelation::Unrelated
        },
        _ => HostRelation::Unrelated,
    }
}

/// The relation does not depend on the order of the two hosts.
pub proof fn lemma_relation_symmetric(a: HostView, b: HostView)
    ensures
        host_relation(a, b) == host_relation(b, a),
{
}

/// Two hosts are the same exactly when they are equal.
pub proof fn lemma_same_iff_equal(a: HostView, b: HostView)
    ensures
        host_relation(a, b) == HostRelation::Same <==> a == b,
{
}

/// Splits a domain name at its dots.
pub fn split_labels(name: &str) -> (parts: Vec<Vec<char>>)
    ensures
        views(parts@) == labels(name@),
{
    let chars = chars_of(name);
    let mut done: Vec<Vec<char>> = Vec::new();
    let mut current: Vec<char> = Vec::new();
    let mut i: usize = 0;
    while i < chars.len()
        invariant
            i <= chars.len(),
            views(done@).push(current@) == labels(chars@.take(i as int)),
        decreases chars.len() - i,
    {
        let c = chars[i];
        proof {
            let prefix = chars@.take(i + 1);
            assert(prefix.drop_last() == chars@.take(i as int));
        }
        if c == '.' {
            done.push(current);
            current = Vec::new();
        } else {
            current.push(c);
        }
        i += 1;
    }
    assert(chars@.take(i as int) == chars@);
    done.push(current);
    done
}

/// Whether two lists of labels agree in their last two entries.
fn same_last_two(a: &Vec<Vec<char>>, b: &Vec<Vec<char>>) -> (equal: bool)
    ensures
        equal == (last_two(views(a@)) == last_two(views(b@))),
{
    let kept_a: usize = if a.len() <= 2 { a.len() } else { 2 };
    let kept_b: usize = if b.len() <= 2 { b.len() } else { 2 };
    let ghost tail_a = last_two(views(a@));
    let ghost tail_b = last_two(views(b@));
    if kept_a != kept_b {
        return false;
    }
    let from_a: usize = a.len() - kept_a;
    let from_b: usize = b.len() - kept_b;
    let mut j: usize = 0;
    while j < kept_a
        invariant
            j <= kept_a,
            kept_a == kept_b,
            from_a + kept_a == a.len(),
            from_b + kept_b == b.len(),
            tail_a == last_two(views(a@)),
            tail_b == last_two(views(b@)),
            tail_a.len() == kept_a,
            tail_b.len() == kept_b,
            forall|k: int| 0 <= k < j ==> tail_a[k] == tail_b[k],
        decreases kept_a - j,
    {
        assert(tail_a[j as int] == a@[from_a + j]@);
        assert(tail_b[j as int] == b@[from_b + j]@);
        if !same_chars(&a[from_a + j], &b[from_b + j]) {
            return false;
        }
        j += 1;
    }
    assert(tail_a =~= tail_b);
    true
}

/// Whether two domain names end in the same two labels.
pub fn domains_share_parent(a: &str, b: &str) -> (related: bool)
    ensures
        related == share_parent(a@, b@),
{
    let parts_a = split_labels(a);
    let parts_b = split_labels(b);
    same_last_two(&parts_a, &parts_b)
}

} // verus!
