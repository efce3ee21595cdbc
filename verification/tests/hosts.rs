use vdovitsa::crawler::Vdovitsa;
use vdovitsa::host::{domains_share_parent, split_labels, Host, HostRelation};

fn domain(name: &str) -> Host {
    Host::Domain(name.to_string())
}

fn label_strings(name: &str) -> Vec<String> {
    split_labels(name).into_iter().map(|label| label.into_iter().collect()).collect()
}

#[test]
fn equal_domains_are_the_same_host() {
    let relation = Vdovitsa::compare_hosts(&domain("example.com"), &domain("example.com"));
    assert_eq!(relation, HostRelation::Same);
}

#[test]
fn sibling_subdomains_are_related() {
    let relation = Vdovitsa::compare_hosts(&domain("a.example.com"), &domain("b.example.com"));
    assert_eq!(relation, HostRelation::Related);
}

#[test]
fn a_subdomain_is_related_to_its_parent() {
    let relation = Vdovitsa::compare_hosts(&domain("www.example.com"), &domain("example.com"));
    assert_eq!(relation, HostRelation::Related);
}

#[test]
fn domains_with_different_parents_are_unrelated() {
    let relation = Vdovitsa::compare_hosts(&domain("a.com"), &domain("b.com"));
    assert_eq!(relation, HostRelation::Unrelated);
    let relation = Vdovitsa::compare_hosts(&domain("example.com"), &domain("unrelated.org"));
    assert_eq!(relation, HostRelation::Unrelated);
}

#[test]
fn domain_comparison_is_case_sensitive() {
    let relation = Vdovitsa::compare_hosts(&domain("Example.com"), &domain("example.com"));
    assert_eq!(relation, HostRelation::Unrelated);
    let relation = Vdovitsa::compare_hosts(&domain("a.Example.com"), &domain("b.example.com"));
    assert_eq!(relation, HostRelation::Unrelated);
}

#[test]
fn a_single_label_is_unrelated_to_a_name_that_ends_in_it() {
    let relation = Vdovitsa::compare_hosts(&domain("com"), &domain("a.com"));
    assert_eq!(relation, HostRelation::Unrelated);
    let relation = Vdovitsa::compare_hosts(&domain("localhost"), &domain("localhost"));
    assert_eq!(relation, HostRelation::Same);
}

#[test]
fn multi_part_public_suffixes_are_not_recognised() {
    let relation = Vdovitsa::compare_hosts(&domain("foo.co.uk"), &domain("bar.co.uk"));
    assert_eq!(relation, HostRelation::Related);
}

#[test]
fn equal_ipv4_addresses_are_the_same_host() {
    let relation = Vdovitsa::compare_hosts(&Host::Ipv4(0x0102_0304), &Host::Ipv4(0x0102_0304));
    assert_eq!(relation, HostRelation::Same);
}

#[test]
fn different_ipv4_addresses_are_unrelated() {
    let relation = Vdovitsa::compare_hosts(&Host::Ipv4(0x0102_0304), &Host::Ipv4(0x0102_0305));
    assert_eq!(relation, HostRelation::Unrelated);
}

#[test]
fn ipv6_addresses_are_the_same_host_only_when_equal() {
    let relation = Vdovitsa::compare_hosts(&Host::Ipv6(1), &Host::Ipv6(1));
    assert_eq!(relation, HostRelation::Same);
    let relation = Vdovitsa::compare_hosts(&Host::Ipv6(1), &Host::Ipv6(2));
    assert_eq!(relation, HostRelation::Unrelated);
}

#[test]
fn hosts_of_different_kinds_are_unrelated() {
    let name = domain("1.2.3.4");
    let v4 = Host::Ipv4(0x0102_0304);
    let v6 = Host::Ipv6(0x0102_0304);
    assert_eq!(Vdovitsa::compare_hosts(&name, &v4), HostRelation::Unrelated);
    assert_eq!(Vdovitsa::compare_hosts(&v4, &name), HostRelation::Unrelated);
    assert_eq!(Vdovitsa::compare_hosts(&name, &v6), HostRelation::Unrelated);
    assert_eq!(Vdovitsa::compare_hosts(&v6, &name), HostRelation::Unrelated);
    assert_eq!(Vdovitsa::compare_hosts(&v4, &v6), HostRelation::Unrelated);
    assert_eq!(Vdovitsa::compare_hosts(&v6, &v4), HostRelation::Unrelated);
}

#[test]
fn the_relation_is_symmetric_on_each_branch() {
    let hosts = vec![
        domain("example.com"),
        domain("a.example.com"),
        domain("b.example.com"),
        domain("a.com"),
        domain("com"),
        domain(""),
        Host::Ipv4(1),
        Host::Ipv4(2),
        Host::Ipv6(1),
        Host::Ipv6(2),
    ];
    for left in &hosts {
        for right in &hosts {
            assert_eq!(
                Vdovitsa::compare_hosts(left, right),
                Vdovitsa::compare_hosts(right, left)
            );
        }
    }
}

#[test]
fn a_name_splits_at_each_dot() {
    assert_eq!(label_strings("a.example.com"), vec!["a", "example", "com"]);
    assert_eq!(label_strings("localhost"), vec!["localhost"]);
}

#[test]
fn empty_labels_are_kept() {
    assert_eq!(label_strings(""), vec![""]);
    assert_eq!(label_strings("."), vec!["", ""]);
    assert_eq!(label_strings("a..b"), vec!["a", "", "b"]);
    assert_eq!(label_strings("example.com."), vec!["example", "com", ""]);
}

#[test]
fn a_trailing_dot_changes_the_last_two_labels() {
    assert!(!domains_share_parent("a.example.com.", "b.example.com"));
    assert!(domains_share_parent("a.example.com.", "b.com."));
}

#[test]
fn names_share_a_parent_when_their_last_two_labels_agree() {
    assert!(domains_share_parent("a.example.com", "b.c.example.com"));
    assert!(domains_share_parent("example.com", "example.com"));
    assert!(!domains_share_parent("example.com", "example.org"));
    assert!(!domains_share_parent("a.example.com", "a.sample.com"));
    assert!(!domains_share_parent("com", "example.com"));
}

#[test]
fn hosts_compare_by_value() {
    assert_eq!(domain("example.com"), domain("example.com"));
    assert_ne!(domain("example.com"), domain("example.org"));
    assert_ne!(domain("1.2.3.4"), Host::Ipv4(0x0102_0304));
    assert_eq!(Host::Ipv4(7), Host::Ipv4(7));
    assert_ne!(Host::Ipv6(7), Host::Ipv4(7));
    let original = domain("example.com");
    assert_eq!(original.clone(), original);
}
