//! Link resolution: what a raw `href` found on a page of some host means for
//! the crawl of that host.
//!
//! A link that parses as an absolute URL is judged by its scheme and by the
//! relation of its host to the host being crawled. A link that does not parse
//! is followed only where it is a path from the root of that host. Everything
//! else is dropped: a single bad link never stops a crawl.
//!
//! A page is known by the normal form of its URL: the URL without the scheme
//! at its start and without the slashes at its end. Whether the link to a
//! page was a path or a URL, and with which of the two schemes, makes no
//! difference to it.

use crate::crawler::Vdovitsa;
use crate::host::{host_relation, Host, HostRelation, HostView};
use crate::text::{chars_of, lemma_trim_slashes, same_text, trim_slashes, trimmed_len};
use vstd::prelude::*;
use vstd::string::*;

verus! {

/// What the crawler reads from a parsed absolute URL.
#[derive(Debug, PartialEq, Eq)]
pub struct ParsedUrl {
    /// The scheme, without the colon.
    pub scheme: String,
    /// The host, where the URL has one.
    pub host: Option<Host>,
    /// The URL as its parser writes it back.
    pub text: String,
}

/// The mathematical value of a [`ParsedUrl`].
pub ghost struct UrlParts {
    pub scheme: Seq<char>,
    pub host: Option<HostView>,
    pub text: Seq<char>,
}

impl View for ParsedUrl {
    type V = UrlParts;

    open spec fn view(&self) -> UrlParts {
        UrlParts {
            scheme: self.scheme@,
            host: match self.host {
                Some(host) => Some(host@),
                None => None,
            },
            text: self.text@,
        }
    }
}

/// What becomes of one link.
#[derive(Debug, PartialEq, Eq)]
pub enum LinkOutcome {
    /// A page of the host being crawled, to be fetched at this URL.
    Page(String),
    /// A host related to the one being crawled: a candidate target.
    NewTarget(Host),
    /// Nothing to do.
    Dropped,
}

/// The mathematical value of a [`LinkOutcome`].
pub ghost enum LinkOutcomeView {
    Page(Seq<char>),
    NewTarget(HostView),
    Dropped,
}

impl View for LinkOutcome {
    type V = LinkOutcomeView;

    open spec fn view(&self) -> LinkOutcomeView {
        match self {
            LinkOutcome::Page(url) => LinkOutcomeView::Page(url@),
            LinkOutcome::NewTarget(host) => LinkOutcomeView::NewTarget(host@),
            LinkOutcome::Dropped => LinkOutcomeView::Dropped,
        }
    }
}

/// What `url::Url::parse` makes of `input`: nothing where it reports an
/// error, else the scheme, host and serialization of the URL it returns.
pub uninterp spec fn absolute_url(input: Seq<char>) -> Option<UrlParts>;

/// How `url::Host` displays a host.
pub uninterp spec fn displayed_host(host: HostView) -> Seq<char>;

/// How a host is written in a URL: a domain name as it is, an address as
/// `url::Host` displays it.
pub open spec fn host_text(host: HostView) -> Seq<char> {
    match host {
        HostView::Domain(name) => name,
        _ => displayed_host(host),
    }
}

/// The view of an optional parsed URL.
pub open spec fn parts_of(parsed: Option<ParsedUrl>) -> Option<UrlParts> {
    match parsed {
        Some(url) => Some(url@),
        None => None,
    }
}

/// How many characters the scheme at the start of `text` takes, with its
/// `://`: none where `text` starts with neither `https://` nor `http://`.
pub open spec fn scheme_len(text: Seq<char>) -> int {
    if text.len() >= 8 && text.take(8) == "https://"@ {
        8
    } else if text.len() >= 7 && text.take(7) == "http://"@ {
        7
    } else {
        0
    }
}

/// `text` without the schemes at its start: what is left starts with
/// neither `https://` nor `http://`.
pub open spec fn strip_schemes(text: Seq<char>) -> Seq<char>
    decreases text.len(),
{
    if scheme_len(text) > 0 {
        strip_schemes(text.skip(scheme_len(text)))
    } else {
        text
    }
}

/// The normal form of a URL, under which its page counts as visited: the
/// URL without the scheme at its start and without the slashes at its end.
pub open spec fn normalize_url(url: Seq<char>) -> Seq<char> {
    trim_slashes(strip_schemes(url))
}

/// The outcome for a link that parsed as the absolute URL `url`, found while
/// crawling `target`.
pub open spec fn absolute_outcome(url: UrlParts, target: HostView) -> LinkOutcomeView {
    if url.scheme == "https"@ || url.scheme == "http"@ {
        match url.host {
            Some(host) => match host_relation(host, target) {
                HostRelation::Same => LinkOutcomeView::Page(url.text),
                HostRelation::Related => LinkOutcomeView::NewTarget(host),
                HostRelation::Unrelated => LinkOutcomeView::Dropped,
            },
            None => LinkOutcomeView::Dropped,
        }
    } else {
        LinkOutcomeView::Dropped
    }
}

/// The outcome for a link that did not parse as an absolute URL, found
/// while crawling the host that is displayed as `target_text`.
pub open spec fn relative_outcome(href: Seq<char>, target_text: Seq<char>) -> LinkOutcomeView {
    let path = trim_slashes(href);
    if path.len() > 0 && path[0] == '/' {
        LinkOutcomeView::Page("https://"@ + target_text + path)
    } else {
        LinkOutcomeView::Dropped
    }
}

/// The outcome for the link `href` found while crawling `target`, given
/// what the URL parser made of `href` and how `target` is displayed.
pub open spec fn link_outcome(
    parsed: Option<UrlParts>,
    href: Seq<char>,
    target: HostView,
    target_text: Seq<char>,
) -> LinkOutcomeView {
    match parsed {
        Some(url) => absolute_outcome(url, target),
        None => relative_outcome(href, target_text),
    }
}

/// What is left once the schemes are cut off starts with no scheme.
pub proof fn lemma_strip_schemes(text: Seq<char>)
    ensures
        scheme_len(strip_schemes(text)) == 0,
    decreases text.len(),
{
    if scheme_len(text) > 0 {
        lemma_strip_schemes(text.skip(scheme_len(text)));
    }
}

/// A normal form starts with no scheme and ends in no slash.
pub proof fn lemma_normal_form_is_bare(url: Seq<char>)
    ensures
        scheme_len(normalize_url(url)) == 0,
        normalize_url(url).len() > 0 ==> normalize_url(url).last() != '/',
{
    let stripped = strip_schemes(url);
    let key = normalize_url(url);
    lemma_strip_schemes(url);
    lemma_trim_slashes(stripped);
    // The key is a prefix of `stripped`: a scheme at its start would be one
    // at the start of `stripped`.
    if key.len() >= 8 {
        assert(key.take(8) =~= stripped.take(8));
    }
    if key.len() >= 7 {
        assert(key.take(7) =~= stripped.take(7));
    }
}

/// Normalizing is idempotent: the normal form of a normal form is that
/// normal form.
pub proof fn lemma_normalize_idempotent(url: Seq<char>)
    ensures
        normalize_url(normalize_url(url)) == normalize_url(url),
{
    lemma_normal_form_is_bare(url);
}

/// Calls `url::Url::parse` on `input` and copies out of the URL it returns
/// what `Url::scheme`, `Url::host` and `Url::as_str` give: the result is
/// that of the parser, named [`absolute_url`], and nothing more is claimed
/// of it. Addresses are carried as their numeric value.
#[verifier::external_body]
fn parse_absolute(input: &str) -> (parsed: Option<ParsedUrl>)
    ensures
        parts_of(parsed) == absolute_url(input@),
{
    let url = url::Url::parse(input).ok()?;
    let host = match url.host() {
        Some(url::Host::Domain(name)) => Some(Host::Domain(name.to_string())),
        Some(url::Host::Ipv4(address)) => Some(Host::Ipv4(address.into())),
        Some(url::Host::Ipv6(address)) => Some(Host::Ipv6(address.into())),
        None => None,
    };
    Some(ParsedUrl { scheme: url.scheme().to_string(), host, text: url.as_str().to_string() })
}

/// Formats `host` with the `Display` impl of `url::Host`: the result is
/// named [`displayed_host`]. For a domain name that impl writes the name
/// itself.
#[verifier::external_body]
pub(crate) fn display_host(host: &Host) -> (text: String)
    ensures
        text@ == displayed_host(host@),
        host@ matches HostView::Domain(name) ==> text@ == name,
{
    match host {
        Host::Domain(name) => url::Host::Domain(name.as_str()).to_string(),
        Host::Ipv4(bits) => url::Host::<&str>::Ipv4((*bits).into()).to_string(),
        Host::Ipv6(bits) => url::Host::<&str>::Ipv6((*bits).into()).to_string(),
    }
}

/// How many characters the scheme at index `start` of `chars` takes.
fn scheme_len_at(chars: &Vec<char>, start: usize) -> (len: usize)
    requires
        start <= chars.len(),
    ensures
        len == scheme_len(chars@.skip(start as int)),
        start + len <= chars.len(),
{
    let ghost text = chars@.skip(start as int);
    proof {
        reveal_strlit("https://");
        reveal_strlit("http://");
    }
    let left = chars.len() - start;
    if left >= 7 && chars[start] == 'h' && chars[start + 1] == 't' && chars[start + 2] == 't'
        && chars[start + 3] == 'p' {
        if left >= 8 && chars[start + 4] == 's' && chars[start + 5] == ':' && chars[start + 6]
            == '/' && chars[start + 7] == '/' {
            assert(text.take(8) =~= "https://"@);
            8
        } else if chars[start + 4] == ':' && chars[start + 5] == '/' && chars[start + 6] == '/' {
            assert(text.take(7) =~= "http://"@);
            assert(left >= 8 ==> text.take(8)[4] != "https://"@[4]);
            7
        } else {
            assert(left >= 8 ==> text.take(8)[4] == text[4] && text.take(8)[5] == text[5]
                && text.take(8)[6] == text[6] && text.take(8)[7] == text[7]);
            assert(text.take(7)[4] == text[4] && text.take(7)[5] == text[5] && text.take(7)[6]
                == text[6]);
            0
        }
    } else {
        assert(left >= 8 ==> text.take(8)[0] == text[0] && text.take(8)[1] == text[1]
            && text.take(8)[2] == text[2] && text.take(8)[3] == text[3]);
        assert(left >= 7 ==> text.take(7)[0] == text[0] && text.take(7)[1] == text[1]
            && text.take(7)[2] == text[2] && text.take(7)[3] == text[3]);
        0
    }
}

/// The normal form of `url`, under which its page counts as visited.
pub fn normalize(url: &str) -> (key: String)
    ensures
        key@ == normalize_url(url@),
{
    let chars = chars_of(url);
    let mut start: usize = 0;
    assert(chars@.skip(0) == chars@);
    loop
        invariant
            start <= chars.len(),
            strip_schemes(chars@.skip(start as int)) == strip_schemes(chars@),
        ensures
            start <= chars.len(),
            chars@.skip(start as int) == strip_schemes(chars@),
        decreases chars.len() - start,
    {
        let len = scheme_len_at(&chars, start);
        if len == 0 {
            break;
        }
        assert(chars@.skip(start as int).skip(len as int) == chars@.skip(start + len));
        start += len;
    }
    let mut end: usize = chars.len();
    assert(chars@.subrange(start as int, end as int) == chars@.skip(start as int));
    while end > start && chars[end - 1] == '/'
        invariant
            start <= end <= chars.len(),
            trim_slashes(chars@.subrange(start as int, end as int)) == trim_slashes(
                chars@.skip(start as int),
            ),
        decreases end,
    {
        assert(chars@.subrange(start as int, end as int).drop_last() == chars@.subrange(
            start as int,
            end - 1,
        ));
        end -= 1;
    }
    url.substring_char(start, end).to_owned()
}

/// Classifies a link that parsed as an absolute URL.
pub fn classify_absolute(url: ParsedUrl, target: &Host) -> (outcome: LinkOutcome)
    ensures
        outcome@ == absolute_outcome(url@, target@),
{
    if same_text(url.scheme.as_str(), "https") || same_text(url.scheme.as_str(), "http") {
        match url.host {
            Some(host) => match Vdovitsa::compare_hosts(&host, target) {
                HostRelation::Same => LinkOutcome::Page(url.text),
                HostRelation::Related => LinkOutcome::NewTarget(host),
                HostRelation::Unrelated => LinkOutcome::Dropped,
            },
            None => LinkOutcome::Dropped,
        }
    } else {
        LinkOutcome::Dropped
    }
}

/// Classifies a link that did not parse as an absolute URL.
pub fn classify_relative(href: &str, target_text: &str) -> (outcome: LinkOutcome)
    ensures
        outcome@ == relative_outcome(href@, target_text@),
{
    let chars = chars_of(href);
    let end = trimmed_len(&chars);
    if end > 0 && chars[0] == '/' {
        let mut link = "https://".to_owned();
        link.append(target_text);
        link.append(href.substring_char(0, end));
        LinkOutcome::Page(link)
    } else {
        LinkOutcome::Dropped
    }
}

/// Resolves the link `href` found on a page of `target`.
pub fn resolve_link(href: &str, target: &Host) -> (outcome: LinkOutcome)
    ensures
        outcome@ == link_outcome(absolute_url(href@), href@, target@, host_text(target@)),
{
    match parse_absolute(href) {
        Some(url) => classify_absolute(url, target),
        None => {
            let target_text = display_host(target);
            classify_relative(href, target_text.as_str())
        },
    }
}

} // verus!
