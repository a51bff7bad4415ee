//! The domains the accelerator cares about, and how a host name is matched
//! against them: a host belongs to a list when it ends with one of its entries.

use vstd::prelude::*;
use crate::text::{ends_with, spec_ends_with};

verus! {

/// `d` ends with at least one entry of `list`.
pub open spec fn matches_any_suffix(d: Seq<char>, list: Seq<&str>) -> bool {
    exists|i: int| 0 <= i < list.len() && spec_ends_with(d, #[trigger] list[i]@)
}

/// Checks whether `domain` ends with one of the entries of `list`.
pub fn ends_with_any(domain: &str, list: &Vec<&str>) -> (r: bool)
    ensures
        r == matches_any_suffix(domain@, list@),
{
    let mut i: usize = 0;
    while i < list.len()
        invariant
            i <= list.len(),
            forall|j: int| 0 <= j < i ==> !spec_ends_with(domain@, #[trigger] list@[j]@),
        decreases list.len() - i,
    {
        if ends_with(domain, list[i]) {
            return true;
        }
        i = i + 1;
    }
    false
}

/// GitHub domains recognised by the DNS server.
pub open spec fn spec_dns_github_domains() -> Seq<&'static str> {
    seq![
        "github.com",
        "api.github.com",
        "raw.githubusercontent.com",
        "gist.github.com",
        "github.io",
        "githubusercontent.com",
        "githubassets.com",
        "githubapp.com",
        "assets-cdn.github.com",
    ]
}

/// Archive of Our Own domains recognised by the DNS server.
pub open spec fn spec_ao3_domains() -> Seq<&'static str> {
    seq!["archiveofourown.org", "archiveofourown.com"]
}

/// Pixiv domains recognised by the DNS server.
pub open spec fn spec_pixiv_domains() -> Seq<&'static str> {
    seq!["pixiv.net", "www.pixiv.net", "dic.pixiv.net", "fanbox.cc", "www.fanbox.cc"]
}

/// Every domain the DNS server answers with an optimised address.
pub open spec fn spec_accelerated_domains() -> Seq<&'static str> {
    spec_dns_github_domains() + spec_ao3_domains() + spec_pixiv_domains()
}

/// GitHub domains recognised by the HTTP proxy.
pub open spec fn spec_proxy_github_domains() -> Seq<&'static str> {
    seq![
        "github.com",
        "www.github.com",
        "api.github.com",
        "raw.githubusercontent.com",
        "gist.github.com",
        "github.io",
        "githubusercontent.com",
        "githubassets.com",
        "githubapp.com",
        "assets-cdn.github.com",
        "avatars.githubusercontent.com",
        "camo.githubusercontent.com",
    ]
}

/// The GitHub domain list of the DNS server.
pub fn dns_github_domains() -> (r: Vec<&'static str>)
    ensures
        r@ == spec_dns_github_domains(),
{
    let r = vec![
        "github.com",
        "api.github.com",
        "raw.githubusercontent.com",
        "gist.github.com",
        "github.io",
        "githubusercontent.com",
        "githubassets.com",
        "githubapp.com",
        "assets-cdn.github.com",
    ];
    assert(r@ =~= spec_dns_github_domains());
    r
}

/// The Archive of Our Own domain list of the DNS server.
pub fn ao3_domains() -> (r: Vec<&'static str>)
    ensures
        r@ == spec_ao3_domains(),
{
    let r = vec!["archiveofourown.org", "archiveofourown.com"];
    assert(r@ =~= spec_ao3_domains());
    r
}

/// The Pixiv domain list of the DNS server.
pub fn pixiv_domains() -> (r: Vec<&'static str>)
    ensures
        r@ == spec_pixiv_domains(),
{
    let r = vec!["pixiv.net", "www.pixiv.net", "dic.pixiv.net", "fanbox.cc", "www.fanbox.cc"];
    assert(r@ =~= spec_pixiv_domains());
    r
}

/// The GitHub domain list of the HTTP proxy.
pub fn proxy_github_domains() -> (r: Vec<&'static str>)
    ensures
        r@ == spec_proxy_github_domains(),
{
    let r = vec![
        "github.com",
        "www.github.com",
        "api.github.com",
        "raw.githubusercontent.com",
        "gist.github.com",
        "github.io",
        "githubusercontent.com",
        "githubassets.com",
        "githubapp.com",
        "assets-cdn.github.com",
        "avatars.githubusercontent.com",
        "camo.githubusercontent.com",
    ];
    assert(r@ =~= spec_proxy_github_domains());
    r
}

/// `d` without its trailing root dot, if it has one: a queried name as the
/// domain lists write it ("github.com." is "github.com").
pub open spec fn spec_strip_root_dot(d: Seq<char>) -> Seq<char> {
    if d.len() > 0 && d[d.len() - 1] == '.' {
        d.subrange(0, d.len() - 1)
    } else {
        d
    }
}

/// Drops the trailing root dot of a fully qualified name, if it has one.
pub fn strip_root_dot(d: &str) -> (r: &str)
    ensures
        r@ == spec_strip_root_dot(d@),
{
    let n = d.unicode_len();
    if n > 0 && d.get_char(n - 1) == '.' {
        d.substring_char(0, n - 1)
    } else {
        d
    }
}

/// How the DNS server classifies a queried name.
#[derive(Clone, Copy, Debug, PartialEq, Eq)]
pub struct DomainClass {
    pub github: bool,
    pub ao3: bool,
    pub pixiv: bool,
    pub accelerate: bool,
}

/// The classification of `d`, read without its trailing root dot: which site
/// lists it falls in, and whether it is accelerated.
pub open spec fn spec_classify_domain(d: Seq<char>) -> DomainClass {
    let n = spec_strip_root_dot(d);
    DomainClass {
        github: matches_any_suffix(n, spec_dns_github_domains()),
        ao3: matches_any_suffix(n, spec_ao3_domains()),
        pixiv: matches_any_suffix(n, spec_pixiv_domains()),
        accelerate: matches_any_suffix(n, spec_accelerated_domains()),
    }
}

/// Classifies a queried domain the way the DNS server does.
pub fn classify_domain(domain: &str) -> (r: DomainClass)
    ensures
        r == spec_classify_domain(domain@),
{
    let github_domains = dns_github_domains();
    let ao3 = ao3_domains();
    let pixiv = pixiv_domains();
    let mut accelerated = dns_github_domains();
    let mut a2 = ao3_domains();
    let mut p2 = pixiv_domains();
    accelerated.append(&mut a2);
    accelerated.append(&mut p2);
    assert(accelerated@ =~= spec_accelerated_domains());
    let domain = strip_root_dot(domain);
    DomainClass {
        github: ends_with_any(domain, &github_domains),
        ao3: ends_with_any(domain, &ao3),
        pixiv: ends_with_any(domain, &pixiv),
        accelerate: ends_with_any(domain, &accelerated),
    }
}

/// Whether the DNS server answers queries for `domain` from the scanner's pool.
pub fn should_accelerate(domain: &str) -> (r: bool)
    ensures
        r == matches_any_suffix(spec_strip_root_dot(domain@), spec_accelerated_domains()),
{
    classify_domain(domain).accelerate
}

/// Whether the HTTP proxy treats `host` as a GitHub host: it ends with one of the proxy's GitHub names.
pub fn is_github_domain(host: &str) -> (r: bool)
    ensures
        r == matches_any_suffix(host@, spec_proxy_github_domains()),
{
    let list = proxy_github_domains();
    ends_with_any(host, &list)
}

/// A name matches a concatenation of lists exactly when it matches one of them.
pub proof fn lemma_suffix_of_concat(d: Seq<char>, a: Seq<&str>, b: Seq<&str>)
    ensures
        matches_any_suffix(d, a + b) == (matches_any_suffix(d, a) || matches_any_suffix(d, b)),
{
    if matches_any_suffix(d, a + b) {
        let i = choose|i: int| 0 <= i < (a + b).len() && spec_ends_with(d, #[trigger] (a + b)[i]@);
        if i < a.len() {
            assert(a[i] == (a + b)[i]);
        } else {
            assert(b[i - a.len()] == (a + b)[i]);
        }
    }
    if matches_any_suffix(d, a) {
        let i = choose|i: int| 0 <= i < a.len() && spec_ends_with(d, #[trigger] a[i]@);
        assert((a + b)[i] == a[i]);
    }
    if matches_any_suffix(d, b) {
        let i = choose|i: int| 0 <= i < b.len() && spec_ends_with(d, #[trigger] b[i]@);
        assert((a + b)[a.len() + i] == b[i]);
    }
}

/// A queried name is accelerated exactly when it is a GitHub, Archive of Our Own
/// or Pixiv name; in particular every GitHub name the DNS server detects is accelerated.
pub proof fn law_accelerated_is_union_of_sites(d: Seq<char>)
    ensures
        spec_classify_domain(d).accelerate == (spec_classify_domain(d).github
            || spec_classify_domain(d).ao3 || spec_classify_domain(d).pixiv),
        spec_classify_domain(d).github ==> spec_classify_domain(d).accelerate,
{
    let n = spec_strip_root_dot(d);
    lemma_suffix_of_concat(n, spec_dns_github_domains() + spec_ao3_domains(), spec_pixiv_domains());
    lemma_suffix_of_concat(n, spec_dns_github_domains(), spec_ao3_domains());
}

/// The DNS server recognises each site by exactly these names: a queried
/// name (read without its trailing root dot) that ends with one of the
/// GitHub names is a GitHub name, one that ends with an Archive of Our Own
/// name is one of that site's, one that ends with a Pixiv or Fanbox name is
/// one of Pixiv's; each of these is accelerated, and a name that ends with
/// none of them is not.
pub proof fn law_dns_site_names_are_recognised(d: Seq<char>)
    ensures
        matches_any_suffix(
            spec_strip_root_dot(d),
            seq![
                "github.com",
                "api.github.com",
                "raw.githubusercontent.com",
                "gist.github.com",
                "github.io",
                "githubusercontent.com",
                "githubassets.com",
                "githubapp.com",
                "assets-cdn.github.com",
            ],
        ) <==> spec_classify_domain(d).github,
        matches_any_suffix(spec_strip_root_dot(d), seq!["archiveofourown.org", "archiveofourown.com"])
            <==> spec_classify_domain(d).ao3,
        matches_any_suffix(
            spec_strip_root_dot(d),
            seq!["pixiv.net", "www.pixiv.net", "dic.pixiv.net", "fanbox.cc", "www.fanbox.cc"],
        ) <==> spec_classify_domain(d).pixiv,
        spec_classify_domain(d).accelerate <==> (spec_classify_domain(d).github || spec_classify_domain(d).ao3
            || spec_classify_domain(d).pixiv),
{
    assert(seq![
        "github.com",
        "api.github.com",
        "raw.githubusercontent.com",
        "gist.github.com",
        "github.io",
        "githubusercontent.com",
        "githubassets.com",
        "githubapp.com",
        "assets-cdn.github.com",
    ] =~= spec_dns_github_domains());
    assert(seq!["archiveofourown.org", "archiveofourown.com"] =~= spec_ao3_domains());
    assert(seq!["pixiv.net", "www.pixiv.net", "dic.pixiv.net", "fanbox.cc", "www.fanbox.cc"] =~= spec_pixiv_domains());
    law_accelerated_is_union_of_sites(d);
}

/// The HTTP proxy treats a host as a GitHub host exactly when it ends with
/// one of these names.
pub proof fn law_proxy_github_names(host: Seq<char>)
    ensures
        matches_any_suffix(host, spec_proxy_github_domains()) <==> matches_any_suffix(
            host,
            seq![
                "github.com",
                "www.github.com",
                "api.github.com",
                "raw.githubusercontent.com",
                "gist.github.com",
                "github.io",
                "githubusercontent.com",
                "githubassets.com",
                "githubapp.com",
                "assets-cdn.github.com",
                "avatars.githubusercontent.com",
                "camo.githubusercontent.com",
            ],
        ),
{
    assert(seq![
        "github.com",
        "www.github.com",
        "api.github.com",
        "raw.githubusercontent.com",
        "gist.github.com",
        "github.io",
        "githubusercontent.com",
        "githubassets.com",
        "githubapp.com",
        "assets-cdn.github.com",
        "avatars.githubusercontent.com",
        "camo.githubusercontent.com",
    ] =~= spec_proxy_github_domains());
}

} // verus!
