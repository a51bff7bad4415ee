//! The decisions of the local HTTP proxy: reading the target out of a request,
//! choosing an optimized address for GitHub hosts, and what to do after each
//! connection attempt. The sockets themselves belong to the caller.

use vstd::prelude::*;
use crate::text::{
    spec_trim_start_matches, trim_start_matches, spec_find_char, find_char, spec_parse_u16,
    parse_u16, spec_first_line, first_line, spec_words, split_whitespace, spec_from_utf8_lossy,
    from_utf8_lossy,
};
use crate::domains::{matches_any_suffix, spec_proxy_github_domains, is_github_domain, law_proxy_github_names};
use crate::scanner::Scanner;

verus! {

/// Port used when a request target names none.
pub const DEFAULT_HTTP_PORT: u16 = 80;

/// Why a request target could not be read.
#[derive(Clone, Copy, Debug, PartialEq, Eq, Structural)]
pub enum HostPortError {
    /// The text after the colon is not a port number.
    InvalidPort,
}

/// The target text without a leading `http://`, then without a leading
/// `https://` (each removed as often as it repeats).
pub open spec fn spec_strip_scheme(url: Seq<char>) -> Seq<char> {
    spec_trim_start_matches(spec_trim_start_matches(url, "http://"@), "https://"@)
}

/// The host and port named by a request target: after the scheme prefixes are
/// removed, the text before the first colon and the port after it, or the
/// whole text and port 80 when there is no colon.
pub open spec fn spec_parse_host_port(url: Seq<char>) -> Result<(Seq<char>, u16), HostPortError> {
    let u = spec_strip_scheme(url);
    match spec_find_char(u, ':') {
        Some(i) => match spec_parse_u16(u.subrange(i + 1, u.len() as int)) {
            Some(p) => Ok((u.subrange(0, i), p)),
            None => Err(HostPortError::InvalidPort),
        },
        None => Ok((u, DEFAULT_HTTP_PORT)),
    }
}

/// Reads the host and port out of a request target.
pub fn parse_host_port(url: &str) -> (r: Result<(String, u16), HostPortError>)
    ensures
        match r {
            Ok((h, p)) => spec_parse_host_port(url@) == Ok::<(Seq<char>, u16), HostPortError>((h@, p)),
            Err(e) => spec_parse_host_port(url@) == Err::<(Seq<char>, u16), HostPortError>(e),
        },
{
    proof {
        reveal_strlit("http://");
        reveal_strlit("https://");
    }
    let u1 = trim_start_matches(url, "http://");
    let u = trim_start_matches(u1, "https://");
    match find_char(u, ':') {
        Some(i) => {
            proof {
                let c = choose|c: int|
                    0 <= c < u@.len() && u@[c] == ':' && forall|j: int| 0 <= j < c ==> u@[j] != ':';
                if c < i {
                } else if i < c {
                }
                assert(c == i);
            }
            let n = u.unicode_len();
            let port_text = u.substring_char(i + 1, n);
            match parse_u16(port_text) {
                Some(p) => {
                    let host = u.substring_char(0, i);
                    Ok((host.to_string(), p))
                },
                None => Err(HostPortError::InvalidPort),
            }
        },
        None => {
            assert(!exists|j: int| 0 <= j < u@.len() && u@[j] == ':');
            Ok((u.to_string(), DEFAULT_HTTP_PORT))
        },
    }
}

/// What the proxy does with a received request.
pub enum ProxyPlan {
    /// The request line has fewer than three words: the connection is closed.
    Invalid,
    /// The target's port could not be read: the connection fails.
    BadTarget(HostPortError),
    /// Connect to the target; for a GitHub host with a usable scanned address,
    /// to that address first.
    Connect { host: String, port: u16, optimized: Option<[u8; 4]> },
}

/// The values of a proxy plan.
pub enum ProxyPlanView {
    Invalid,
    BadTarget(HostPortError),
    Connect(Seq<char>, u16, Option<[u8; 4]>),
}

impl View for ProxyPlan {
    type V = ProxyPlanView;

    open spec fn view(&self) -> ProxyPlanView {
        match self {
            ProxyPlan::Invalid => ProxyPlanView::Invalid,
            ProxyPlan::BadTarget(e) => ProxyPlanView::BadTarget(*e),
            ProxyPlan::Connect { host, port, optimized } => ProxyPlanView::Connect(
                host@,
                *port,
                *optimized,
            ),
        }
    }
}

/// What the proxy does with a request whose text is `text`: the words of its
/// first line must be at least three (method, target, version); the target
/// gives host and port; a GitHub host is first tried at the scanner's best
/// address for it.
pub open spec fn spec_proxy_plan(s: &Scanner, text: Seq<char>) -> ProxyPlanView {
    let parts = spec_words(spec_first_line(text));
    if parts.len() < 3 {
        ProxyPlanView::Invalid
    } else {
        match spec_parse_host_port(parts[1]) {
            Err(e) => ProxyPlanView::BadTarget(e),
            Ok((host, port)) => ProxyPlanView::Connect(
                host,
                port,
                if matches_any_suffix(host, spec_proxy_github_domains()) {
                    s.best_for(host)
                } else {
                    None
                },
            ),
        }
    }
}

/// Decides what to do with a request, given its text.
pub fn plan_proxy_text(scanner: &Scanner, text: &str) -> (r: ProxyPlan)
    ensures
        r@ == spec_proxy_plan(scanner, text@),
{
    let line = first_line(text);
    let parts = split_whitespace(line);
    proof {
        assert(parts@.map_values(|w: String| w@).len() == parts@.len());
    }
    if parts.len() < 3 {
        return ProxyPlan::Invalid;
    }
    assert(parts@.map_values(|w: String| w@)[1] == parts@[1]@);
    match parse_host_port(parts[1].as_str()) {
        Err(e) => ProxyPlan::BadTarget(e),
        Ok((host, port)) => {
            let optimized = if is_github_domain(host.as_str()) {
                scanner.get_best_ip(host.as_str())
            } else {
                None
            };
            ProxyPlan::Connect { host, port, optimized }
        },
    }
}

/// Decides what to do with a request, given the bytes first read from the
/// client (decoded leniently as UTF-8).
pub fn plan_proxy_request(scanner: &Scanner, request: &[u8]) -> (r: ProxyPlan)
    ensures
        r@ == spec_proxy_plan(scanner, spec_from_utf8_lossy(request@)),
{
    let text = from_utf8_lossy(request);
    plan_proxy_text(scanner, text.as_str())
}

/// Which address a connection attempt went to.
#[derive(Clone, Copy, Debug, PartialEq, Eq, Structural)]
pub enum ConnectAttempt {
    /// The scanner's address for a GitHub host.
    Optimized,
    /// The host name itself.
    Direct,
}

/// What follows a connection attempt.
#[derive(Clone, Copy, Debug, PartialEq, Eq, Structural)]
pub enum ProxyNext {
    /// Forward the request and relay both directions; afterwards record the
    /// traffic when `record_traffic` holds.
    Relay { record_traffic: bool },
    /// Try the host name itself.
    ConnectDirect,
    /// Give up; the connection ends without error.
    Close,
}

/// What follows a connection attempt: relaying when it connected (recording
/// the traffic only for an optimized address), falling back to the host name
/// when the optimized address failed, and closing when the host name failed.
pub open spec fn spec_proxy_after_connect(attempt: ConnectAttempt, connected: bool) -> ProxyNext {
    match attempt {
        ConnectAttempt::Optimized => if connected {
            ProxyNext::Relay { record_traffic: true }
        } else {
            ProxyNext::ConnectDirect
        },
        ConnectAttempt::Direct => if connected {
            ProxyNext::Relay { record_traffic: false }
        } else {
            ProxyNext::Close
        },
    }
}

/// Decides what follows a connection attempt.
pub fn proxy_after_connect(attempt: ConnectAttempt, connected: bool) -> (r: ProxyNext)
    ensures
        r == spec_proxy_after_connect(attempt, connected),
{
    match attempt {
        ConnectAttempt::Optimized => if connected {
            ProxyNext::Relay { record_traffic: true }
        } else {
            ProxyNext::ConnectDirect
        },
        ConnectAttempt::Direct => if connected {
            ProxyNext::Relay { record_traffic: false }
        } else {
            ProxyNext::Close
        },
    }
}

/// A request is never relayed without a connection, and only an optimized
/// connection's traffic is recorded; a failed optimized attempt always falls
/// back to the host name.
pub proof fn law_proxy_falls_back_and_records_only_optimized(attempt: ConnectAttempt, connected: bool)
    ensures
        spec_proxy_after_connect(attempt, connected) is Relay <==> connected,
        spec_proxy_after_connect(attempt, connected) == (ProxyNext::Relay { record_traffic: true })
            <==> (attempt == ConnectAttempt::Optimized && connected),
        (attempt == ConnectAttempt::Optimized && !connected) ==> spec_proxy_after_connect(
            attempt,
            connected,
        ) == ProxyNext::ConnectDirect,
{
}

/// A request for a host that ends with one of the proxy's GitHub names is
/// first tried at the scanner's best address for that host (none when the
/// scanner has no usable one); any other host is never redirected.
pub proof fn law_github_hosts_use_the_scanned_address(s: &Scanner, text: Seq<char>)
    ensures
        spec_proxy_plan(s, text) matches ProxyPlanView::Connect(host, port, optimized) ==> optimized == if matches_any_suffix(
            host,
            seq![
                "github.com",
                "www.github.com",
                "api.github.com",
                "raw.githubusercontent.com",
                "gist.github.com",
                "github.io",
                "githubusercontent.com",
                "githubassets.com",
                "githubapp.com",
                "assets-cdn.github.com",
                "avatars.githubusercontent.com",
                "camo.githubusercontent.com",
            ],
        ) {
            s.best_for(host)
        } else {
            None
        },
{
    if let ProxyPlanView::Connect(host, port, optimized) = spec_proxy_plan(s, text) {
        law_proxy_github_names(host);
    }
}

} // verus!
