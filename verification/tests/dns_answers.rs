use turbogithub::config::Config;
use turbogithub::dns_server::{
    action_for_plan, extract_and_register_github_ips, handle_dns_query, plan_dns_reply, reply_action,
    DnsAction, DnsMessageType, DnsPlan, DnsQuery, DnsQuestion,
};
use turbogithub::github_traffic_monitor::GitHubTrafficMonitor;
use turbogithub::scanner::{IpInfo, Scanner};

fn wire_query(id: u16, name: &[&str], qtype: u16) -> Vec<u8> {
    let mut b = vec![(id >> 8) as u8, id as u8, 0x01, 0x00, 0, 1, 0, 0, 0, 0, 0, 0];
    for label in name {
        b.push(label.len() as u8);
        b.extend_from_slice(label.as_bytes());
    }
    b.push(0);
    b.extend_from_slice(&[(qtype >> 8) as u8, qtype as u8, 0, 1]);
    b
}

fn scanner_with(domain: &str, ip: [u8; 4]) -> Scanner {
    let mut s = Scanner::new(Config::default());
    s.record_scan(domain.to_string(), vec![IpInfo { ip, rtt_nanos: 1_000_000, reachable: true, https_available: true }]);
    s
}

fn query(name: &str, message_type: DnsMessageType) -> DnsQuery {
    DnsQuery {
        id: 0x4242,
        message_type,
        op_code: 0,
        recursion_desired: true,
        questions: vec![DnsQuestion {
            name: name.to_string(),
            labels: name.trim_end_matches('.').split('.').map(|l| l.as_bytes().to_vec()).collect(),
            record_type: 1,
            dns_class: 1,
        }],
    }
}

#[test]
fn wire_queries_for_accelerated_names_are_answered_from_the_pool() {
    let scanner = scanner_with("github.com", [140, 82, 112, 3]);
    match handle_dns_query(&scanner, &wire_query(7, &["github", "com"], 1)) {
        DnsAction::Reply { response, domain } => {
            assert_eq!(domain, "github.com.");
            assert_eq!(&response[0..2], &[0, 7]);
            assert_eq!(response[2] & 0x80, 0x80, "QR bit set");
            assert_eq!(&response[6..8], &[0, 1], "one answer");
            assert_eq!(&response[response.len() - 4..], &[140, 82, 112, 3]);
        }
        _ => panic!("expected an answer"),
    }
}

#[test]
fn wire_queries_without_pool_address_are_forwarded_as_decoded() {
    let scanner = scanner_with("github.com", [140, 82, 112, 3]);
    match handle_dns_query(&scanner, &wire_query(8, &["api", "github", "com"], 1)) {
        DnsAction::Forward { domain, github } => {
            assert_eq!(domain, "api.github.com.");
            assert!(github);
        }
        _ => panic!("expected forwarding"),
    }
    match handle_dns_query(&scanner, &wire_query(9, &["example", "org"], 1)) {
        DnsAction::Forward { domain, github } => {
            assert_eq!(domain, "example.org.");
            assert!(!github);
        }
        _ => panic!("expected forwarding"),
    }
}

#[test]
fn answered_names_keep_their_bytes_and_case() {
    let scanner = scanner_with("API.github.com", [140, 82, 112, 5]);
    let query = wire_query(10, &["API", "github", "com"], 1);
    match handle_dns_query(&scanner, &query) {
        DnsAction::Reply { response, domain } => {
            assert_eq!(domain, "API.github.com.");
            assert_eq!(&response[12..query.len()], &query[12..], "question copied byte for byte");
            assert_eq!(&response[response.len() - 4..], &[140, 82, 112, 5]);
        }
        _ => panic!("expected an answer"),
    }
    let scanner = scanner_with("_x.github.com", [140, 82, 112, 6]);
    match handle_dns_query(&scanner, &wire_query(11, &["_x", "github", "com"], 1)) {
        DnsAction::Reply { response, .. } => {
            assert_eq!(&response[response.len() - 4..], &[140, 82, 112, 6]);
        }
        _ => panic!("expected an answer for a name with an underscore"),
    }
}

#[test]
fn garbage_datagrams_are_ignored() {
    let scanner = Scanner::new(Config::default());
    assert!(matches!(handle_dns_query(&scanner, &[1, 2, 3]), DnsAction::Ignore));
    assert!(matches!(handle_dns_query(&scanner, &[]), DnsAction::Ignore));
}

#[test]
fn accelerated_name_with_usable_address_is_answered() {
    let scanner = scanner_with("github.com", [140, 82, 112, 3]);
    let plan = plan_dns_reply(&scanner, Some(query("github.com", DnsMessageType::Query)));
    match &plan {
        DnsPlan::Respond { response, domain } => {
            assert_eq!(domain, "github.com");
            assert_eq!(response.id, 0x4242);
            assert!(response.recursion_desired);
            assert!(response.recursion_available);
            assert_eq!(response.response_code, 0);
            assert_eq!(response.questions.len(), 1);
            assert_eq!(response.answers.len(), 1);
            assert_eq!(response.answers[0].ttl, 60);
            assert_eq!(response.answers[0].ip, [140, 82, 112, 3]);
            assert_eq!(response.answers[0].labels, vec![b"github".to_vec(), b"com".to_vec()]);
        }
        _ => panic!("expected an answer"),
    }
    match action_for_plan(plan) {
        DnsAction::Reply { response, domain } => {
            assert_eq!(domain, "github.com");
            assert_eq!(&response[0..2], &[0x42, 0x42]);
            assert_eq!(response[2] & 0x80, 0x80, "QR bit set");
            assert_eq!(response[3] & 0x80, 0x80, "RA bit set");
            assert_eq!(&response[6..8], &[0, 1], "one answer");
            assert_eq!(&response[response.len() - 4..], &[140, 82, 112, 3]);
        }
        _ => panic!("expected a reply"),
    }
}

#[test]
fn names_without_usable_address_or_not_accelerated_are_forwarded() {
    let scanner = scanner_with("github.com", [1, 2, 3, 4]);
    match plan_dns_reply(&scanner, Some(query("api.github.com", DnsMessageType::Query))) {
        DnsPlan::Forward { domain, github } => {
            assert_eq!(domain, "api.github.com");
            assert!(github);
        }
        _ => panic!("expected forwarding"),
    }
    match plan_dns_reply(&scanner, Some(query("pixiv.net", DnsMessageType::Query))) {
        DnsPlan::Forward { github, .. } => assert!(!github),
        _ => panic!("expected forwarding"),
    }
    match plan_dns_reply(&scanner, Some(query("example.org", DnsMessageType::Query))) {
        DnsPlan::Forward { domain, github } => {
            assert_eq!(domain, "example.org");
            assert!(!github);
        }
        _ => panic!("expected forwarding"),
    }
}

#[test]
fn responses_and_empty_queries_are_ignored() {
    let scanner = scanner_with("github.com", [1, 2, 3, 4]);
    assert!(matches!(plan_dns_reply(&scanner, Some(query("github.com", DnsMessageType::Response))), DnsPlan::Ignore));
    let mut q = query("github.com", DnsMessageType::Query);
    q.questions.clear();
    assert!(matches!(plan_dns_reply(&scanner, Some(q)), DnsPlan::Ignore));
    assert!(matches!(plan_dns_reply(&scanner, None), DnsPlan::Ignore));
}

#[test]
fn failed_encoding_sends_nothing() {
    assert!(matches!(reply_action("x".to_string(), None), DnsAction::Ignore));
    match reply_action("x".to_string(), Some(vec![1, 2])) {
        DnsAction::Reply { response, domain } => {
            assert_eq!(response, vec![1, 2]);
            assert_eq!(domain, "x");
        }
        _ => panic!("expected a reply"),
    }
}

fn wire_reply(ips: &[[u8; 4]]) -> Vec<u8> {
    let mut b = vec![0, 9, 0x81, 0x80, 0, 1, 0, ips.len() as u8, 0, 0, 0, 0];
    b.extend_from_slice(&[6, b'g', b'i', b't', b'h', b'u', b'b', 3, b'c', b'o', b'm', 0, 0, 1, 0, 1]);
    for ip in ips {
        b.extend_from_slice(&[0xc0, 0x0c, 0, 1, 0, 1, 0, 0, 0, 60, 0, 4]);
        b.extend_from_slice(ip);
    }
    b
}

#[test]
fn upstream_a_records_are_learnt_as_github_addresses() {
    let mut monitor = GitHubTrafficMonitor::new(10);
    extract_and_register_github_ips(&mut monitor, &wire_reply(&[[140, 82, 112, 4], [140, 82, 113, 4]]));
    let tracker = monitor.get_github_tracker();
    assert!(tracker.is_github_ip("140.82.112.4"));
    assert!(tracker.is_github_ip("140.82.113.4"));
    assert!(!tracker.is_github_ip("1.1.1.1"));
    extract_and_register_github_ips(&mut monitor, &[0xff]);
    assert_eq!(monitor.get_github_tracker().get_github_ips().len(), 2);
}
