use turbogithub::config::Config;
use turbogithub::http_proxy::{
    parse_host_port, plan_proxy_request, plan_proxy_text, proxy_after_connect, ConnectAttempt, HostPortError,
    ProxyNext, ProxyPlan,
};
use turbogithub::scanner::{IpInfo, Scanner};

#[test]
fn host_and_port_are_read_after_the_scheme() {
    assert_eq!(parse_host_port("github.com:443"), Ok(("github.com".to_string(), 443)));
    assert_eq!(parse_host_port("http://example.org:8080"), Ok(("example.org".to_string(), 8080)));
    assert_eq!(parse_host_port("https://api.github.com:+443"), Ok(("api.github.com".to_string(), 443)));
    assert_eq!(parse_host_port("http://github.com/path"), Ok(("github.com/path".to_string(), 80)));
    assert_eq!(parse_host_port("github.com"), Ok(("github.com".to_string(), 80)));
}

#[test]
fn bad_ports_are_refused() {
    assert_eq!(parse_host_port("github.com:"), Err(HostPortError::InvalidPort));
    assert_eq!(parse_host_port("github.com:65536"), Err(HostPortError::InvalidPort));
    assert_eq!(parse_host_port("github.com:44x"), Err(HostPortError::InvalidPort));
}

fn scanner() -> Scanner {
    let mut s = Scanner::new(Config::default());
    s.record_scan(
        "github.com".to_string(),
        vec![IpInfo { ip: [140, 82, 114, 4], rtt_nanos: 3, reachable: true, https_available: true }],
    );
    s
}

#[test]
fn github_connect_requests_use_the_scanned_address() {
    match plan_proxy_text(&scanner(), "CONNECT github.com:443 HTTP/1.1\r\nHost: github.com\r\n\r\n") {
        ProxyPlan::Connect { host, port, optimized } => {
            assert_eq!(host, "github.com");
            assert_eq!(port, 443);
            assert_eq!(optimized, Some([140, 82, 114, 4]));
        }
        _ => panic!("expected a connection"),
    }
}

#[test]
fn other_hosts_connect_directly() {
    match plan_proxy_request(&scanner(), b"CONNECT example.org:8443 HTTP/1.1\r\n\r\n") {
        ProxyPlan::Connect { host, port, optimized } => {
            assert_eq!(host, "example.org");
            assert_eq!(port, 8443);
            assert_eq!(optimized, None);
        }
        _ => panic!("expected a connection"),
    }
    // An absolute URL keeps its path in the host and, with a port, fails to parse.
    match plan_proxy_request(&scanner(), b"GET http://example.org/ HTTP/1.1\r\n\r\n") {
        ProxyPlan::Connect { host, port, .. } => {
            assert_eq!(host, "example.org/");
            assert_eq!(port, 80);
        }
        _ => panic!("expected a connection"),
    }
    assert!(matches!(
        plan_proxy_request(&scanner(), b"GET http://example.org:8080/ HTTP/1.1\r\n\r\n"),
        ProxyPlan::BadTarget(HostPortError::InvalidPort)
    ));
}

#[test]
fn short_request_lines_close_the_connection() {
    assert!(matches!(plan_proxy_text(&scanner(), "GET /\r\n"), ProxyPlan::Invalid));
    assert!(matches!(plan_proxy_text(&scanner(), ""), ProxyPlan::Invalid));
    assert!(matches!(plan_proxy_request(&scanner(), b"\n GET a b"), ProxyPlan::Invalid));
    assert!(matches!(
        plan_proxy_text(&scanner(), "CONNECT github.com:x HTTP/1.1"),
        ProxyPlan::BadTarget(HostPortError::InvalidPort)
    ));
}

#[test]
fn connection_attempts_fall_back_to_the_host_name() {
    assert_eq!(proxy_after_connect(ConnectAttempt::Optimized, true), ProxyNext::Relay { record_traffic: true });
    assert_eq!(proxy_after_connect(ConnectAttempt::Optimized, false), ProxyNext::ConnectDirect);
    assert_eq!(proxy_after_connect(ConnectAttempt::Direct, true), ProxyNext::Relay { record_traffic: false });
    assert_eq!(proxy_after_connect(ConnectAttempt::Direct, false), ProxyNext::Close);
}
