use turbogithub::text::decimal_string;
use turbogithub::client::ensure_connected_outcome;
use turbogithub::client::{
    domain_ip_info, match_response, port_from_files, retries_exhausted_message, retry_delay_secs, server_address,
    service_stats, ConnectStep, IpcClientState, ResponseMatch, RetryState, DEFAULT_MAX_RETRIES,
    SERVICE_CONNECT_RETRIES,
};

#[test]
fn waits_double_between_attempts() {
    assert_eq!(retry_delay_secs(1), 1);
    assert_eq!(retry_delay_secs(2), 2);
    assert_eq!(retry_delay_secs(4), 8);
    assert_eq!(retry_delay_secs(64), 1u64 << 63);
}

#[test]
fn a_round_that_always_fails_waits_then_gives_up() {
    let mut r = RetryState::new(DEFAULT_MAX_RETRIES);
    assert!(r.begin_connect());
    let mut steps = Vec::new();
    loop {
        let n = r.begin_attempt();
        let step = r.end_attempt(false);
        steps.push((n, step));
        if step == ConnectStep::GiveUp {
            break;
        }
    }
    assert_eq!(
        steps,
        vec![(1, ConnectStep::RetryAfter(1)), (2, ConnectStep::RetryAfter(2)), (3, ConnectStep::GiveUp)]
    );
    assert!(!r.connected);
}

#[test]
fn a_successful_attempt_connects_and_resets_the_count() {
    let mut r = RetryState::new(SERVICE_CONNECT_RETRIES);
    r.begin_connect();
    r.begin_attempt();
    assert_eq!(r.end_attempt(false), ConnectStep::RetryAfter(1));
    r.begin_attempt();
    assert_eq!(r.end_attempt(true), ConnectStep::Connected);
    assert!(r.connected);
    assert_eq!(r.attempts, 0);
    r.disconnect();
    assert!(!r.connected);
    let mut none = RetryState::new(0);
    assert!(!none.begin_connect());
}

#[test]
fn client_state_defaults() {
    let c = IpcClientState::new("127.0.0.1:13626".to_string());
    assert_eq!(c.retry.max_retries, 3);
    assert!(!c.is_connected());
    assert_eq!(c.ws_url(), "ws://127.0.0.1:13626");
    let d = IpcClientState::with_retries("h:1".to_string(), 9);
    assert_eq!(d.retry.max_retries, 9);
    assert_eq!(retries_exhausted_message(3), "连接失败，已达到最大重试次数: 3");
}

#[test]
fn replies_are_matched_by_id() {
    assert_eq!(match_response(Some(5), 5, false), ResponseMatch::Result);
    assert_eq!(match_response(Some(5), 5, true), ResponseMatch::Error);
    assert_eq!(match_response(Some(4), 5, false), ResponseMatch::Skip);
    assert_eq!(match_response(None, 5, true), ResponseMatch::Skip);
}

#[test]
fn the_port_file_is_the_first_readable_number() {
    let files = vec![None, Some("junk".to_string()), Some(" 41234\r\n".to_string()), Some("1".to_string())];
    assert_eq!(port_from_files(&files), Some(41234));
    assert_eq!(port_from_files(&vec![None, Some("70000".to_string())]), None);
    assert_eq!(port_from_files(&Vec::new()), None);
}

#[test]
fn a_written_port_reads_back() {
    for port in [0u16, 7, 53535, 65535] {
        let written = decimal_string(port as u64);
        assert_eq!(port_from_files(&vec![Some(written), Some("1".to_string())]), Some(port));
    }
}

#[test]
fn dynamic_addresses_resolve_through_the_port_file() {
    assert_eq!(server_address("dynamic".to_string(), Some(41234)), "127.0.0.1:41234");
    assert_eq!(server_address("dynamic".to_string(), None), "127.0.0.1:13626");
    assert_eq!(server_address("10.0.0.1:9".to_string(), Some(41234)), "10.0.0.1:9");
}

#[test]
fn status_fields_default_when_missing() {
    let d = domain_ip_info(None, None, None);
    assert_eq!(d.domain, "unknown");
    assert_eq!(d.ip, "0.0.0.0");
    assert_eq!(d.rtt, 0);
    let e = domain_ip_info(Some("github.com".to_string()), Some("1.2.3.4".to_string()), Some(7));
    assert_eq!((e.domain.as_str(), e.ip.as_str(), e.rtt), ("github.com", "1.2.3.4", 7));
    let s = service_stats(Some(4), None);
    assert_eq!(s.domains_scanned, 4);
    assert_eq!(s.total_ips, 0);
}

#[test]
fn integrated_service_connection_outcome() {
    assert_eq!(ensure_connected_outcome(true, false, None), Ok(()));
    assert_eq!(ensure_connected_outcome(false, true, Some("x".to_string())), Ok(()));
    assert_eq!(
        ensure_connected_outcome(false, false, Some("Connection refused".to_string())),
        Err("连接失败：Connection refused".to_string())
    );
    assert_eq!(ensure_connected_outcome(false, false, None), Err("连接失败：未知错误".to_string()));
}
