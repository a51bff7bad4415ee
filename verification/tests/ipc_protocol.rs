use turbogithub::ipc::{
    count_param, logs_tail, parse_rpc_method, start_message, status_summary, stop_message, unknown_method_message,
    LogEntry, RpcMethod, ServiceController, StartDecision, StopDecision, DEFAULT_LOG_LINES,
    DEFAULT_PROCESS_REALTIME_POINTS, DEFAULT_REALTIME_POINTS, INTERNAL_ERROR_CODE,
};
use turbogithub::scanner::{DomainIps, IpInfo};
use turbogithub::config::Config;
use turbogithub::ipc::start_upstream;

#[test]
fn started_dns_server_forwards_to_the_configured_upstream() {
    let c = Config::default();
    assert_eq!(start_upstream(&c), "223.5.5.5:53");
    assert_ne!(start_upstream(&c), c.listen_addr);
}

#[test]
fn every_method_name_is_recognised() {
    let names = [
        ("start", RpcMethod::Start),
        ("stop", RpcMethod::Stop),
        ("get_status", RpcMethod::GetStatus),
        ("get_config", RpcMethod::GetConfig),
        ("set_config", RpcMethod::SetConfig),
        ("get_logs", RpcMethod::GetLogs),
        ("get_traffic", RpcMethod::GetTraffic),
        ("get_realtime_traffic", RpcMethod::GetRealtimeTraffic),
        ("get_process_traffic", RpcMethod::GetProcessTraffic),
        ("get_process_realtime_traffic", RpcMethod::GetProcessRealtimeTraffic),
        ("ping", RpcMethod::Ping),
    ];
    for (n, m) in names {
        assert_eq!(parse_rpc_method(n), Some(m));
    }
    assert_eq!(parse_rpc_method("scan_now"), None);
    assert_eq!(parse_rpc_method(""), None);
    assert_eq!(unknown_method_message("scan_now"), "Unknown method: scan_now");
    assert_eq!(INTERNAL_ERROR_CODE, -32603);
}

#[test]
fn start_stop_cycle() {
    let mut c = ServiceController::new();
    assert!(!c.is_running());
    assert_eq!(c.auto_start_ports(), None);
    assert_eq!(c.begin_stop(), StopDecision::NotRunning);
    assert_eq!(c.begin_start(), StartDecision::Start);
    c.finish_start();
    assert!(c.is_running());
    assert_eq!(c.begin_start(), StartDecision::AlreadyRunning { dns_port: 53535, http_port: 7890 });
    assert_eq!(c.auto_start_ports(), Some((0, 0)));
    assert_eq!(c.begin_stop(), StopDecision::Stop);
    c.finish_stop();
    assert!(!c.is_running());
    assert_eq!(start_message(true), "Service is already running");
    assert_eq!(start_message(false), "Service started");
    assert_eq!(stop_message(true), "DNS server stopped");
    assert_eq!(stop_message(false), "DNS server is not running");
}

#[test]
fn count_parameters_default() {
    assert_eq!(count_param(None, DEFAULT_LOG_LINES), 100);
    assert_eq!(count_param(Some(7), DEFAULT_LOG_LINES), 7);
    assert_eq!(count_param(None, DEFAULT_REALTIME_POINTS), 100);
    assert_eq!(count_param(None, DEFAULT_PROCESS_REALTIME_POINTS), 50);
}

fn info(last: u8, rtt_ms: u64, ok: bool) -> IpInfo {
    IpInfo { ip: [10, 0, 0, last], rtt_nanos: rtt_ms * 1_000_000 + 999_999, reachable: ok, https_available: ok }
}

#[test]
fn status_lists_the_first_usable_address_per_domain() {
    let pool = vec![
        DomainIps { domain: "github.com".to_string(), ips: vec![info(1, 9, false), info(2, 12, true), info(3, 1, true)] },
        DomainIps { domain: "api.github.com".to_string(), ips: vec![info(4, 3, false)] },
        DomainIps { domain: "empty.example".to_string(), ips: vec![] },
    ];
    let s = status_summary(&pool, true);
    assert!(s.running);
    assert_eq!(s.current_ips.len(), 1);
    assert_eq!(s.current_ips[0].domain, "github.com");
    assert_eq!(s.current_ips[0].ip, "10.0.0.2");
    assert_eq!(s.current_ips[0].rtt, 12);
    assert_eq!(s.stats.domains_scanned, 3);
    assert_eq!(s.stats.total_ips, 4);
    let empty = status_summary(&Vec::new(), false);
    assert!(!empty.running);
    assert_eq!(empty.stats.total_ips, 0);
}

fn entry(n: u32) -> LogEntry {
    LogEntry { timestamp: format!("t{}", n), level: "INFO".to_string(), message: format!("m{}", n) }
}

#[test]
fn log_tail_returns_the_newest_lines_oldest_first() {
    let logs: Vec<LogEntry> = (0..5).map(entry).collect();
    let r = logs_tail(&logs, 2);
    assert_eq!(r.total_count, 5);
    assert_eq!(r.returned_count, 2);
    assert_eq!(r.logs[0].message, "m3");
    assert_eq!(r.logs[1].message, "m4");
    let all = logs_tail(&logs, 100);
    assert_eq!(all.returned_count, 5);
    assert_eq!(all.logs[0].timestamp, "t0");
    let none = logs_tail(&logs, 0);
    assert_eq!(none.returned_count, 0);
}
