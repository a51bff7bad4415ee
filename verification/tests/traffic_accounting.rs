use turbogithub::github_traffic_monitor::{sum_interfaces, GitHubIPTracker, GitHubTrafficMonitor, InterfaceTraffic};
use turbogithub::process_filter::{create_process_filter, ProcessConfig, ProcessFilter, ProcessSnapshot};
use turbogithub::process_traffic_filter::{
    class_label, classify_process, ClassTotals, ProcessClass, ProcessEstimate, ProcessTrafficFilter,
};
use turbogithub::simple_network_monitor::SimpleNetworkMonitor;
use turbogithub::traffic_stats::TrafficStats;

#[test]
fn dns_traffic_totals_are_per_domain_sums() {
    let mut s = TrafficStats::new_at(2, 1000);
    s.record_dns_query_at("github.com", 30, 120, 1001);
    s.record_dns_query_at("pixiv.net", 10, 40, 1002);
    s.record_dns_query_at("github.com", 5, 60, 1003);
    assert_eq!(s.get_total_traffic(), (45, 220, 3));
    let d = s.get_domain_traffic();
    assert_eq!(d.len(), 2);
    assert_eq!(d[0].domain, "github.com");
    assert_eq!((d[0].upload_bytes, d[0].download_bytes, d[0].query_count, d[0].last_updated), (35, 180, 2, 1003));
    assert_eq!(d[1].domain, "pixiv.net");
    let r = s.get_realtime_data(10);
    assert_eq!(r.len(), 2);
    assert_eq!((r[0].timestamp, r[0].upload_bytes, r[0].total_queries), (1002, 10, 2));
    assert_eq!((r[1].timestamp, r[1].download_bytes, r[1].total_queries), (1003, 60, 3));
    assert_eq!(s.get_realtime_data(1).len(), 1);
    assert_eq!(s.get_start_time(), 1000);
}

#[test]
fn realtime_samples_are_the_newest_recorded() {
    for m in 1usize..5 {
        let mut s = TrafficStats::new_at(m, 0);
        for k in 1u64..=7 {
            s.record_dns_query_at("github.com", k as usize, 0, k);
            let r = s.get_realtime_data(usize::MAX);
            let kept = (k as usize).min(m);
            assert_eq!(r.len(), kept);
            let times: Vec<u64> = r.iter().map(|p| p.timestamp).collect();
            let expected: Vec<u64> = ((k + 1 - kept as u64)..=k).collect();
            assert_eq!(times, expected);
        }
    }
}

#[test]
fn recording_touches_only_its_domain() {
    let mut s = TrafficStats::new_at(4, 0);
    s.record_dns_query_at("a.com", 1, 2, 1);
    s.record_dns_query_at("b.com", 3, 4, 2);
    s.record_dns_query_at("a.com", 10, 20, 3);
    let d = s.get_domain_traffic();
    assert_eq!((d[0].upload_bytes, d[0].download_bytes, d[0].query_count, d[0].last_updated), (11, 22, 2, 3));
    assert_eq!((d[1].upload_bytes, d[1].download_bytes, d[1].query_count, d[1].last_updated), (3, 4, 1, 2));
}

#[test]
fn tracker_reads_back_what_was_added() {
    let mut t = GitHubIPTracker::new();
    assert!(!t.is_github_ip("140.82.112.3"));
    t.add_github_ip("140.82.112.3".to_string());
    t.add_github_ip("140.82.112.3".to_string());
    t.add_github_ip("185.199.108.133".to_string());
    assert!(t.is_github_ip("140.82.112.3"));
    assert_eq!(t.get_github_ips().len(), 2);
    assert!(t.is_github_ip("185.199.108.133"));
    assert!(!t.is_github_ip("140.82.112.3 "));
    assert!(!t.is_github_ip("140.82.112.4"));
}

#[test]
fn monitor_records_deltas_that_add_up() {
    let mut m = GitHubTrafficMonitor::new(3);
    let none: Vec<ProcessSnapshot> = Vec::new();
    let net = |tx, rx| vec![InterfaceTraffic { total_transmitted: tx, total_received: rx }];
    assert!(m.record_traffic_point_at(&net(100, 1000), &none, 1));
    assert!(m.record_traffic_point_at(&net(150, 1600), &none, 2));
    assert!(m.record_traffic_point_at(&net(140, 1700), &none, 3));
    let h = m.get_traffic_history(10);
    assert_eq!(h.len(), 3);
    assert_eq!((h[0].github_upload, h[1].github_upload, h[2].github_upload), (100, 50, 0));
    assert_eq!((h[0].github_download, h[1].github_download, h[2].github_download), (1000, 600, 100));
    assert_eq!(m.get_github_traffic_stats(), (150, 1700));
    assert!(m.is_github_interface("eth0"));
    let big = vec![
        InterfaceTraffic { total_transmitted: u64::MAX, total_received: 0 },
        InterfaceTraffic { total_transmitted: 1, total_received: 0 },
    ];
    assert_eq!(sum_interfaces(&big), None);
    assert!(!m.record_traffic_point_at(&big, &none, 4));
    assert_eq!(m.get_traffic_history(10).len(), 3);
}

#[test]
fn target_processes_are_recognised_by_name_or_path() {
    let f = create_process_filter();
    assert_eq!(f.is_target_process("Chrome", None), Some("浏览器进程".to_string()));
    assert_eq!(f.is_target_process("svc", Some("C:\\Program Files\\Git\\GIT.EXE")), Some("Git进程".to_string()));
    assert_eq!(f.is_target_process("notepad", None), None);
    let mut g = ProcessFilter::default();
    g.add_process_config(ProcessConfig {
        name_patterns: vec!["cargo".to_string()],
        executable_patterns: vec![],
        description: "Rust".to_string(),
    });
    assert_eq!(g.get_process_configs().len(), 5);
    let snaps = vec![
        ProcessSnapshot { pid: 1, name: "cargo".to_string(), exe: None, upload_bytes: 3, download_bytes: 4 },
        ProcessSnapshot { pid: 2, name: "firefox".to_string(), exe: None, upload_bytes: 10, download_bytes: 20 },
        ProcessSnapshot { pid: 3, name: "bash".to_string(), exe: None, upload_bytes: 99, download_bytes: 99 },
    ];
    assert_eq!(g.get_total_target_traffic(&snaps), (13, 24));
    let by_type = g.get_traffic_by_type(&snaps);
    assert_eq!(by_type.len(), 2);
}

#[test]
fn processes_are_classified_by_kind() {
    assert_eq!(classify_process("Google Chrome"), ProcessClass::Browser);
    assert_eq!(classify_process("git-remote-https"), ProcessClass::Git);
    assert_eq!(classify_process("Code.exe"), ProcessClass::DevTools);
    assert_eq!(classify_process("node"), ProcessClass::DevTools);
    assert_eq!(classify_process("GitHub Desktop"), ProcessClass::Git);
    assert_eq!(classify_process("explorer"), ProcessClass::Other);
    assert_eq!(class_label(ProcessClass::DevTools), "dev_tools");
}

#[test]
fn estimates_are_summed_per_kind_and_differenced() {
    let est = vec![
        ProcessEstimate { name: "firefox".to_string(), upload: 5, download: 10 },
        ProcessEstimate { name: "chrome".to_string(), upload: 1, download: 2 },
        ProcessEstimate { name: "git".to_string(), upload: 7, download: 0 },
        ProcessEstimate { name: "explorer".to_string(), upload: 4, download: 4 },
    ];
    let mut f = ProcessTrafficFilter::new(2);
    let t = f.get_process_traffic(&est);
    assert_eq!((t.browser_upload, t.browser_download, t.git_upload, t.other_download), (6, 12, 7, 4));
    f.record_traffic_point_at(t, 10);
    let t2 = ClassTotals { browser_upload: 10, browser_download: 11, ..t };
    f.record_traffic_point_at(t2, 11);
    let h = f.get_traffic_history(5);
    assert_eq!(h.len(), 2);
    assert_eq!((h[1].browser_upload, h[1].browser_download, h[1].git_upload), (4, 0, 0));
    assert_eq!((h[0].other_upload, h[0].other_download), (4, 4));
    assert_eq!((h[1].other_upload, h[1].other_download), (0, 0));
    let summary = f.get_traffic_summary();
    assert_eq!(summary.len(), 4);
    assert_eq!((summary[0].class, summary[0].upload, summary[0].download), (ProcessClass::Browser, 10, 12));
    assert_eq!((summary[3].class, summary[3].upload), (ProcessClass::Other, 4));
    let t3 = ClassTotals { other_upload: 9, other_download: 1, ..t2 };
    f.record_traffic_point_at(t3, 12);
    let h = f.get_traffic_history(5);
    assert_eq!((h[1].other_upload, h[1].other_download), (5, 0));
}

#[test]
fn simple_monitor_keeps_bounded_deltas() {
    let mut m = SimpleNetworkMonitor::new(2);
    let net = |tx, rx| vec![InterfaceTraffic { total_transmitted: tx, total_received: rx }];
    assert_eq!(m.get_current_traffic(&net(5, 6)), Some((5, 6)));
    assert!(m.record_traffic_point_at(&net(10, 20), 1));
    assert!(m.record_traffic_point_at(&net(15, 20), 2));
    assert!(m.record_traffic_point_at(&net(12, 30), 3));
    let h = m.get_traffic_history(10);
    assert_eq!(h.len(), 2);
    assert_eq!((h[0].total_upload, h[0].total_download), (5, 0));
    assert_eq!((h[1].total_upload, h[1].total_download), (0, 10));
    assert_eq!(m.get_traffic_summary(), (5, 10));
}
