use turbogithub::config::Config;
use turbogithub::scanner::{best_index, best_ip_of, ipv4_text, sort_by_rtt, IpInfo, Scanner};

fn ip(a: u8, b: u8, c: u8, d: u8, rtt: u64, reachable: bool, https: bool) -> IpInfo {
    IpInfo { ip: [a, b, c, d], rtt_nanos: rtt, reachable, https_available: https }
}

#[test]
fn best_ip_is_the_fastest_usable_one() {
    let ips = vec![
        ip(1, 1, 1, 1, 50, true, true),
        ip(2, 2, 2, 2, 10, true, false),
        ip(3, 3, 3, 3, 20, true, true),
        ip(4, 4, 4, 4, 5, false, false),
    ];
    assert_eq!(best_index(&ips), Some(2));
    assert_eq!(best_ip_of(&ips), Some([3, 3, 3, 3]));
}

#[test]
fn best_ip_ties_go_to_the_first() {
    let ips = vec![ip(9, 9, 9, 9, 30, true, true), ip(8, 8, 8, 8, 30, true, true)];
    assert_eq!(best_ip_of(&ips), Some([9, 9, 9, 9]));
}

#[test]
fn no_usable_ip_gives_none() {
    let ips = vec![ip(1, 2, 3, 4, 1, false, true), ip(5, 6, 7, 8, 2, true, false)];
    assert_eq!(best_ip_of(&ips), None);
    assert_eq!(best_ip_of(&Vec::new()), None);
}

#[test]
fn sorting_by_rtt_is_stable() {
    let ips = vec![
        ip(1, 0, 0, 0, 30, true, true),
        ip(2, 0, 0, 0, 10, false, false),
        ip(3, 0, 0, 0, 30, true, false),
        ip(4, 0, 0, 0, 20, true, true),
        ip(5, 0, 0, 0, 10, true, true),
    ];
    let sorted = sort_by_rtt(&ips);
    let order: Vec<u8> = sorted.iter().map(|i| i.ip[0]).collect();
    assert_eq!(order, vec![2, 5, 4, 1, 3]);
    assert!(sorted.windows(2).all(|w| w[0].rtt_nanos <= w[1].rtt_nanos));
}

#[test]
fn dotted_quad_text() {
    assert_eq!(ipv4_text([140, 82, 112, 4]), "140.82.112.4");
    assert_eq!(ipv4_text([0, 0, 0, 0]), "0.0.0.0");
    assert_eq!(ipv4_text([255, 255, 255, 255]), "255.255.255.255");
}

#[test]
fn recorded_scan_is_read_back_sorted() {
    let mut scanner = Scanner::new(Config::default());
    assert_eq!(scanner.get_best_ip("github.com"), None);
    scanner.record_scan(
        "github.com".to_string(),
        vec![ip(20, 0, 0, 1, 90, true, true), ip(20, 0, 0, 2, 40, true, true), ip(20, 0, 0, 3, 10, false, true)],
    );
    assert_eq!(scanner.get_best_ip("github.com"), Some([20, 0, 0, 2]));
    assert_eq!(scanner.get_best_ip("api.github.com"), None);
    let pool = scanner.get_ip_pool();
    assert_eq!(pool.len(), 1);
    assert_eq!(pool[0].domain, "github.com");
    let order: Vec<u8> = pool[0].ips.iter().map(|i| i.ip[3]).collect();
    assert_eq!(order, vec![3, 2, 1]);
}

#[test]
fn rescanning_replaces_the_result_and_keeps_domain_order() {
    let mut scanner = Scanner::new(Config::default());
    scanner.record_scan("a.example".to_string(), vec![ip(1, 1, 1, 1, 5, true, true)]);
    scanner.record_scan("b.example".to_string(), vec![ip(2, 2, 2, 2, 5, true, true)]);
    scanner.record_scan("a.example".to_string(), vec![ip(3, 3, 3, 3, 5, false, true)]);
    assert_eq!(scanner.get_best_ip("a.example"), None);
    assert_eq!(scanner.get_best_ip("b.example"), Some([2, 2, 2, 2]));
    let pool = scanner.get_ip_pool();
    let names: Vec<&str> = pool.iter().map(|e| e.domain.as_str()).collect();
    assert_eq!(names, vec!["a.example", "b.example"]);
    assert_eq!(scanner.config().scan_interval, 1800);
}

#[test]
fn ordering_a_scan_keeps_the_address_handed_out() {
    let ips = vec![
        ip(7, 0, 0, 1, 40, true, false),
        ip(7, 0, 0, 2, 25, true, true),
        ip(7, 0, 0, 3, 10, false, true),
        ip(7, 0, 0, 4, 25, true, true),
        ip(7, 0, 0, 5, 60, true, true),
    ];
    assert_eq!(best_ip_of(&sort_by_rtt(&ips)), best_ip_of(&ips));
    assert_eq!(best_ip_of(&ips), Some([7, 0, 0, 2]));
}
