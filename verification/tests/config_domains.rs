use turbogithub::config::{Config, ConfigUpdate};
use turbogithub::domains::{classify_domain, is_github_domain, should_accelerate};

#[test]
fn default_configuration() {
    let c = Config::default();
    assert_eq!(c.domains, vec!["github.com", "api.github.com", "raw.githubusercontent.com", "assets-cdn.github.com"]);
    assert_eq!(c.scan_interval, 1800);
    assert_eq!(c.scan_concurrency, 50);
    assert_eq!(c.upstream_dns, "223.5.5.5:53");
    assert_eq!(c.listen_addr, "127.0.0.1:61235");
    assert_eq!(c.log_level, "info");
}

#[test]
fn configuration_updates_read_back() {
    let c = Config::default();
    let u = ConfigUpdate {
        domains: Some(vec!["gitlab.com".to_string()]),
        scan_interval: Some(60),
        scan_concurrency: None,
        upstream_dns: None,
        listen_addr: Some("127.0.0.1:5353".to_string()),
        log_level: None,
    };
    let n = c.with_update(&u);
    assert_eq!(n.domains, vec!["gitlab.com"]);
    assert_eq!(n.scan_interval, 60);
    assert_eq!(n.scan_concurrency, 50);
    assert_eq!(n.listen_addr, "127.0.0.1:5353");
    assert_eq!(n.log_level, "info");
    let same = c.copy();
    assert_eq!(same.domains, c.domains);
}

#[test]
fn domains_are_classified_by_suffix() {
    let g = classify_domain("api.github.com");
    assert!(g.github && g.accelerate && !g.ao3 && !g.pixiv);
    let a = classify_domain("www.archiveofourown.org");
    assert!(a.ao3 && a.accelerate && !a.github);
    let p = classify_domain("i.fanbox.cc");
    assert!(p.pixiv && p.accelerate);
    assert!(!should_accelerate("example.com"));
    assert!(should_accelerate("github.com."));
    assert!(classify_domain("api.github.com.").github);
    assert!(!should_accelerate("example.com."));
    assert!(is_github_domain("avatars.githubusercontent.com"));
    assert!(!is_github_domain("gitlab.com"));
}
