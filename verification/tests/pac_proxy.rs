use turbogithub::pac::PacProxy;
use turbogithub::ipc::local_proxy_address;

#[test]
fn test_generate_pac_content() {
    let pac = PacProxy::new("127.0.0.1:7890".to_string(), None);
    let content = pac.generate_pac_content();

    assert!(content.contains("FindProxyForURL"));
    assert!(content.contains("github.com"));
    assert!(content.contains("127.0.0.1:7890"));
}

#[test]
fn pac_content_routes_github_through_the_proxy_only() {
    let pac = PacProxy::new("127.0.0.1:8123".to_string(), None);
    let content = pac.generate_pac_content();
    assert!(content.contains("SOCKS 127.0.0.1:8123; PROXY 127.0.0.1:8123; DIRECT"));
    assert!(content.contains("return \"DIRECT\";"));
    assert!(content.contains("archiveofourown.org"));
    assert!(content.contains("pixiv.net"));
    assert!(content.contains("host == allDomains[i] || dnsDomainIs(host, \".\" + allDomains[i])"));
}

#[test]
fn pac_file_lives_in_the_working_directory() {
    let pac = PacProxy::new("127.0.0.1:7890".to_string(), Some("/root/workspace".to_string()));
    assert_eq!(pac.get_pac_path().as_str(), "/root/workspace/turbogithub.pac");
    assert_eq!(pac.get_pac_url(), "file:///root/workspace/turbogithub.pac");
    let win = PacProxy::new("127.0.0.1:7890".to_string(), Some("C:\\Tools\\".to_string()));
    assert_eq!(win.get_pac_path().as_str(), "C:\\Tools\\turbogithub.pac");
    assert_eq!(win.get_pac_url(), "file:///C:/Tools/turbogithub.pac");
}

#[test]
fn pac_file_falls_back_to_the_current_directory() {
    let pac = PacProxy::new("127.0.0.1:7890".to_string(), None);
    assert_eq!(pac.get_pac_path().as_str(), "./turbogithub.pac");
    assert_eq!(pac.get_pac_url(), "file:///./turbogithub.pac");
}

#[test]
fn pac_url_uses_forward_slashes_and_one_leading_slash_group() {
    let pac = PacProxy::with_path("127.0.0.1:7890".to_string(), "G:\\GitHub\\core\\turbogithub.pac".to_string());
    assert_eq!(pac.get_pac_url(), "file:///G:/GitHub/core/turbogithub.pac");
    let unix = PacProxy::with_path("127.0.0.1:7890".to_string(), "//tmp/x.pac".to_string());
    assert_eq!(unix.get_pac_url(), "file:///tmp/x.pac");
}

#[test]
fn started_service_writes_its_http_port_into_the_pac_proxy() {
    assert_eq!(local_proxy_address(54321), "127.0.0.1:54321");
    assert_eq!(local_proxy_address(0), "127.0.0.1:0");
}

fn original_script(proxy: &str) -> String {
    format!(r#"
function FindProxyForURL(url, host) {{
    // GitHub 相关域名列表
    var githubDomains = [
        "github.com",
        "www.github.com",
        "api.github.com",
        "raw.githubusercontent.com",
        "gist.github.com",
        "github.io",
        "githubusercontent.com",
        "githubassets.com",
        "githubapp.com",
        "assets-cdn.github.com",
        "avatars.githubusercontent.com",
        "camo.githubusercontent.com",
        "collector.github.com",
        "education.github.com",
        "lab.github.com",
        "status.github.com",
        "support.github.com",
        "token.actions.githubusercontent.com",
        "vscode-auth.github.com"
    ];
    
    // AO3 (Archive of Our Own) 相关域名列表
    var ao3Domains = [
        "archiveofourown.org",
        "www.archiveofourown.org",
        "archiveofourown.com",
        "www.archiveofourown.com"
    ];
    
    // Pixiv 相关域名列表
    var pixivDomains = [
        "pixiv.net",
        "www.pixiv.net",
        "dic.pixiv.net",
        "fanbox.cc",
        "www.fanbox.cc"
    ];
    
    // 合并所有域名列表
    var allDomains = githubDomains.concat(ao3Domains).concat(pixivDomains);
    
    // 检查域名是否匹配
    for (var i = 0; i < allDomains.length; i++) {{
        if (host == allDomains[i] || dnsDomainIs(host, "." + allDomains[i])) {{
            return "SOCKS5 {proxy}; SOCKS {proxy}; PROXY {proxy}; DIRECT";
        }}
    }}
    
    // 其他域名直接连接
    return "DIRECT";
}}
"#, proxy = proxy)
}

#[test]
fn pac_script_holds_both_return_lines() {
    for proxy in ["127.0.0.1:7890", "10.0.0.1:1", ""] {
        let c = PacProxy::new(proxy.to_string(), None).generate_pac_content();
        assert_eq!(c, original_script(proxy));
        let line = format!("return \"SOCKS5 {0}; SOCKS {0}; PROXY {0}; DIRECT\";", proxy);
        assert!(c.contains(&line));
        assert!(c.contains("return \"DIRECT\";"));
        let elsewhere = PacProxy::new(proxy.to_string(), Some("/tmp".to_string())).generate_pac_content();
        assert_eq!(c, elsewhere);
    }
}
