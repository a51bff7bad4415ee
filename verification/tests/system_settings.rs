use turbogithub::system_proxy::{
    fallback_step, restore_proxy_commands, setup_pac_proxy_command, AutoProxyConfig, DnsProxyConfig,
    DnsProxyError, FallbackStep,
};

#[test]
fn dns_commands_try_powershell_then_netsh_per_interface() {
    let c = DnsProxyConfig::new("127.0.0.1:61235".to_string());
    let cmds = c.set_dns_proxy_commands();
    assert_eq!(cmds.len(), 6);
    assert_eq!(cmds[0].program, "powershell");
    assert_eq!(cmds[0].args[0], "-Command");
    assert!(cmds[0].args[1].contains("-ServerAddresses '127.0.0.1:61235'"));
    assert!(cmds[0].args[1].starts_with("$adapter = Get-NetAdapter"));
    assert_eq!(cmds[1].program, "netsh");
    assert_eq!(cmds[1].args, vec!["interface", "ip", "set", "dns", "以太网", "static", "127.0.0.1:61235"]);
    assert_eq!(cmds[5].args[4], "WLAN");
    let clear = c.clear_dns_proxy_commands();
    assert_eq!(clear.len(), 6);
    assert!(clear[0].args[1].ends_with("-ResetServerAddresses"));
    assert_eq!(clear[3].args, vec!["interface", "ip", "set", "dns", "Ethernet", "dhcp"]);
}

#[test]
fn alternatives_stop_at_the_first_success() {
    assert_eq!(fallback_step(&vec![], 6), FallbackStep::Run(0));
    assert_eq!(fallback_step(&vec![false, false], 6), FallbackStep::Run(2));
    assert_eq!(fallback_step(&vec![false, true], 6), FallbackStep::Succeeded);
    assert_eq!(fallback_step(&vec![false; 6], 6), FallbackStep::Exhausted);
    let c = DnsProxyConfig::new("x".to_string());
    assert_eq!(c.set_dns_proxy_result(FallbackStep::Succeeded), Ok(()));
    assert_eq!(c.set_dns_proxy_result(FallbackStep::Exhausted), Err(DnsProxyError::AllMethodsFailed));
    assert_eq!(c.clear_dns_proxy_result(FallbackStep::Exhausted), Ok(()));
    assert_eq!(DnsProxyError::AllMethodsFailed.message(), "无法设置系统 DNS 代理服务器");
}

#[test]
fn automatic_dns_keeps_a_backup() {
    let mut a = AutoProxyConfig::new(61235);
    assert_eq!(a.dns_proxy_port, 61235);
    assert!(a.original_dns_settings().is_none());
    assert!(a.restore_dns_command().args[1].ends_with("-ResetServerAddresses"));
    assert!(a.restore_dns_command().args[1].starts_with("Get-NetAdapter"));
    a.record_dns_backup(false, "ignored".to_string());
    assert!(a.original_dns_settings().is_none());
    a.record_dns_backup(true, "[{\"ServerAddresses\":[]}]".to_string());
    assert_eq!(a.original_dns_settings().unwrap(), "[{\"ServerAddresses\":[]}]");
    let setup = a.setup_dns_command();
    assert!(setup.args[1].contains("@('127.0.0.1:61235', '223.5.5.5')"));
    assert_eq!(a.backup_dns_command().args[1], "Get-DnsClientServerAddress -AddressFamily IPv4 | ConvertTo-Json");
    assert_eq!(a.backup_proxy_command().program, "reg");
    let restore = a.restore_dns_command();
    assert_eq!(restore.program, "powershell");
    assert!(restore.args[1].starts_with("$saved = @'\n[{\"ServerAddresses\":[]}]\n'@ | ConvertFrom-Json;"));
    assert!(restore.args[1].contains("-ServerAddresses $s.ServerAddresses"));
}

#[test]
fn pac_proxy_commands() {
    let set = setup_pac_proxy_command("file:///C:/Tools/turbogithub.pac");
    assert_eq!(set.program, "powershell");
    assert!(set.args[1].ends_with("-Name AutoConfigURL -Value 'file:///C:/Tools/turbogithub.pac' -Force"));
    let restore = restore_proxy_commands();
    assert_eq!(restore.len(), 2);
    assert_eq!(restore[0].program, "reg");
    assert_eq!(restore[0].args[0], "delete");
    assert_eq!(restore[0].args[1], "\"HKCU\\Software\\Microsoft\\Windows\\CurrentVersion\\Internet");
    assert_eq!(restore[0].args[2], "Settings\"");
    assert_eq!(restore[1].args.last().unwrap(), "/f");
}
