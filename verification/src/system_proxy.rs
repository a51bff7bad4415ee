//! The system settings the daemon changes: the commands that point Windows'
//! DNS at the local resolver, install or remove the PAC proxy, and put things
//! back, and the order in which alternative commands are tried. Running the
//! commands is the caller's.

use vstd::prelude::*;
use crate::text::{spec_decimal, append_decimal, spec_words, split_whitespace, spec_contains, occurs_at};
use crate::config::string_views;

verus! {

// ---------------------------------------------------------------------------
// Commands
// ---------------------------------------------------------------------------

/// A program to run, with its arguments.
pub struct SystemCommand {
    pub program: String,
    pub args: Vec<String>,
}

impl View for SystemCommand {
    type V = (Seq<char>, Seq<Seq<char>>);

    open spec fn view(&self) -> (Seq<char>, Seq<Seq<char>>) {
        (self.program@, string_views(self.args@))
    }
}

/// The values of a list of commands.
pub open spec fn command_views(v: Seq<SystemCommand>) -> Seq<(Seq<char>, Seq<Seq<char>>)> {
    v.map_values(|c: SystemCommand| c@)
}

/// A PowerShell command running `script`.
pub open spec fn spec_powershell(script: Seq<char>) -> (Seq<char>, Seq<Seq<char>>) {
    ("powershell"@, seq!["-Command"@, script])
}

/// A PowerShell command running `script`.
pub fn powershell(script: String) -> (r: SystemCommand)
    ensures
        r@ == spec_powershell(script@),
{
    let mut args: Vec<String> = Vec::new();
    args.push(String::from_str("-Command"));
    args.push(script);
    let r = SystemCommand { program: String::from_str("powershell"), args };
    assert(string_views(r.args@) =~= seq!["-Command"@, script@]);
    r
}

// ---------------------------------------------------------------------------
// Trying alternatives in order
// ---------------------------------------------------------------------------

/// What to do next when alternatives are tried in order until one succeeds.
#[derive(Clone, Copy, Debug, PartialEq, Eq, Structural)]
pub enum FallbackStep {
    /// Run the alternative at this index.
    Run(usize),
    /// An alternative succeeded.
    Succeeded,
    /// Every alternative failed.
    Exhausted,
}

/// The next step after the alternatives tried so far gave `outcomes` (in
/// order), out of `n` alternatives.
pub open spec fn spec_fallback_step(outcomes: Seq<bool>, n: nat) -> FallbackStep {
    if outcomes.contains(true) {
        FallbackStep::Succeeded
    } else if outcomes.len() < n {
        FallbackStep::Run(outcomes.len() as usize)
    } else {
        FallbackStep::Exhausted
    }
}

/// Decides the next step after the alternatives tried so far.
pub fn fallback_step(outcomes: &Vec<bool>, n: usize) -> (r: FallbackStep)
    ensures
        r == spec_fallback_step(outcomes@, n as nat),
{
    let mut i: usize = 0;
    while i < outcomes.len()
        invariant
            i <= outcomes.len(),
            forall|j: int| 0 <= j < i ==> !outcomes@[j],
        decreases outcomes.len() - i,
    {
        if outcomes[i] {
            assert(outcomes@[i as int]);
            return FallbackStep::Succeeded;
        }
        i = i + 1;
    }
    assert(!outcomes@.contains(true));
    if outcomes.len() < n {
        FallbackStep::Run(outcomes.len())
    } else {
        FallbackStep::Exhausted
    }
}

/// Driven by `fallback_step`, alternatives run in order, each once, none
/// after one succeeded, and the round fails only when all `n` failed.
pub proof fn law_fallback_runs_in_order(outcomes: Seq<bool>, n: usize)
    requires
        outcomes.len() <= n,
    ensures
        spec_fallback_step(outcomes, n as nat) matches FallbackStep::Run(i) ==> i == outcomes.len()
            && !outcomes.contains(true),
        spec_fallback_step(outcomes, n as nat) == FallbackStep::Exhausted <==> (outcomes.len() == n
            && forall|j: int| 0 <= j < outcomes.len() ==> !outcomes[j]),
        outcomes.len() > 0 && outcomes.last() ==> spec_fallback_step(outcomes, n as nat) == FallbackStep::Succeeded,
{
    if outcomes.len() > 0 && outcomes.last() {
        assert(outcomes[outcomes.len() - 1]);
    }
    if !outcomes.contains(true) {
        assert forall|j: int| 0 <= j < outcomes.len() implies !outcomes[j] by {
            if outcomes[j] {
                assert(outcomes.contains(true));
            }
        }
    } else {
        let k = choose|k: int| 0 <= k < outcomes.len() && outcomes[k] == true;
        assert(outcomes[k]);
    }
}

// ---------------------------------------------------------------------------
// Pointing the system DNS at the local resolver
// ---------------------------------------------------------------------------

/// The network interfaces `netsh` is tried on, in order.
pub open spec fn spec_dns_interfaces() -> Seq<Seq<char>> {
    seq!["以太网"@, "本地连接"@, "Ethernet"@, "Wi-Fi"@, "WLAN"@]
}

/// The network interfaces `netsh` is tried on, in order.
pub fn dns_interfaces() -> (r: Vec<&'static str>)
    ensures
        r@.map_values(|s: &str| s@) == spec_dns_interfaces(),
{
    let r = vec!["以太网", "本地连接", "Ethernet", "Wi-Fi", "WLAN"];
    assert(r@.map_values(|s: &str| s@) =~= spec_dns_interfaces());
    r
}

/// The PowerShell script that sets the first active adapter's DNS server.
pub open spec fn spec_set_dns_script(server: Seq<char>) -> Seq<char> {
    "$adapter = Get-NetAdapter | Where-Object {$_.Status -eq 'Up'} | Select-Object -First 1; if ($adapter) { Set-DnsClientServerAddress -InterfaceIndex $adapter.ifIndex -ServerAddresses '"@
        + server + "' } else { Write-Error 'No active network adapter found' }"@
}

/// The PowerShell script that resets the first active adapter's DNS server.
pub open spec fn spec_clear_dns_script() -> Seq<char> {
    "Get-NetAdapter | Where-Object {$_.Status -eq 'Up'} | Select-Object -First 1 | Set-DnsClientServerAddress -ResetServerAddresses"@
}

/// The `netsh` command that sets interface `iface`'s DNS server, or (for
/// `server` none) returns it to DHCP.
pub open spec fn spec_netsh_dns(iface: Seq<char>, server: Option<Seq<char>>) -> (Seq<char>, Seq<Seq<char>>) {
    (
        "netsh"@,
        match server {
            Some(s) => seq!["interface"@, "ip"@, "set"@, "dns"@, iface, "static"@, s],
            None => seq!["interface"@, "ip"@, "set"@, "dns"@, iface, "dhcp"@],
        },
    )
}

/// The `netsh` command that sets an interface's DNS server, or returns it to
/// DHCP.
pub fn netsh_dns(iface: &str, server: Option<&str>) -> (r: SystemCommand)
    ensures
        r@ == spec_netsh_dns(iface@, match server { Some(s) => Some(s@), None => None }),
{
    let mut args: Vec<String> = Vec::new();
    args.push(String::from_str("interface"));
    args.push(String::from_str("ip"));
    args.push(String::from_str("set"));
    args.push(String::from_str("dns"));
    args.push(iface.to_string());
    match server {
        Some(s) => {
            args.push(String::from_str("static"));
            args.push(s.to_string());
        },
        None => {
            args.push(String::from_str("dhcp"));
        },
    }
    let r = SystemCommand { program: String::from_str("netsh"), args };
    proof {
        match server {
            Some(s) => {
                assert(string_views(r.args@) =~= seq!["interface"@, "ip"@, "set"@, "dns"@, iface@, "static"@, s@]);
            },
            None => {
                assert(string_views(r.args@) =~= seq!["interface"@, "ip"@, "set"@, "dns"@, iface@, "dhcp"@]);
            },
        }
    }
    r
}

/// The commands tried, in order, to point the system DNS at `server` (or,
/// for none, to reset it): PowerShell on the first active adapter, then
/// `netsh` on each usual interface name.
pub open spec fn spec_dns_commands(server: Option<Seq<char>>) -> Seq<(Seq<char>, Seq<Seq<char>>)> {
    seq![
        spec_powershell(match server {
            Some(s) => spec_set_dns_script(s),
            None => spec_clear_dns_script(),
        }),
    ] + spec_dns_interfaces().map_values(|i: Seq<char>| spec_netsh_dns(i, server))
}

/// Failure to point the system DNS at the local resolver.
#[derive(Clone, Copy, Debug, PartialEq, Eq, Structural)]
pub enum DnsProxyError {
    /// Every command failed.
    AllMethodsFailed,
}

/// The text of an error: the system DNS proxy server could not be set.
pub open spec fn spec_dns_proxy_error_message(e: DnsProxyError) -> Seq<char> {
    match e {
        DnsProxyError::AllMethodsFailed => "无法设置系统 DNS 代理服务器"@,
    }
}

impl DnsProxyError {
    /// The text of the error, for logs and replies.
    pub fn message(&self) -> (r: &'static str)
        ensures
            r@ == spec_dns_proxy_error_message(*self),
    {
        match self {
            DnsProxyError::AllMethodsFailed => "无法设置系统 DNS 代理服务器",
        }
    }
}

/// Where the system DNS is pointed.
pub struct DnsProxyConfig {
    pub dns_proxy_server: String,
}

impl DnsProxyConfig {
    /// A configuration pointing the system DNS at `dns_proxy_server`.
    pub fn new(dns_proxy_server: String) -> (r: Self)
        ensures
            r.dns_proxy_server@ == dns_proxy_server@,
    {
        DnsProxyConfig { dns_proxy_server }
    }

    fn dns_commands(&self, set: bool) -> (r: Vec<SystemCommand>)
        ensures
            command_views(r@) == spec_dns_commands(if set { Some(self.dns_proxy_server@) } else { None }),
    {
        let script = if set {
            let mut s = String::from_str(
                "$adapter = Get-NetAdapter | Where-Object {$_.Status -eq 'Up'} | Select-Object -First 1; if ($adapter) { Set-DnsClientServerAddress -InterfaceIndex $adapter.ifIndex -ServerAddresses '",
            );
            s.append(self.dns_proxy_server.as_str());
            s.append("' } else { Write-Error 'No active network adapter found' }");
            s
        } else {
            String::from_str(
                "Get-NetAdapter | Where-Object {$_.Status -eq 'Up'} | Select-Object -First 1 | Set-DnsClientServerAddress -ResetServerAddresses",
            )
        };
        let ghost server = if set { Some(self.dns_proxy_server@) } else { None };
        let mut r: Vec<SystemCommand> = Vec::new();
        r.push(powershell(script));
        let ifaces = dns_interfaces();
        let ghost iv = ifaces@.map_values(|s: &str| s@);
        let mut i: usize = 0;
        while i < ifaces.len()
            invariant
                i <= ifaces.len(),
                iv == ifaces@.map_values(|s: &str| s@),
                iv == spec_dns_interfaces(),
                server == (if set { Some(self.dns_proxy_server@) } else { None::<Seq<char>> }),
                command_views(r@) == spec_dns_commands(server).take(i + 1),
            decreases ifaces.len() - i,
        {
            let ghost before = command_views(r@);
            let c = if set {
                netsh_dns(ifaces[i], Some(self.dns_proxy_server.as_str()))
            } else {
                netsh_dns(ifaces[i], None)
            };
            assert(ifaces@[i as int]@ == iv[i as int]);
            r.push(c);
            assert(command_views(r@) =~= before.push(spec_netsh_dns(iv[i as int], server)));
            assert(spec_dns_commands(server).take(i + 2) =~= spec_dns_commands(server).take(i + 1).push(
                spec_netsh_dns(iv[i as int], server),
            ));
            i = i + 1;
        }
        assert(spec_dns_commands(server).take(6) =~= spec_dns_commands(server));
        r
    }

    /// The commands tried, in order, to point the system DNS at the server.
    pub fn set_dns_proxy_commands(&self) -> (r: Vec<SystemCommand>)
        ensures
            command_views(r@) == spec_dns_commands(Some(self.dns_proxy_server@)),
    {
        self.dns_commands(true)
    }

    /// The commands tried, in order, to reset the system DNS.
    pub fn clear_dns_proxy_commands(&self) -> (r: Vec<SystemCommand>)
        ensures
            command_views(r@) == spec_dns_commands(None),
    {
        self.dns_commands(false)
    }

    /// The result of pointing the system DNS at the server, once the
    /// alternatives have been tried: an error when all failed.
    pub fn set_dns_proxy_result(&self, step: FallbackStep) -> (r: Result<(), DnsProxyError>)
        requires
            !(step is Run),
        ensures
            r is Ok <==> step == FallbackStep::Succeeded,
            r matches Err(e) ==> e == DnsProxyError::AllMethodsFailed,
    {
        match step {
            FallbackStep::Succeeded => Ok(()),
            _ => Err(DnsProxyError::AllMethodsFailed),
        }
    }

    /// The result of resetting the system DNS: success even when every
    /// alternative failed.
    pub fn clear_dns_proxy_result(&self, step: FallbackStep) -> (r: Result<(), DnsProxyError>)
        requires
            !(step is Run),
        ensures
            r is Ok,
    {
        Ok(())
    }
}

// ---------------------------------------------------------------------------
// Automatic DNS configuration with backup
// ---------------------------------------------------------------------------

/// The PowerShell script that points every active adapter at the local
/// resolver on `port`, with a public resolver as second server.
pub open spec fn spec_auto_dns_script(port: u16) -> Seq<char> {
    "$adapters = Get-NetAdapter | Where-Object {$_.Status -eq 'Up'}; foreach ($adapter in $adapters) { Set-DnsClientServerAddress -InterfaceIndex $adapter.InterfaceIndex -ServerAddresses @('127.0.0.1:"@
        + spec_decimal(port as nat) + "', '223.5.5.5') }"@
}

/// The PowerShell script that resets every active adapter's DNS servers.
pub open spec fn spec_restore_dns_script() -> Seq<char> {
    "Get-NetAdapter | Where-Object {$_.Status -eq 'Up'} | Set-DnsClientServerAddress -ResetServerAddresses"@
}

/// Text of the re-applying script before the saved settings.
pub const REAPPLY_HEAD: &'static str = "$saved = @'\n";

/// Text of the re-applying script after the saved settings: each saved
/// interface gets its saved IPv4 server list back, or automatic DNS when the
/// list was empty.
pub const REAPPLY_TAIL: &'static str = "\n'@ | ConvertFrom-Json; foreach ($s in @($saved)) { if ($s.ServerAddresses -and $s.ServerAddresses.Count -gt 0) { Set-DnsClientServerAddress -InterfaceIndex $s.InterfaceIndex -ServerAddresses $s.ServerAddresses } else { Set-DnsClientServerAddress -InterfaceIndex $s.InterfaceIndex -ResetServerAddresses } }";

/// The PowerShell script that gives each interface back the DNS servers of
/// the saved output of the backup script (`saved`, the JSON that
/// `ConvertTo-Json` printed).
pub open spec fn spec_reapply_dns_script(saved: Seq<char>) -> Seq<char> {
    REAPPLY_HEAD@ + saved + REAPPLY_TAIL@
}

/// The command that restores the DNS settings: the saved ones when a backup
/// was taken, automatic DNS on every active adapter otherwise.
pub open spec fn spec_restore_dns_command(saved: Option<Seq<char>>) -> (Seq<char>, Seq<Seq<char>>) {
    match saved {
        Some(s) => spec_powershell(spec_reapply_dns_script(s)),
        None => spec_powershell(spec_restore_dns_script()),
    }
}

/// The PowerShell script that prints the current DNS servers.
pub open spec fn spec_backup_dns_script() -> Seq<char> {
    "Get-DnsClientServerAddress -AddressFamily IPv4 | ConvertTo-Json"@
}

/// The automatic DNS configuration: the local resolver's port and the DNS
/// settings saved before changing them.
pub struct AutoProxyConfig {
    pub dns_proxy_port: u16,
    pub original_dns_settings: Option<String>,
}

impl AutoProxyConfig {
    /// The local resolver's port.
    pub open spec fn port(&self) -> u16 {
        self.dns_proxy_port
    }

    /// The saved DNS settings, none before a successful backup.
    pub open spec fn saved_settings(&self) -> Option<Seq<char>> {
        match self.original_dns_settings {
            Some(s) => Some(s@),
            None => None,
        }
    }

    /// A configuration for a resolver on `dns_proxy_port`, nothing saved.
    pub fn new(dns_proxy_port: u16) -> (r: Self)
        ensures
            r.port() == dns_proxy_port,
            r.saved_settings() is None,
    {
        AutoProxyConfig { dns_proxy_port, original_dns_settings: None }
    }

    /// The command whose output is saved as the current DNS settings.
    pub fn backup_dns_command(&self) -> (r: SystemCommand)
        ensures
            r@ == spec_powershell(spec_backup_dns_script()),
    {
        powershell(String::from_str("Get-DnsClientServerAddress -AddressFamily IPv4 | ConvertTo-Json"))
    }

    /// The command that queries the current HTTP proxy setting.
    pub fn backup_proxy_command(&self) -> (r: SystemCommand)
        ensures
            r@ == ("reg"@, seq![
                "query"@,
                "HKCU\\Software\\Microsoft\\Windows\\CurrentVersion\\Internet Settings"@,
                "/v"@,
                "ProxyServer"@,
            ]),
    {
        let mut args: Vec<String> = Vec::new();
        args.push(String::from_str("query"));
        args.push(String::from_str("HKCU\\Software\\Microsoft\\Windows\\CurrentVersion\\Internet Settings"));
        args.push(String::from_str("/v"));
        args.push(String::from_str("ProxyServer"));
        let r = SystemCommand { program: String::from_str("reg"), args };
        assert(string_views(r.args@) =~= seq![
            "query"@,
            "HKCU\\Software\\Microsoft\\Windows\\CurrentVersion\\Internet Settings"@,
            "/v"@,
            "ProxyServer"@,
        ]);
        r
    }

    /// Saves the output of the backup command when it succeeded.
    pub fn record_dns_backup(&mut self, success: bool, output: String)
        ensures
            final(self).port() == old(self).port(),
            final(self).saved_settings() == (if success { Some(output@) } else { old(self).saved_settings() }),
    {
        if success {
            self.original_dns_settings = Some(output);
        }
    }

    /// The saved DNS settings.
    pub fn original_dns_settings(&self) -> (r: Option<&String>)
        ensures
            match r {
                Some(s) => self.saved_settings() == Some(s@),
                None => self.saved_settings() is None,
            },
    {
        match &self.original_dns_settings {
            Some(s) => Some(s),
            None => None,
        }
    }

    /// The command that points every active adapter at the local resolver.
    pub fn setup_dns_command(&self) -> (r: SystemCommand)
        ensures
            r@ == spec_powershell(spec_auto_dns_script(self.port())),
    {
        let mut s = String::from_str(
            "$adapters = Get-NetAdapter | Where-Object {$_.Status -eq 'Up'}; foreach ($adapter in $adapters) { Set-DnsClientServerAddress -InterfaceIndex $adapter.InterfaceIndex -ServerAddresses @('127.0.0.1:",
        );
        append_decimal(&mut s, self.dns_proxy_port as u64);
        s.append("', '223.5.5.5') }");
        powershell(s)
    }

    /// The command that restores the DNS settings: the saved server lists
    /// when a backup was taken, automatic DNS on every active adapter
    /// otherwise. The HTTP proxy setting is left alone.
    pub fn restore_dns_command(&self) -> (r: SystemCommand)
        ensures
            r@ == spec_restore_dns_command(self.saved_settings()),
    {
        match &self.original_dns_settings {
            Some(saved) => {
                let mut s = String::from_str(REAPPLY_HEAD);
                s.append(saved.as_str());
                s.append(REAPPLY_TAIL);
                powershell(s)
            },
            None => powershell(String::from_str(
                "Get-NetAdapter | Where-Object {$_.Status -eq 'Up'} | Set-DnsClientServerAddress -ResetServerAddresses",
            )),
        }
    }
}

/// Restoring after a successful backup gives the saved settings back: the
/// restore command re-applies the backed-up output, which it carries whole;
/// with no backup it returns every active adapter to automatic DNS.
pub proof fn law_restore_reapplies_backup(output: Seq<char>)
    ensures
        spec_restore_dns_command(Some(output)) == spec_powershell(spec_reapply_dns_script(output)),
        spec_contains(spec_reapply_dns_script(output), output),
        spec_restore_dns_command(None) == spec_powershell(spec_restore_dns_script()),
{
    let c = spec_reapply_dns_script(output);
    let h = REAPPLY_HEAD@.len() as int;
    assert(c.subrange(h, h + output.len()) =~= output);
    assert(occurs_at(c, output, h));
}

// ---------------------------------------------------------------------------
// The PAC proxy setting
// ---------------------------------------------------------------------------

/// The PowerShell script that installs `pac_url` as the automatic proxy script.
pub open spec fn spec_set_pac_script(pac_url: Seq<char>) -> Seq<char> {
    "Set-ItemProperty -Path 'HKCU:\\Software\\Microsoft\\Windows\\CurrentVersion\\Internet Settings' -Name AutoConfigURL -Value '"@
        + pac_url + "' -Force"@
}

/// The command that installs `pac_url`, the URL of the PAC file that was
/// written, as the automatic proxy script.
pub fn setup_pac_proxy_command(pac_url: &str) -> (r: SystemCommand)
    ensures
        r@ == spec_powershell(spec_set_pac_script(pac_url@)),
{
    let mut s = String::from_str(
        "Set-ItemProperty -Path 'HKCU:\\Software\\Microsoft\\Windows\\CurrentVersion\\Internet Settings' -Name AutoConfigURL -Value '",
    );
    s.append(pac_url);
    s.append("' -Force");
    powershell(s)
}

/// The command lines that remove the automatic proxy script.
pub open spec fn spec_restore_proxy_lines() -> Seq<Seq<char>> {
    seq![
        "reg delete \"HKCU\\Software\\Microsoft\\Windows\\CurrentVersion\\Internet Settings\" /v AutoConfigURL /f"@,
        "reg delete \"HKLM\\SOFTWARE\\Microsoft\\Windows\\CurrentVersion\\Internet Settings\" /v AutoConfigURL /f"@,
    ]
}

/// The commands of a list of command lines: each line split into words, the
/// first the program and the rest its arguments, lines of fewer than three
/// words left out.
pub open spec fn spec_split_commands(lines: Seq<Seq<char>>) -> Seq<(Seq<char>, Seq<Seq<char>>)>
    decreases lines.len(),
{
    if lines.len() == 0 {
        Seq::empty()
    } else {
        let rest = spec_split_commands(lines.drop_last());
        let w = spec_words(lines.last());
        if w.len() >= 3 {
            rest.push((w[0], w.skip(1)))
        } else {
            rest
        }
    }
}

/// The commands that remove the automatic proxy script.
pub fn restore_proxy_commands() -> (r: Vec<SystemCommand>)
    ensures
        command_views(r@) == spec_split_commands(spec_restore_proxy_lines()),
{
    let lines = vec![
        "reg delete \"HKCU\\Software\\Microsoft\\Windows\\CurrentVersion\\Internet Settings\" /v AutoConfigURL /f",
        "reg delete \"HKLM\\SOFTWARE\\Microsoft\\Windows\\CurrentVersion\\Internet Settings\" /v AutoConfigURL /f",
    ];
    let ghost lv = lines@.map_values(|s: &str| s@);
    assert(lv =~= spec_restore_proxy_lines());
    let mut r: Vec<SystemCommand> = Vec::new();
    let mut i: usize = 0;
    while i < lines.len()
        invariant
            i <= lines.len(),
            lv == lines@.map_values(|s: &str| s@),
            command_views(r@) == spec_split_commands(lv.take(i as int)),
        decreases lines.len() - i,
    {
        assert(lv.take(i as int + 1).drop_last() =~= lv.take(i as int));
        assert(lv.take(i as int + 1).last() == lines@[i as int]@);
        let mut words = split_whitespace(lines[i]);
        let ghost wv = words@.map_values(|w: String| w@);
        if words.len() >= 3 {
            let program = words.remove(0);
            let ghost before = command_views(r@);
            assert(string_views(words@) =~= wv.skip(1));
            r.push(SystemCommand { program, args: words });
            assert(command_views(r@) =~= before.push((wv[0], wv.skip(1))));
        }
        i = i + 1;
    }
    assert(lv.take(i as int) =~= lv);
    r
}

} // verus!
