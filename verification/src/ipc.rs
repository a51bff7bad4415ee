//! The daemon's control protocol: the methods a client may call, the service's
//! start/stop state, and the replies built from the library's state (service
//! status, log tails, request parameters).

use vstd::prelude::*;
use crate::text::{str_eq, spec_decimal, append_decimal};
use crate::history::{seq_sum, tail_start, lemma_sum_prefix_bound};
use crate::scanner::{DomainIps, IpInfo, usable, has_usable, spec_ipv4_text, ipv4_text};
use crate::config::Config;

verus! {

// ---------------------------------------------------------------------------
// Methods
// ---------------------------------------------------------------------------

/// The methods of the control protocol.
#[derive(Clone, Copy, Debug, PartialEq, Eq, Structural)]
pub enum RpcMethod {
    Start,
    Stop,
    GetStatus,
    GetConfig,
    SetConfig,
    GetLogs,
    GetTraffic,
    GetRealtimeTraffic,
    GetProcessTraffic,
    GetProcessRealtimeTraffic,
    Ping,
}

/// The method a request names, none for an unknown name.
pub open spec fn spec_rpc_method(name: Seq<char>) -> Option<RpcMethod> {
    if name == "start"@ {
        Some(RpcMethod::Start)
    } else if name == "stop"@ {
        Some(RpcMethod::Stop)
    } else if name == "get_status"@ {
        Some(RpcMethod::GetStatus)
    } else if name == "get_config"@ {
        Some(RpcMethod::GetConfig)
    } else if name == "set_config"@ {
        Some(RpcMethod::SetConfig)
    } else if name == "get_logs"@ {
        Some(RpcMethod::GetLogs)
    } else if name == "get_traffic"@ {
        Some(RpcMethod::GetTraffic)
    } else if name == "get_realtime_traffic"@ {
        Some(RpcMethod::GetRealtimeTraffic)
    } else if name == "get_process_traffic"@ {
        Some(RpcMethod::GetProcessTraffic)
    } else if name == "get_process_realtime_traffic"@ {
        Some(RpcMethod::GetProcessRealtimeTraffic)
    } else if name == "ping"@ {
        Some(RpcMethod::Ping)
    } else {
        None
    }
}

/// Reads the method a request names.
pub fn parse_rpc_method(name: &str) -> (r: Option<RpcMethod>)
    ensures
        r == spec_rpc_method(name@),
{
    if str_eq(name, "start") {
        Some(RpcMethod::Start)
    } else if str_eq(name, "stop") {
        Some(RpcMethod::Stop)
    } else if str_eq(name, "get_status") {
        Some(RpcMethod::GetStatus)
    } else if str_eq(name, "get_config") {
        Some(RpcMethod::GetConfig)
    } else if str_eq(name, "set_config") {
        Some(RpcMethod::SetConfig)
    } else if str_eq(name, "get_logs") {
        Some(RpcMethod::GetLogs)
    } else if str_eq(name, "get_traffic") {
        Some(RpcMethod::GetTraffic)
    } else if str_eq(name, "get_realtime_traffic") {
        Some(RpcMethod::GetRealtimeTraffic)
    } else if str_eq(name, "get_process_traffic") {
        Some(RpcMethod::GetProcessTraffic)
    } else if str_eq(name, "get_process_realtime_traffic") {
        Some(RpcMethod::GetProcessRealtimeTraffic)
    } else if str_eq(name, "ping") {
        Some(RpcMethod::Ping)
    } else {
        None
    }
}

/// JSON-RPC error code sent with a failed request.
pub const INTERNAL_ERROR_CODE: i64 = -32603;

/// The error message for a request naming an unknown method.
pub fn unknown_method_message(method: &str) -> (r: String)
    ensures
        r@ == "Unknown method: "@ + method@,
{
    let mut s = String::from_str("Unknown method: ");
    s.append(method);
    s
}

// ---------------------------------------------------------------------------
// Request parameters
// ---------------------------------------------------------------------------

/// Lines of log returned when a request gives no count.
pub const DEFAULT_LOG_LINES: u64 = 100;

/// Samples returned by `get_realtime_traffic` when a request gives no count.
pub const DEFAULT_REALTIME_POINTS: u64 = 100;

/// Samples returned by `get_process_realtime_traffic` when a request gives no count.
pub const DEFAULT_PROCESS_REALTIME_POINTS: u64 = 50;

/// A count parameter: the given value, or the default when absent, converted
/// to `usize` as `as usize` does (keeping the low bits).
pub fn count_param(given: Option<u64>, default: u64) -> (r: usize)
    ensures
        r == (match given {
            Some(v) => v,
            None => default,
        }) as usize,
{
    let v = match given {
        Some(v) => v,
        None => default,
    };
    #[verifier::truncate]
    (v as usize)
}

// ---------------------------------------------------------------------------
// Starting and stopping the service
// ---------------------------------------------------------------------------

/// DNS port reported when `start` finds the service already running.
pub const RUNNING_DNS_PORT: u16 = 53535;

/// HTTP proxy port reported when `start` finds the service already running.
pub const RUNNING_HTTP_PORT: u16 = 7890;

/// What a `start` request does.
#[derive(Clone, Copy, Debug, PartialEq, Eq, Structural)]
pub enum StartDecision {
    /// The service runs already: the reply names the fixed ports.
    AlreadyRunning { dns_port: u16, http_port: u16 },
    /// Bind the servers on free ports, then call `finish_start`.
    Start,
}

/// What a `stop` request does.
#[derive(Clone, Copy, Debug, PartialEq, Eq, Structural)]
pub enum StopDecision {
    /// The service is not running: nothing to stop.
    NotRunning,
    /// Stop the servers, remove the PAC file and restore proxy settings, then
    /// call `finish_stop`.
    Stop,
}

/// What a `start` request does when the service runs (`running`) or not.
pub open spec fn spec_start_decision(running: bool) -> StartDecision {
    if running {
        StartDecision::AlreadyRunning { dns_port: RUNNING_DNS_PORT, http_port: RUNNING_HTTP_PORT }
    } else {
        StartDecision::Start
    }
}

/// What a `stop` request does when the service runs (`running`) or not.
pub open spec fn spec_stop_decision(running: bool) -> StopDecision {
    if running {
        StopDecision::Stop
    } else {
        StopDecision::NotRunning
    }
}

/// The ports the start at launch reports without starting anything: zeros
/// when the service runs, none when it has to be started.
pub open spec fn spec_auto_start_ports(running: bool) -> Option<(u16, u16)> {
    if running {
        Some((0u16, 0u16))
    } else {
        None
    }
}

/// Whether the DNS and HTTP proxy servers run.
pub struct ServiceController {
    running: bool,
}

impl ServiceController {
    /// The service runs.
    pub closed spec fn is_running_spec(&self) -> bool {
        self.running
    }

    /// A controller whose service is not running.
    pub fn new() -> (r: Self)
        ensures
            !r.is_running_spec(),
    {
        ServiceController { running: false }
    }

    /// Whether the service runs.
    pub fn is_running(&self) -> (r: bool)
        ensures
            r == self.is_running_spec(),
    {
        self.running
    }

    /// What a `start` request does.
    pub fn begin_start(&self) -> (r: StartDecision)
        ensures
            r == spec_start_decision(self.is_running_spec()),
    {
        if self.running {
            StartDecision::AlreadyRunning { dns_port: RUNNING_DNS_PORT, http_port: RUNNING_HTTP_PORT }
        } else {
            StartDecision::Start
        }
    }

    /// Marks the service running once its servers are bound.
    pub fn finish_start(&mut self)
        ensures
            final(self).is_running_spec(),
    {
        self.running = true;
    }

    /// What a `stop` request does.
    pub fn begin_stop(&self) -> (r: StopDecision)
        ensures
            r == spec_stop_decision(self.is_running_spec()),
    {
        if self.running {
            StopDecision::Stop
        } else {
            StopDecision::NotRunning
        }
    }

    /// Marks the service stopped once its servers are stopped.
    pub fn finish_stop(&mut self)
        ensures
            !final(self).is_running_spec(),
    {
        self.running = false;
    }

    /// The ports reported by the start at launch when the service runs
    /// already (zero for both), none when it has to be started.
    pub fn auto_start_ports(&self) -> (r: Option<(u16, u16)>)
        ensures
            r == spec_auto_start_ports(self.is_running_spec()),
    {
        if self.running {
            Some((0, 0))
        } else {
            None
        }
    }
}

/// The message of the reply to `start`.
pub open spec fn spec_start_message(already_running: bool) -> Seq<char> {
    if already_running {
        "Service is already running"@
    } else {
        "Service started"@
    }
}

/// The message of the reply to `start`.
pub fn start_message(already_running: bool) -> (r: &'static str)
    ensures
        r@ == spec_start_message(already_running),
{
    if already_running {
        "Service is already running"
    } else {
        "Service started"
    }
}

/// The message of the reply to `stop`.
pub open spec fn spec_stop_message(was_running: bool) -> Seq<char> {
    if was_running {
        "DNS server stopped"@
    } else {
        "DNS server is not running"@
    }
}

/// The message of the reply to `stop`.
pub fn stop_message(was_running: bool) -> (r: &'static str)
    ensures
        r@ == spec_stop_message(was_running),
{
    if was_running {
        "DNS server stopped"
    } else {
        "DNS server is not running"
    }
}

/// The proxy address written into the PAC file for an HTTP proxy on `port`.
pub open spec fn spec_local_proxy_address(port: u16) -> Seq<char> {
    "127.0.0.1:"@ + spec_decimal(port as nat)
}

/// The proxy address written into the PAC file for an HTTP proxy on `port`.
pub fn local_proxy_address(port: u16) -> (r: String)
    ensures
        r@ == spec_local_proxy_address(port),
{
    let mut s = String::from_str("127.0.0.1:");
    append_decimal(&mut s, port as u64);
    s
}

/// The address a started DNS server forwards queries to: the configured
/// upstream DNS server, not the address it listens on.
pub fn start_upstream(config: &Config) -> (r: String)
    ensures
        r@ == config@.upstream_dns,
{
    config.upstream_dns.clone()
}

/// A control request that changes whether the service runs.
#[derive(Clone, Copy, Debug, PartialEq, Eq, Structural)]
pub enum ServiceRequest {
    Start,
    Stop,
}

/// Whether the service runs after `requests`, served in order from state
/// `running`: a start whose decision is to start ends with `finish_start`,
/// a stop whose decision is to stop ends with `finish_stop`, and any other
/// request changes nothing.
pub open spec fn spec_running_after(running: bool, requests: Seq<ServiceRequest>) -> bool
    decreases requests.len(),
{
    if requests.len() == 0 {
        running
    } else {
        let before = spec_running_after(running, requests.drop_last());
        match requests.last() {
            ServiceRequest::Start => if spec_start_decision(before) == StartDecision::Start {
                true
            } else {
                before
            },
            ServiceRequest::Stop => if spec_stop_decision(before) == StopDecision::Stop {
                false
            } else {
                before
            },
        }
    }
}

/// The service runs exactly when the last request served was a start (or,
/// with no request, as it did); while it runs a start reports the fixed ports
/// and the start at launch reports zeros, and while it is stopped a stop does
/// nothing.
pub proof fn law_service_follows_last_request(running: bool, requests: Seq<ServiceRequest>)
    ensures
        requests.len() > 0 ==> spec_running_after(running, requests) == (requests.last() == ServiceRequest::Start),
        requests.len() == 0 ==> spec_running_after(running, requests) == running,
        spec_running_after(running, requests) ==> spec_start_decision(spec_running_after(running, requests))
            == (StartDecision::AlreadyRunning { dns_port: RUNNING_DNS_PORT, http_port: RUNNING_HTTP_PORT }),
        spec_running_after(running, requests) ==> spec_auto_start_ports(spec_running_after(running, requests))
            == Some((0u16, 0u16)),
        !spec_running_after(running, requests) ==> spec_stop_decision(spec_running_after(running, requests))
            == StopDecision::NotRunning,
{
}

// ---------------------------------------------------------------------------
// Service status
// ---------------------------------------------------------------------------

/// The address currently handed out for one domain.
pub struct DomainIpInfo {
    pub domain: String,
    pub ip: String,
    /// Round-trip time in milliseconds.
    pub rtt: u64,
}

/// Counts over the scanner's pool.
#[derive(Clone, Copy, Debug, PartialEq, Eq, Structural)]
pub struct ServiceStats {
    pub domains_scanned: usize,
    pub total_ips: usize,
}

/// The reply to `get_status`.
pub struct ServiceStatus {
    pub running: bool,
    pub current_ips: Vec<DomainIpInfo>,
    pub stats: ServiceStats,
}

impl View for DomainIpInfo {
    type V = (Seq<char>, Seq<char>, u64);

    open spec fn view(&self) -> (Seq<char>, Seq<char>, u64) {
        (self.domain@, self.ip@, self.rtt)
    }
}

/// The index of the first usable entry of a scan result.
pub open spec fn spec_first_usable(s: Seq<IpInfo>) -> Option<int> {
    if exists|j: int| 0 <= j < s.len() && #[trigger] usable(s[j]) {
        Some(choose|j: int| 0 <= j < s.len() && usable(s[j]) && forall|k: int| 0 <= k < j ==> !#[trigger] usable(s[k]))
    } else {
        None
    }
}

/// Nanoseconds in a millisecond.
pub const NANOS_PER_MILLI: u64 = 1_000_000;

/// The entries of `get_status`'s `current_ips` for a pool: for each domain,
/// in pool order, its first usable address with that address's round-trip
/// time in whole milliseconds; domains without a usable address are left out.
pub open spec fn spec_current_ips(pool: Seq<(Seq<char>, Seq<IpInfo>)>) -> Seq<(Seq<char>, Seq<char>, u64)>
    decreases pool.len(),
{
    if pool.len() == 0 {
        Seq::empty()
    } else {
        let rest = spec_current_ips(pool.drop_last());
        let (d, s) = pool.last();
        match spec_first_usable(s) {
            Some(k) => rest.push((d, spec_ipv4_text(s[k].ip), s[k].rtt_nanos / NANOS_PER_MILLI)),
            None => rest,
        }
    }
}

proof fn lemma_first_usable_is(s: Seq<IpInfo>, k: int)
    requires
        0 <= k < s.len(),
        usable(s[k]),
        forall|m: int| 0 <= m < k ==> !#[trigger] usable(s[m]),
    ensures
        spec_first_usable(s) == Some(k),
{
    assert(usable(s[k]));
    let c = choose|j: int| 0 <= j < s.len() && usable(s[j]) && forall|m: int| 0 <= m < j ==> !#[trigger] usable(s[m]);
    if c < k {
        assert(!usable(s[c]));
    } else if k < c {
        assert(!usable(s[k]));
    }
}

/// The pool entries whose scan has a usable address.
pub open spec fn entries_with_usable(pool: Seq<(Seq<char>, Seq<IpInfo>)>) -> Seq<(Seq<char>, Seq<IpInfo>)> {
    pool.filter(|e: (Seq<char>, Seq<IpInfo>)| has_usable(e.1))
}

proof fn lemma_entries_with_usable_step(pool: Seq<(Seq<char>, Seq<IpInfo>)>)
    requires
        pool.len() > 0,
    ensures
        entries_with_usable(pool).len() == entries_with_usable(pool.drop_last()).len() + if has_usable(
            pool.last().1,
        ) {
            1int
        } else {
            0int
        },
{
    let f = |e: (Seq<char>, Seq<IpInfo>)| has_usable(e.1);
    assert(entries_with_usable(pool) == pool.filter(f));
    assert(entries_with_usable(pool.drop_last()) == pool.drop_last().filter(f));
    reveal_with_fuel(Seq::filter, 1);
}

/// `get_status` hands out one address per domain with a usable one: there are
/// as many `current_ips` entries as pool entries with a usable address; each
/// such pool entry is listed with its domain, the text of its first usable
/// address and that address's round-trip time in whole milliseconds; and
/// every listed entry is the domain of a pool entry with a usable address.
#[verifier::rlimit(50)]
pub proof fn law_current_ips_lists_each_usable_domain(pool: Seq<(Seq<char>, Seq<IpInfo>)>)
    ensures
        spec_current_ips(pool).len() == entries_with_usable(pool).len(),
        forall|i: int, k: int|
            0 <= i < pool.len() && 0 <= k < pool[i].1.len() && usable(#[trigger] pool[i].1[k]) && (forall|m: int|
                0 <= m < k ==> !#[trigger] usable(pool[i].1[m])) ==> spec_current_ips(pool).contains(
                (pool[i].0, spec_ipv4_text(pool[i].1[k].ip), pool[i].1[k].rtt_nanos / NANOS_PER_MILLI),
            ),
        forall|j: int|
            0 <= j < spec_current_ips(pool).len() ==> exists|i: int|
                0 <= i < pool.len() && pool[i].0 == (#[trigger] spec_current_ips(pool)[j]).0 && has_usable(pool[i].1),
    decreases pool.len(),
{
    if pool.len() == 0 {
        return;
    }
    let p0 = pool.drop_last();
    law_current_ips_lists_each_usable_domain(p0);
    let rest = spec_current_ips(p0);
    let cur = spec_current_ips(pool);
    let (d, s) = pool.last();
    lemma_entries_with_usable_step(pool);
    assert(has_usable(s) <==> spec_first_usable(s) is Some);
    assert forall|i: int, k: int|
        0 <= i < pool.len() && 0 <= k < pool[i].1.len() && usable(#[trigger] pool[i].1[k]) && (forall|m: int|
            0 <= m < k ==> !#[trigger] usable(pool[i].1[m])) implies cur.contains(
            (pool[i].0, spec_ipv4_text(pool[i].1[k].ip), pool[i].1[k].rtt_nanos / NANOS_PER_MILLI),
        ) by {
        let e = (pool[i].0, spec_ipv4_text(pool[i].1[k].ip), pool[i].1[k].rtt_nanos / NANOS_PER_MILLI);
        if i == pool.len() - 1 {
            lemma_first_usable_is(s, k);
            assert(cur == rest.push(e));
            assert(cur[rest.len() as int] == e);
        } else {
            assert(p0[i] == pool[i]);
            assert(usable(p0[i].1[k]));
            assert(rest.contains(e));
            let j = choose|j: int| 0 <= j < rest.len() && rest[j] == e;
            assert(cur[j] == e);
        }
    }
    assert forall|j: int| 0 <= j < cur.len() implies exists|i: int|
        0 <= i < pool.len() && pool[i].0 == (#[trigger] cur[j]).0 && has_usable(pool[i].1) by {
        if j < rest.len() {
            assert(cur[j] == rest[j]);
            let i = choose|i: int| 0 <= i < p0.len() && p0[i].0 == rest[j].0 && has_usable(p0[i].1);
            assert(pool[i] == p0[i]);
        } else {
            let i = pool.len() - 1;
            assert(pool[i] == pool.last());
        }
    }
}

/// The values of a copied pool.
pub open spec fn pool_view(pool: Seq<DomainIps>) -> Seq<(Seq<char>, Seq<IpInfo>)> {
    pool.map_values(|e: DomainIps| (e.domain@, e.ips@))
}

/// The number of addresses in each entry of a pool.
pub open spec fn pool_sizes(pool: Seq<DomainIps>) -> Seq<int> {
    pool.map_values(|e: DomainIps| e.ips@.len() as int)
}

/// The first usable entry of a scan result.
pub fn first_usable(ips: &Vec<IpInfo>) -> (r: Option<usize>)
    ensures
        match r {
            Some(k) => spec_first_usable(ips@) == Some(k as int) && k < ips@.len(),
            None => spec_first_usable(ips@) is None,
        },
{
    let mut i: usize = 0;
    while i < ips.len()
        invariant
            i <= ips.len(),
            forall|k: int| 0 <= k < i ==> !#[trigger] usable(ips@[k]),
        decreases ips.len() - i,
    {
        if ips[i].reachable && ips[i].https_available {
            proof {
                assert(usable(ips@[i as int]));
                let c = choose|j: int|
                    0 <= j < ips@.len() && usable(ips@[j]) && forall|k: int| 0 <= k < j ==> !#[trigger] usable(ips@[k]);
                if c < i {
                } else if i < c {
                    assert(!usable(ips@[i as int]));
                }
                assert(c == i);
            }
            return Some(i);
        }
        i = i + 1;
    }
    None
}

/// The reply to `get_status` for a copy of the scanner's pool: whether the
/// service runs, the address handed out first for each domain, the number of
/// domains scanned and the number of addresses in the pool.
pub fn status_summary(pool: &Vec<DomainIps>, running: bool) -> (r: ServiceStatus)
    requires
        seq_sum(pool_sizes(pool@)) <= usize::MAX,
    ensures
        r.running == running,
        r.current_ips@.map_values(|e: DomainIpInfo| e@) == spec_current_ips(pool_view(pool@)),
        r.stats.domains_scanned == pool@.len(),
        r.stats.total_ips == seq_sum(pool_sizes(pool@)),
{
    let ghost sizes = pool_sizes(pool@);
    proof {
        lemma_sum_prefix_bound(sizes);
    }
    let mut current: Vec<DomainIpInfo> = Vec::new();
    let mut total: usize = 0;
    let mut i: usize = 0;
    while i < pool.len()
        invariant
            i <= pool.len(),
            sizes == pool_sizes(pool@),
            seq_sum(sizes) <= usize::MAX,
            forall|k: int| 0 <= k <= sizes.len() ==> seq_sum(#[trigger] sizes.subrange(0, k)) <= seq_sum(sizes),
            total == seq_sum(sizes.subrange(0, i as int)),
            current@.map_values(|e: DomainIpInfo| e@) == spec_current_ips(pool_view(pool@).take(i as int)),
        decreases pool.len() - i,
    {
        assert(sizes.subrange(0, i + 1).drop_last() =~= sizes.subrange(0, i as int));
        assert(pool_view(pool@).take(i + 1).drop_last() =~= pool_view(pool@).take(i as int));
        let entry = &pool[i];
        let ghost before = current@.map_values(|e: DomainIpInfo| e@);
        match first_usable(&entry.ips) {
            Some(k) => {
                let info = entry.ips[k];
                let text = ipv4_text(info.ip);
                current.push(DomainIpInfo {
                    domain: entry.domain.clone(),
                    ip: text,
                    rtt: info.rtt_nanos / NANOS_PER_MILLI,
                });
                assert(current@.map_values(|e: DomainIpInfo| e@) =~= before.push(
                    (entry.domain@, spec_ipv4_text(info.ip), info.rtt_nanos / NANOS_PER_MILLI),
                ));
            },
            None => {},
        }
        total = total + entry.ips.len();
        i = i + 1;
    }
    assert(sizes.subrange(0, i as int) =~= sizes);
    assert(pool_view(pool@).take(i as int) =~= pool_view(pool@));
    ServiceStatus {
        running,
        current_ips: current,
        stats: ServiceStats { domains_scanned: pool.len(), total_ips: total },
    }
}

// ---------------------------------------------------------------------------
// Logs
// ---------------------------------------------------------------------------

/// One line of the daemon's log.
pub struct LogEntry {
    pub timestamp: String,
    pub level: String,
    pub message: String,
}

impl View for LogEntry {
    type V = (Seq<char>, Seq<char>, Seq<char>);

    open spec fn view(&self) -> (Seq<char>, Seq<char>, Seq<char>) {
        (self.timestamp@, self.level@, self.message@)
    }
}

/// The values of a list of log lines.
pub open spec fn log_views(logs: Seq<LogEntry>) -> Seq<(Seq<char>, Seq<char>, Seq<char>)> {
    logs.map_values(|e: LogEntry| e@)
}

/// The reply to `get_logs`.
pub struct LogsReply {
    pub logs: Vec<LogEntry>,
    pub total_count: usize,
    pub returned_count: usize,
}

/// The reply to `get_logs` asking for `lines` lines: the last `lines` lines,
/// oldest first, the number of lines kept and the number returned.
pub fn logs_tail(logs: &Vec<LogEntry>, lines: usize) -> (r: LogsReply)
    ensures
        log_views(r.logs@) == log_views(logs@).subrange(
            tail_start(logs@.len(), lines as nat) as int,
            logs@.len() as int,
        ),
        r.total_count == logs@.len(),
        r.returned_count == r.logs@.len(),
{
    let start: usize = if logs.len() > lines {
        logs.len() - lines
    } else {
        0
    };
    let mut out: Vec<LogEntry> = Vec::new();
    let mut i = start;
    while i < logs.len()
        invariant
            start <= i <= logs.len(),
            start == tail_start(logs@.len(), lines as nat),
            log_views(out@) == log_views(logs@).subrange(start as int, i as int),
        decreases logs.len() - i,
    {
        let e = &logs[i];
        let ghost before = log_views(out@);
        let copy = LogEntry { timestamp: e.timestamp.clone(), level: e.level.clone(), message: e.message.clone() };
        assert(copy@ == e@);
        out.push(copy);
        assert(log_views(out@) =~= before.push(e@));
        assert(log_views(logs@).subrange(start as int, i + 1) =~= log_views(logs@).subrange(start as int, i as int).push(e@));
        i = i + 1;
    }
    let n = out.len();
    LogsReply { logs: out, total_count: logs.len(), returned_count: n }
}

} // verus!
