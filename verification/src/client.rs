//! The client side of the control protocol, as the desktop front end uses it:
//! the connection state with its retry schedule, which reply answers a
//! request, where the daemon listens, and the status reply's defaults.

use vstd::prelude::*;
use crate::text::{
    str_eq, spec_trim, trim, spec_parse_u16, parse_u16, spec_decimal, append_decimal, lemma_trim_decimal,
    lemma_parse_u16_of_decimal,
};
use crate::ipc::{DomainIpInfo, ServiceStats};

verus! {

// ---------------------------------------------------------------------------
// Retry schedule
// ---------------------------------------------------------------------------

/// Two to the power `n`.
pub open spec fn spec_pow2(n: nat) -> nat
    decreases n,
{
    if n == 0 {
        1
    } else {
        2 * spec_pow2((n - 1) as nat)
    }
}

proof fn lemma_pow2_monotone(a: nat, b: nat)
    requires
        a <= b,
    ensures
        spec_pow2(a) <= spec_pow2(b),
    decreases b,
{
    if a < b {
        lemma_pow2_monotone(a, (b - 1) as nat);
    }
}

proof fn lemma_pow2_63()
    ensures
        spec_pow2(63) == 0x8000_0000_0000_0000,
{
    reveal_with_fuel(spec_pow2, 64);
}

/// Seconds waited after failed attempt number `attempt` (counting from one)
/// before the next: two to the power `attempt - 1`.
pub fn retry_delay_secs(attempt: u32) -> (r: u64)
    requires
        1 <= attempt <= 64,
    ensures
        r == spec_pow2((attempt - 1) as nat),
{
    proof {
        lemma_pow2_63();
    }
    let mut d: u64 = 1;
    let mut k: u32 = 0;
    while k < attempt - 1
        invariant
            attempt <= 64,
            k <= attempt - 1,
            d == spec_pow2(k as nat),
            spec_pow2(63) == 0x8000_0000_0000_0000,
        decreases attempt - 1 - k,
    {
        proof {
            lemma_pow2_monotone((k + 1) as nat, 63);
        }
        d = d * 2;
        k = k + 1;
    }
    d
}

/// Attempts the client makes by default before giving up.
pub const DEFAULT_MAX_RETRIES: u32 = 3;

/// Times the front end asks the client to connect before giving up.
pub const SERVICE_CONNECT_RETRIES: u32 = 5;

/// What follows a connection attempt.
#[derive(Clone, Copy, Debug, PartialEq, Eq, Structural)]
pub enum ConnectStep {
    /// The connection is up.
    Connected,
    /// Wait this many seconds, then attempt again.
    RetryAfter(u64),
    /// Every attempt failed.
    GiveUp,
}

/// A connection that is attempted up to `max_retries` times, waiting 1, 2,
/// 4, ... seconds between attempts.
pub struct RetryState {
    pub attempts: u32,
    pub max_retries: u32,
    pub connected: bool,
}

impl RetryState {
    /// A disconnected state with no attempt made.
    pub fn new(max_retries: u32) -> (r: Self)
        ensures
            r.attempts == 0,
            r.max_retries == max_retries,
            !r.connected,
    {
        RetryState { attempts: 0, max_retries, connected: false }
    }

    /// Starts a round of attempts; answers whether one may be made.
    pub fn begin_connect(&mut self) -> (r: bool)
        ensures
            final(self).attempts == 0,
            final(self).max_retries == old(self).max_retries,
            final(self).connected == old(self).connected,
            r == (0 < old(self).max_retries),
    {
        self.attempts = 0;
        0 < self.max_retries
    }

    /// Counts an attempt about to be made; answers its number.
    pub fn begin_attempt(&mut self) -> (r: u32)
        requires
            old(self).attempts < old(self).max_retries,
        ensures
            final(self).attempts == old(self).attempts + 1,
            r == final(self).attempts,
            final(self).max_retries == old(self).max_retries,
            final(self).connected == old(self).connected,
    {
        self.attempts = self.attempts + 1;
        self.attempts
    }

    /// Takes the outcome of the attempt just made: on success the state is
    /// connected and the count reset; on failure another attempt follows
    /// after `2^(attempts - 1)` seconds unless the attempts are used up.
    pub fn end_attempt(&mut self, ok: bool) -> (r: ConnectStep)
        requires
            1 <= old(self).attempts <= old(self).max_retries,
            !ok && old(self).attempts < old(self).max_retries ==> old(self).attempts <= 64,
        ensures
            final(self).max_retries == old(self).max_retries,
            ok ==> r == ConnectStep::Connected && final(self).connected && final(self).attempts == 0,
            !ok ==> final(self).attempts == old(self).attempts && final(self).connected == old(self).connected,
            !ok && old(self).attempts < old(self).max_retries ==> r == ConnectStep::RetryAfter(
                spec_pow2((old(self).attempts - 1) as nat) as u64,
            ),
            !ok && old(self).attempts == old(self).max_retries ==> r == ConnectStep::GiveUp,
    {
        if ok {
            self.connected = true;
            self.attempts = 0;
            ConnectStep::Connected
        } else if self.attempts < self.max_retries {
            ConnectStep::RetryAfter(retry_delay_secs(self.attempts))
        } else {
            ConnectStep::GiveUp
        }
    }

    /// Marks the connection closed.
    pub fn disconnect(&mut self)
        ensures
            !final(self).connected,
            final(self).attempts == old(self).attempts,
            final(self).max_retries == old(self).max_retries,
    {
        self.connected = false;
    }
}

/// Seconds waited in all during a round of `n` attempts that all fail: the
/// waits after attempts 1 to `n - 1`.
pub open spec fn spec_total_wait(n: nat) -> nat
    decreases n,
{
    if n <= 1 {
        0
    } else {
        spec_total_wait((n - 1) as nat) + spec_pow2((n - 2) as nat)
    }
}

/// A round of `n >= 1` attempts that all fail waits `2^(n-1) - 1` seconds in
/// all before giving up (3 seconds for the client's three attempts).
pub proof fn law_total_wait(n: nat)
    requires
        n >= 1,
    ensures
        spec_total_wait(n) + 1 == spec_pow2((n - 1) as nat),
    decreases n,
{
    if n > 1 {
        law_total_wait((n - 1) as nat);
    }
}

// ---------------------------------------------------------------------------
// The client's connection
// ---------------------------------------------------------------------------

/// The state of a control-protocol client: where it connects and its
/// connection attempts.
pub struct IpcClientState {
    pub server_url: String,
    pub retry: RetryState,
}

impl IpcClientState {
    /// A client for `server_url` that makes up to three attempts.
    pub fn new(server_url: String) -> (r: Self)
        ensures
            r.server_url@ == server_url@,
            r.retry.max_retries == DEFAULT_MAX_RETRIES,
            r.retry.attempts == 0,
            !r.retry.connected,
    {
        IpcClientState { server_url, retry: RetryState::new(DEFAULT_MAX_RETRIES) }
    }

    /// A client for `server_url` that makes up to `max_retries` attempts.
    pub fn with_retries(server_url: String, max_retries: u32) -> (r: Self)
        ensures
            r.server_url@ == server_url@,
            r.retry.max_retries == max_retries,
            r.retry.attempts == 0,
            !r.retry.connected,
    {
        IpcClientState { server_url, retry: RetryState::new(max_retries) }
    }

    /// Whether the client is connected.
    pub fn is_connected(&self) -> (r: bool)
        ensures
            r == self.retry.connected,
    {
        self.retry.connected
    }

    /// The WebSocket URL the client connects to.
    pub fn ws_url(&self) -> (r: String)
        ensures
            r@ == "ws://"@ + self.server_url@,
    {
        let mut s = String::from_str("ws://");
        s.append(self.server_url.as_str());
        s
    }
}

/// The message of the error returned when every attempt failed.
pub open spec fn spec_retries_exhausted_message(max_retries: u32) -> Seq<char> {
    "连接失败，已达到最大重试次数: "@ + spec_decimal(max_retries as nat)
}

/// The message of the error returned when every attempt failed.
pub fn retries_exhausted_message(max_retries: u32) -> (r: String)
    ensures
        r@ == spec_retries_exhausted_message(max_retries),
{
    let mut s = String::from_str("连接失败，已达到最大重试次数: ");
    append_decimal(&mut s, max_retries as u64);
    s
}

/// The message of the error the integrated service returns when it could
/// not connect: the last attempt's error, or "未知错误" when none was kept.
pub open spec fn spec_service_connect_error(last_error: Option<Seq<char>>) -> Seq<char> {
    "连接失败："@ + match last_error {
        Some(e) => e,
        None => "未知错误"@,
    }
}

/// The result of making sure the integrated service holds a connected
/// client: success when the client slot was already filled (nothing is
/// attempted then) or when an attempt connected; otherwise the error that
/// names the last attempt's failure.
pub fn ensure_connected_outcome(slot_filled: bool, connected: bool, last_error: Option<String>) -> (r: Result<(), String>)
    ensures
        r is Ok <==> (slot_filled || connected),
        r matches Err(e) ==> e@ == spec_service_connect_error(match last_error {
            Some(e) => Some(e@),
            None => None,
        }),
{
    if slot_filled || connected {
        return Ok(());
    }
    let mut s = String::from_str("连接失败：");
    match last_error {
        Some(e) => s.append(e.as_str()),
        None => s.append("未知错误"),
    }
    Err(s)
}

// ---------------------------------------------------------------------------
// Replies
// ---------------------------------------------------------------------------

/// How a received message relates to the request awaited.
#[derive(Clone, Copy, Debug, PartialEq, Eq, Structural)]
pub enum ResponseMatch {
    /// Not the reply awaited: keep reading.
    Skip,
    /// The reply awaited, reporting an error.
    Error,
    /// The reply awaited, carrying a result.
    Result,
}

/// How a message with numeric id `id` (none when it has none) and an `error`
/// member or not relates to the request with id `expected`.
pub open spec fn spec_match_response(id: Option<u64>, expected: u64, has_error: bool) -> ResponseMatch {
    match id {
        Some(i) if i == expected => if has_error {
            ResponseMatch::Error
        } else {
            ResponseMatch::Result
        },
        _ => ResponseMatch::Skip,
    }
}

/// Decides how a received message relates to the request awaited.
pub fn match_response(id: Option<u64>, expected: u64, has_error: bool) -> (r: ResponseMatch)
    ensures
        r == spec_match_response(id, expected, has_error),
{
    match id {
        Some(i) => if i == expected {
            if has_error {
                ResponseMatch::Error
            } else {
                ResponseMatch::Result
            }
        } else {
            ResponseMatch::Skip
        },
        None => ResponseMatch::Skip,
    }
}

// ---------------------------------------------------------------------------
// Where the daemon listens
// ---------------------------------------------------------------------------

/// Address used when the daemon's port file cannot be read.
pub const DEFAULT_IPC_ADDRESS: &'static str = "127.0.0.1:13626";

/// The files searched, in order, for the daemon's control port.
pub open spec fn spec_ipc_port_files() -> Seq<Seq<char>> {
    seq![
        ".ipc_port"@,
        "../.ipc_port"@,
        "../../.ipc_port"@,
        "core/.ipc_port"@,
        "../core/.ipc_port"@,
        "../../core/.ipc_port"@,
    ]
}

/// The files searched, in order, for the daemon's control port.
pub fn ipc_port_files() -> (r: Vec<&'static str>)
    ensures
        r@.map_values(|s: &str| s@) == spec_ipc_port_files(),
{
    let r = vec![
        ".ipc_port",
        "../.ipc_port",
        "../../.ipc_port",
        "core/.ipc_port",
        "../core/.ipc_port",
        "../../core/.ipc_port",
    ];
    assert(r@.map_values(|s: &str| s@) =~= spec_ipc_port_files());
    r
}

/// The port read from the first candidate file whose text, trimmed, is a
/// port number; `contents[i]` is the text of the i-th file, none when it
/// does not exist or could not be read.
pub open spec fn spec_port_from_files(contents: Seq<Option<Seq<char>>>) -> Option<u16>
    decreases contents.len(),
{
    if contents.len() == 0 {
        None
    } else {
        match contents[0] {
            Some(t) if spec_parse_u16(spec_trim(t)) is Some => spec_parse_u16(spec_trim(t)),
            _ => spec_port_from_files(contents.drop_first()),
        }
    }
}

/// A port written to the first candidate file as decimal text reads back as
/// the same port, whatever the later files hold.
pub proof fn law_port_file_reads_back(p: u16, later: Seq<Option<Seq<char>>>)
    ensures
        spec_port_from_files(seq![Some(spec_decimal(p as nat))] + later) == Some(p),
{
    let c = seq![Some(spec_decimal(p as nat))] + later;
    lemma_trim_decimal(p as nat);
    lemma_parse_u16_of_decimal(p);
    assert(c[0] == Some(spec_decimal(p as nat)));
}

/// The values of a list of optional texts.
pub open spec fn opt_text_views(v: Seq<Option<String>>) -> Seq<Option<Seq<char>>> {
    v.map_values(|o: Option<String>| match o {
        Some(s) => Some(s@),
        None => None,
    })
}

/// Reads the daemon's control port from the candidate files' contents.
pub fn port_from_files(contents: &Vec<Option<String>>) -> (r: Option<u16>)
    ensures
        r == spec_port_from_files(opt_text_views(contents@)),
{
    let ghost all = opt_text_views(contents@);
    assert(all.skip(0) =~= all);
    let mut i: usize = 0;
    while i < contents.len()
        invariant
            i <= contents.len(),
            all == opt_text_views(contents@),
            spec_port_from_files(all) == spec_port_from_files(all.skip(i as int)),
        decreases contents.len() - i,
    {
        let ghost rest = all.skip(i as int);
        assert(rest.drop_first() =~= all.skip(i + 1));
        assert(rest[0] == all[i as int]);
        match &contents[i] {
            Some(text) => {
                let p = parse_u16(trim(text.as_str()));
                if p.is_some() {
                    return p;
                }
            },
            None => {},
        }
        i = i + 1;
    }
    assert(all.skip(i as int) =~= Seq::<Option<Seq<char>>>::empty());
    None
}

/// The address the front end connects to: for `"dynamic"`, the loopback
/// address with the port read from the port file (the default address when
/// none was read); otherwise the address given.
pub open spec fn spec_server_address(given: Seq<char>, port: Option<u16>) -> Seq<char> {
    if given == "dynamic"@ {
        match port {
            Some(p) => "127.0.0.1:"@ + spec_decimal(p as nat),
            None => DEFAULT_IPC_ADDRESS@,
        }
    } else {
        given
    }
}

/// Resolves the address the front end connects to.
pub fn server_address(given: String, port: Option<u16>) -> (r: String)
    ensures
        r@ == spec_server_address(given@, port),
{
    if str_eq(given.as_str(), "dynamic") {
        match port {
            Some(p) => {
                let mut s = String::from_str("127.0.0.1:");
                append_decimal(&mut s, p as u64);
                s
            },
            None => String::from_str(DEFAULT_IPC_ADDRESS),
        }
    } else {
        given
    }
}

// ---------------------------------------------------------------------------
// Reading a status reply
// ---------------------------------------------------------------------------

/// One `current_ips` entry of a status reply, with the defaults used for
/// missing fields: domain `unknown`, address `0.0.0.0`, round-trip time 0.
pub fn domain_ip_info(domain: Option<String>, ip: Option<String>, rtt: Option<u64>) -> (r: DomainIpInfo)
    ensures
        r.domain@ == (match domain {
            Some(d) => d@,
            None => "unknown"@,
        }),
        r.ip@ == (match ip {
            Some(a) => a@,
            None => "0.0.0.0"@,
        }),
        r.rtt == (match rtt {
            Some(t) => t,
            None => 0,
        }),
{
    DomainIpInfo {
        domain: match domain {
            Some(d) => d,
            None => String::from_str("unknown"),
        },
        ip: match ip {
            Some(a) => a,
            None => String::from_str("0.0.0.0"),
        },
        rtt: match rtt {
            Some(t) => t,
            None => 0,
        },
    }
}

/// The `stats` of a status reply, missing counts read as 0 and converted as
/// `as usize` does.
pub fn service_stats(domains_scanned: Option<u64>, total_ips: Option<u64>) -> (r: ServiceStats)
    ensures
        r.domains_scanned == (match domains_scanned {
            Some(v) => v,
            None => 0,
        }) as usize,
        r.total_ips == (match total_ips {
            Some(v) => v,
            None => 0,
        }) as usize,
{
    let d: u64 = match domains_scanned {
        Some(v) => v,
        None => 0,
    };
    let t: u64 = match total_ips {
        Some(v) => v,
        None => 0,
    };
    ServiceStats {
        domains_scanned: #[verifier::truncate] (d as usize),
        total_ips: #[verifier::truncate] (t as usize),
    }
}

} // verus!
