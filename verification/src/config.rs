//! Daemon configuration: the domains to scan, scan pacing, upstream DNS and
//! listening address, with the defaults written on first start and the
//! partial updates that the `set_config` request applies.

use vstd::prelude::*;

verus! {

/// The views of a list of strings.
pub open spec fn string_views(v: Seq<String>) -> Seq<Seq<char>> {
    v.map_values(|s: String| s@)
}

/// Copies a list of strings.
pub fn copy_strings(v: &Vec<String>) -> (r: Vec<String>)
    ensures
        r@ == v@,
{
    let mut r: Vec<String> = Vec::new();
    let mut i: usize = 0;
    while i < v.len()
        invariant
            i <= v.len(),
            r@ == v@.subrange(0, i as int),
        decreases v.len() - i,
    {
        r.push(v[i].clone());
        assert(r@ =~= v@.subrange(0, i + 1));
        i = i + 1;
    }
    assert(r@ =~= v@);
    r
}

/// Daemon configuration.
#[derive(Debug)]
pub struct Config {
    pub domains: Vec<String>,
    pub scan_interval: u64,
    pub scan_concurrency: usize,
    pub upstream_dns: String,
    pub listen_addr: String,
    pub log_level: String,
}

/// The values of a configuration.
pub struct ConfigView {
    pub domains: Seq<Seq<char>>,
    pub scan_interval: u64,
    pub scan_concurrency: usize,
    pub upstream_dns: Seq<char>,
    pub listen_addr: Seq<char>,
    pub log_level: Seq<char>,
}

impl View for Config {
    type V = ConfigView;

    open spec fn view(&self) -> ConfigView {
        ConfigView {
            domains: string_views(self.domains@),
            scan_interval: self.scan_interval,
            scan_concurrency: self.scan_concurrency,
            upstream_dns: self.upstream_dns@,
            listen_addr: self.listen_addr@,
            log_level: self.log_level@,
        }
    }
}

/// The domains scanned by default.
pub open spec fn spec_default_domains() -> Seq<Seq<char>> {
    seq!["github.com"@, "api.github.com"@, "raw.githubusercontent.com"@, "assets-cdn.github.com"@]
}

impl Config {
    /// The configuration is the default one.
    pub open spec fn is_default(&self) -> bool {
        &&& string_views(self.domains@) == spec_default_domains()
        &&& self.scan_interval == 1800
        &&& self.scan_concurrency == 50
        &&& self.upstream_dns@ == "223.5.5.5:53"@
        &&& self.listen_addr@ == "127.0.0.1:61235"@
        &&& self.log_level@ == "info"@
    }

    /// A copy of this configuration.
    pub fn copy(&self) -> (r: Config)
        ensures
            r@ == self@,
    {
        Config {
            domains: copy_strings(&self.domains),
            scan_interval: self.scan_interval,
            scan_concurrency: self.scan_concurrency,
            upstream_dns: self.upstream_dns.clone(),
            listen_addr: self.listen_addr.clone(),
            log_level: self.log_level.clone(),
        }
    }

    /// Applies the fields present in a `set_config` request to a copy of this
    /// configuration; absent fields keep their current values.
    pub fn with_update(&self, update: &ConfigUpdate) -> (r: Config)
        ensures
            r@ == spec_with_update(self@, update),
    {
        let domains = match &update.domains {
            Some(d) => copy_strings(d),
            None => copy_strings(&self.domains),
        };
        let scan_interval = match update.scan_interval {
            Some(v) => v,
            None => self.scan_interval,
        };
        let scan_concurrency = match update.scan_concurrency {
            Some(v) => #[verifier::truncate] (v as usize),
            None => self.scan_concurrency,
        };
        let upstream_dns = match &update.upstream_dns {
            Some(v) => v.clone(),
            None => self.upstream_dns.clone(),
        };
        let listen_addr = match &update.listen_addr {
            Some(v) => v.clone(),
            None => self.listen_addr.clone(),
        };
        let log_level = match &update.log_level {
            Some(v) => v.clone(),
            None => self.log_level.clone(),
        };
        Config { domains, scan_interval, scan_concurrency, upstream_dns, listen_addr, log_level }
    }
}

impl Default for Config {
    fn default() -> (r: Config)
        ensures
            r.is_default(),
    {
        let domains = vec![
            String::from_str("github.com"),
            String::from_str("api.github.com"),
            String::from_str("raw.githubusercontent.com"),
            String::from_str("assets-cdn.github.com"),
        ];
        let r = Config {
            domains,
            scan_interval: 1800,
            scan_concurrency: 50,
            upstream_dns: String::from_str("223.5.5.5:53"),
            listen_addr: String::from_str("127.0.0.1:61235"),
            log_level: String::from_str("info"),
        };
        assert(string_views(r.domains@) =~= spec_default_domains());
        r
    }
}

/// The fields a `set_config` request carries; each is optional.
#[derive(Debug)]
pub struct ConfigUpdate {
    pub domains: Option<Vec<String>>,
    pub scan_interval: Option<u64>,
    pub scan_concurrency: Option<u64>,
    pub upstream_dns: Option<String>,
    pub listen_addr: Option<String>,
    pub log_level: Option<String>,
}

/// `c` with the fields that `update` carries replaced.
pub open spec fn spec_with_update(c: ConfigView, update: &ConfigUpdate) -> ConfigView {
    ConfigView {
        domains: match update.domains {
            Some(d) => string_views(d@),
            None => c.domains,
        },
        scan_interval: match update.scan_interval {
            Some(v) => v,
            None => c.scan_interval,
        },
        scan_concurrency: match update.scan_concurrency {
            Some(v) => v as usize,
            None => c.scan_concurrency,
        },
        upstream_dns: match update.upstream_dns {
            Some(v) => v@,
            None => c.upstream_dns,
        },
        listen_addr: match update.listen_addr {
            Some(v) => v@,
            None => c.listen_addr,
        },
        log_level: match update.log_level {
            Some(v) => v@,
            None => c.log_level,
        },
    }
}

/// An update that carries no field leaves the configuration unchanged, and the
/// fields it does carry are the ones read back afterwards.
pub proof fn law_update_reads_back(c: ConfigView, u: ConfigUpdate)
    ensures
        u.domains is None ==> spec_with_update(c, &u).domains == c.domains,
        u.domains matches Some(d) ==> spec_with_update(c, &u).domains == string_views(d@),
        u.scan_interval is None ==> spec_with_update(c, &u).scan_interval == c.scan_interval,
        u.scan_interval matches Some(v) ==> spec_with_update(c, &u).scan_interval == v,
        u.upstream_dns is None ==> spec_with_update(c, &u).upstream_dns == c.upstream_dns,
        u.upstream_dns matches Some(v) ==> spec_with_update(c, &u).upstream_dns == v@,
        u.scan_concurrency is None ==> spec_with_update(c, &u).scan_concurrency == c.scan_concurrency,
        u.scan_concurrency matches Some(v) ==> spec_with_update(c, &u).scan_concurrency == v as usize,
        u.scan_concurrency matches Some(v) ==> (v <= usize::MAX ==> spec_with_update(c, &u).scan_concurrency == v),
        u.listen_addr is None ==> spec_with_update(c, &u).listen_addr == c.listen_addr,
        u.listen_addr matches Some(v) ==> spec_with_update(c, &u).listen_addr == v@,
        u.log_level is None ==> spec_with_update(c, &u).log_level == c.log_level,
        u.log_level matches Some(v) ==> spec_with_update(c, &u).log_level == v@,
        ({
            &&& u.domains is None
            &&& u.scan_interval is None
            &&& u.scan_concurrency is None
            &&& u.upstream_dns is None
            &&& u.listen_addr is None
            &&& u.log_level is None
        }) ==> spec_with_update(c, &u) == c,
{
}

} // verus!
