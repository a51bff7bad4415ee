//! GitHub traffic monitoring: the set of addresses known to belong to GitHub,
//! and a bounded history of traffic deltas computed from cumulative counters.

use vstd::prelude::*;
use crate::clock::unix_time_secs;
use crate::history::{
    seq_sum, spec_push_then_trim, push_then_trim, spec_take_last, take_last,
    lemma_sum_prefix_bound, checked_sum,
};
use crate::process_filter::{
    ProcessFilter, ProcessSnapshot, ProcessTraffic, ProcessTrafficView, ProcessConfigView,
    TypeTraffic, traffic_views, spec_target_traffic, traffic_uploads, traffic_downloads,
    spec_insert_all, copy_traffic_list, group_by_type, group_fits, spec_group, type_sums,
};
use crate::text::str_eq;
use crate::config::string_views;

verus! {

/// No text occurs twice in `s`.
pub open spec fn no_duplicates(s: Seq<Seq<char>>) -> bool {
    forall|i: int, j: int| 0 <= i < j < s.len() ==> s[i] != s[j]
}

/// The addresses seen in DNS answers for GitHub domains.
pub struct GitHubIPTracker {
    github_ips: Vec<String>,
}

impl GitHubIPTracker {
    /// The known GitHub addresses.
    pub closed spec fn ip_set(&self) -> Set<Seq<char>> {
        string_views(self.github_ips@).to_set()
    }

    /// No address is listed twice.
    pub closed spec fn wf(&self) -> bool {
        no_duplicates(string_views(self.github_ips@))
    }

    /// A tracker that knows no address.
    pub fn new() -> (r: Self)
        ensures
            r.wf(),
            r.ip_set() == Set::<Seq<char>>::empty(),
    {
        let r = GitHubIPTracker { github_ips: Vec::new() };
        assert(string_views(r.github_ips@) =~= Seq::<Seq<char>>::empty());
        assert(r.ip_set() =~= Set::<Seq<char>>::empty());
        r
    }

    /// Whether `ip` is a known GitHub address.
    pub fn is_github_ip(&self, ip: &str) -> (r: bool)
        ensures
            r == self.ip_set().contains(ip@),
    {
        let mut i: usize = 0;
        while i < self.github_ips.len()
            invariant
                i <= self.github_ips.len(),
                forall|j: int| 0 <= j < i ==> string_views(self.github_ips@)[j] != ip@,
            decreases self.github_ips.len() - i,
        {
            if str_eq(self.github_ips[i].as_str(), ip) {
                assert(string_views(self.github_ips@)[i as int] == ip@);
                return true;
            }
            i = i + 1;
        }
        assert(!self.ip_set().contains(ip@)) by {
            if string_views(self.github_ips@).contains(ip@) {
                let k = choose|k: int| 0 <= k < string_views(self.github_ips@).len() && string_views(self.github_ips@)[k] == ip@;
                assert(string_views(self.github_ips@)[k] != ip@);
            }
        }
        false
    }

    /// Records `ip` as a GitHub address.
    pub fn add_github_ip(&mut self, ip: String)
        requires
            old(self).wf(),
        ensures
            final(self).wf(),
            final(self).ip_set() == old(self).ip_set().insert(ip@),
    {
        if !self.is_github_ip(ip.as_str()) {
            let ghost before = string_views(self.github_ips@);
            assert(!before.contains(ip@));
            self.github_ips.push(ip);
            assert(string_views(self.github_ips@) =~= before.push(ip@));
            assert forall|i: int, j: int| 0 <= i < j < string_views(self.github_ips@).len() implies string_views(self.github_ips@)[i] != string_views(self.github_ips@)[j] by {
                if j == before.len() {
                    assert(before[i] == string_views(self.github_ips@)[i]);
                }
            }
            let ghost now = string_views(self.github_ips@);
            assert forall|x: Seq<char>| now.contains(x) == before.push(ip@).contains(x) by {}
            assert forall|x: Seq<char>| #[trigger] now.contains(x) == (before.contains(x) || x == ip@) by {
                if now.contains(x) {
                    let k = choose|k: int| 0 <= k < now.len() && now[k] == x;
                    if k < before.len() {
                        assert(before[k] == x);
                    }
                }
                if before.contains(x) {
                    let k = choose|k: int| 0 <= k < before.len() && before[k] == x;
                    assert(now[k] == x);
                }
                if x == ip@ {
                    assert(now[before.len() as int] == x);
                }
            }
            assert(self.ip_set() =~= old(self).ip_set().insert(ip@));
        } else {
            assert(old(self).ip_set().insert(ip@) =~= old(self).ip_set());
        }
    }

    /// Every known GitHub address, each once.
    pub fn get_github_ips(&self) -> (r: Vec<String>)
        requires
            self.wf(),
        ensures
            no_duplicates(string_views(r@)),
            string_views(r@).to_set() == self.ip_set(),
    {
        let mut r: Vec<String> = Vec::new();
        let mut i: usize = 0;
        while i < self.github_ips.len()
            invariant
                i <= self.github_ips.len(),
                r@.len() == i,
                string_views(r@) =~= string_views(self.github_ips@).subrange(0, i as int),
            decreases self.github_ips.len() - i,
        {
            let c = self.github_ips[i].clone();
            let ghost before = r@;
            r.push(c);
            assert forall|j: int| 0 <= j < i implies string_views(r@)[j] == string_views(before)[j] by {
                assert(r@[j] == before[j]);
            }
            assert(string_views(r@) =~= string_views(self.github_ips@).subrange(0, i + 1));
            i = i + 1;
        }
        assert(string_views(self.github_ips@).subrange(0, i as int) =~= string_views(self.github_ips@));
        r
    }
}

/// Reading back a written address: after `add_github_ip(ip)` the tracker answers
/// yes for `ip` and unchanged for every other address.
pub proof fn law_tracker_reads_back(before: Set<Seq<char>>, ip: Seq<char>, other: Seq<char>)
    ensures
        before.insert(ip).contains(ip),
        other != ip ==> before.insert(ip).contains(other) == before.contains(other),
{
}

/// Membership after a series of additions: when `trackers[0]` is a new
/// tracker and each next tracker is the previous one after
/// `add_github_ip(ips[k])`, the last tracker knows exactly the added
/// addresses, compared as exact strings.
pub proof fn law_tracker_knows_exactly_the_added(trackers: Seq<GitHubIPTracker>, ips: Seq<Seq<char>>)
    requires
        trackers.len() == ips.len() + 1,
        trackers[0].ip_set() == Set::<Seq<char>>::empty(),
        forall|k: int| 0 <= k < ips.len() ==> #[trigger] trackers[k + 1].ip_set() == trackers[k].ip_set().insert(ips[k]),
    ensures
        forall|x: Seq<char>| #[trigger] trackers.last().ip_set().contains(x) <==> ips.contains(x),
    decreases ips.len(),
{
    if ips.len() == 0 {
        return;
    }
    let n = ips.len() - 1;
    let t0 = trackers.drop_last();
    let i0 = ips.drop_last();
    assert forall|k: int| 0 <= k < i0.len() implies #[trigger] t0[k + 1].ip_set() == t0[k].ip_set().insert(i0[k]) by {
        assert(trackers[k + 1].ip_set() == trackers[k].ip_set().insert(ips[k]));
    }
    law_tracker_knows_exactly_the_added(t0, i0);
    assert(trackers[n + 1].ip_set() == trackers[n].ip_set().insert(ips[n]));
    assert forall|x: Seq<char>| #[trigger] trackers.last().ip_set().contains(x) <==> ips.contains(x) by {
        assert(t0.last() == trackers[n]);
        if ips.contains(x) && x != ips[n] {
            let k = choose|k: int| 0 <= k < ips.len() && ips[k] == x;
            assert(i0[k] == x);
        }
        if i0.contains(x) {
            let k = choose|k: int| 0 <= k < i0.len() && i0[k] == x;
            assert(ips[k] == x);
        }
        if x == ips[n] {
            assert(ips.contains(x));
        }
    }
}

/// Cumulative byte counters of one network interface.
#[derive(Debug, Clone, Copy, PartialEq, Eq)]
pub struct InterfaceTraffic {
    pub total_transmitted: u64,
    pub total_received: u64,
}

/// Transmitted bytes of each interface.
pub open spec fn transmitted(s: Seq<InterfaceTraffic>) -> Seq<int> {
    s.map_values(|t: InterfaceTraffic| t.total_transmitted as int)
}

/// Received bytes of each interface.
pub open spec fn received(s: Seq<InterfaceTraffic>) -> Seq<int> {
    s.map_values(|t: InterfaceTraffic| t.total_received as int)
}

/// Totals over all interfaces, or `None` when one of them does not fit in 64 bits.
pub fn sum_interfaces(interfaces: &Vec<InterfaceTraffic>) -> (r: Option<(u64, u64)>)
    ensures
        match r {
            Some(t) => t.0 == seq_sum(transmitted(interfaces@)) && t.1 == seq_sum(
                received(interfaces@),
            ),
            None => seq_sum(transmitted(interfaces@)) > u64::MAX || seq_sum(received(interfaces@))
                > u64::MAX,
        },
{
    let ghost tx = transmitted(interfaces@);
    let ghost rx = received(interfaces@);
    proof {
        lemma_sum_prefix_bound(tx);
        lemma_sum_prefix_bound(rx);
    }
    let mut up: u64 = 0;
    let mut down: u64 = 0;
    let mut i: usize = 0;
    while i < interfaces.len()
        invariant
            i <= interfaces.len(),
            tx == transmitted(interfaces@),
            rx == received(interfaces@),
            forall|k: int| 0 <= k <= tx.len() ==> seq_sum(#[trigger] tx.subrange(0, k)) <= seq_sum(tx),
            forall|k: int| 0 <= k <= rx.len() ==> seq_sum(#[trigger] rx.subrange(0, k)) <= seq_sum(rx),
            up == seq_sum(tx.subrange(0, i as int)),
            down == seq_sum(rx.subrange(0, i as int)),
        decreases interfaces.len() - i,
    {
        assert(tx.subrange(0, i + 1).drop_last() =~= tx.subrange(0, i as int));
        assert(rx.subrange(0, i + 1).drop_last() =~= rx.subrange(0, i as int));
        let t = interfaces[i];
        match up.checked_add(t.total_transmitted) {
            Some(u) => {
                up = u;
            },
            None => {
                return None;
            },
        }
        match down.checked_add(t.total_received) {
            Some(d) => {
                down = d;
            },
            None => {
                return None;
            },
        }
        i = i + 1;
    }
    assert(tx.subrange(0, i as int) =~= tx);
    assert(rx.subrange(0, i as int) =~= rx);
    Some((up, down))
}

/// One sample of traffic deltas since the previous sample.
#[derive(Debug, Clone, Copy, PartialEq, Eq)]
pub struct TrafficDataPoint {
    /// Seconds since the Unix epoch.
    pub timestamp: u64,
    pub total_upload: u64,
    pub total_download: u64,
    pub github_upload: u64,
    pub github_download: u64,
    pub target_upload: u64,
    pub target_download: u64,
}

/// Cumulative counters: total, GitHub and target-process upload and download.
pub type TrafficCounters = (u64, u64, u64, u64, u64, u64);

/// The counters for interface totals `(tx, rx)` and target-process totals `(pu, pd)`:
/// every interface's traffic counts as GitHub traffic, since only GitHub names are
/// routed through this service.
pub open spec fn spec_counters(tx: int, rx: int, pu: int, pd: int) -> TrafficCounters {
    (tx as u64, rx as u64, tx as u64, rx as u64, pu as u64, pd as u64)
}

/// The sample recorded at `ts` for counters `c` after counters `last`.
pub open spec fn spec_delta_point(ts: u64, c: TrafficCounters, last: TrafficCounters) -> TrafficDataPoint {
    TrafficDataPoint {
        timestamp: ts,
        total_upload: c.0.saturating_sub(last.0),
        total_download: c.1.saturating_sub(last.1),
        github_upload: c.2.saturating_sub(last.2),
        github_download: c.3.saturating_sub(last.3),
        target_upload: c.4.saturating_sub(last.4),
        target_download: c.5.saturating_sub(last.5),
    }
}

/// Monitors traffic and keeps the last samples and target-process lists.
pub struct GitHubTrafficMonitor {
    github_tracker: GitHubIPTracker,
    process_filter: ProcessFilter,
    traffic_history: Vec<TrafficDataPoint>,
    process_traffic_history: Vec<Vec<ProcessTraffic>>,
    max_history_points: usize,
    last_total_upload: u64,
    last_total_download: u64,
    last_github_upload: u64,
    last_github_download: u64,
    last_target_upload: u64,
    last_target_download: u64,
}

/// The views of a history of target-process lists.
pub open spec fn list_views(v: Seq<Vec<ProcessTraffic>>) -> Seq<Seq<ProcessTrafficView>> {
    v.map_values(|l: Vec<ProcessTraffic>| traffic_views(l@))
}

/// GitHub upload of each sample.
pub open spec fn github_uploads(h: Seq<TrafficDataPoint>) -> Seq<int> {
    h.map_values(|p: TrafficDataPoint| p.github_upload as int)
}

/// GitHub download of each sample.
pub open spec fn github_downloads(h: Seq<TrafficDataPoint>) -> Seq<int> {
    h.map_values(|p: TrafficDataPoint| p.github_download as int)
}

/// Target-process upload of each sample.
pub open spec fn target_uploads(h: Seq<TrafficDataPoint>) -> Seq<int> {
    h.map_values(|p: TrafficDataPoint| p.target_upload as int)
}

/// Target-process download of each sample.
pub open spec fn target_downloads(h: Seq<TrafficDataPoint>) -> Seq<int> {
    h.map_values(|p: TrafficDataPoint| p.target_download as int)
}


impl GitHubTrafficMonitor {
    /// The recorded samples, oldest first.
    pub closed spec fn history(&self) -> Seq<TrafficDataPoint> {
        self.traffic_history@
    }

    /// The recorded target-process lists, oldest first.
    pub closed spec fn process_history(&self) -> Seq<Seq<ProcessTrafficView>> {
        list_views(self.process_traffic_history@)
    }

    /// How many samples are kept.
    pub closed spec fn capacity(&self) -> nat {
        self.max_history_points as nat
    }

    /// The counters of the last sample.
    pub closed spec fn last_counters(&self) -> TrafficCounters {
        (
            self.last_total_upload,
            self.last_total_download,
            self.last_github_upload,
            self.last_github_download,
            self.last_target_upload,
            self.last_target_download,
        )
    }

    /// The known GitHub addresses.
    pub closed spec fn github_ips(&self) -> Set<Seq<char>> {
        self.github_tracker.ip_set()
    }

    /// The target groups of the process filter.
    pub closed spec fn target_configs(&self) -> Seq<ProcessConfigView> {
        self.process_filter.configs()
    }

    /// The last traffic seen for each target process.
    pub closed spec fn process_cache(&self) -> Map<u32, ProcessTrafficView> {
        self.process_filter.cache()
    }

    /// The tracker lists no address twice, and the histories stay within capacity.
    pub closed spec fn wf(&self) -> bool {
        &&& self.github_tracker.wf()
        &&& self.traffic_history@.len() <= self.max_history_points
        &&& self.process_traffic_history@.len() <= self.max_history_points
    }

    /// A monitor keeping at most `max_history_points` samples, with zero counters.
    pub fn new(max_history_points: usize) -> (r: Self)
        ensures
            r.wf(),
            r.history() == Seq::<TrafficDataPoint>::empty(),
            r.process_history() == Seq::<Seq<ProcessTrafficView>>::empty(),
            r.capacity() == max_history_points,
            r.last_counters() == (0u64, 0u64, 0u64, 0u64, 0u64, 0u64),
            r.github_ips() == Set::<Seq<char>>::empty(),
            r.target_configs() == crate::process_filter::spec_default_process_configs(),
    {
        let r = GitHubTrafficMonitor {
            github_tracker: GitHubIPTracker::new(),
            process_filter: ProcessFilter::new(),
            traffic_history: Vec::new(),
            process_traffic_history: Vec::new(),
            max_history_points,
            last_total_upload: 0,
            last_total_download: 0,
            last_github_upload: 0,
            last_github_download: 0,
            last_target_upload: 0,
            last_target_download: 0,
        };
        assert(r.process_history() =~= Seq::<Seq<ProcessTrafficView>>::empty());
        r
    }

    /// Current cumulative counters: interface totals (all counted as GitHub
    /// traffic) and the estimated traffic of the target processes among `processes`,
    /// or `None` when a total does not fit in 64 bits. The process filter records
    /// the target processes either way.
    pub fn get_current_traffic(
        &mut self,
        interfaces: &Vec<InterfaceTraffic>,
        processes: &Vec<ProcessSnapshot>,
    ) -> (r: Option<TrafficCounters>)
        requires
            old(self).wf(),
        ensures
            final(self).wf(),
            final(self).history() == old(self).history(),
            final(self).process_history() == old(self).process_history(),
            final(self).capacity() == old(self).capacity(),
            final(self).last_counters() == old(self).last_counters(),
            final(self).github_ips() == old(self).github_ips(),
            final(self).target_configs() == old(self).target_configs(),
            final(self).process_cache() == spec_insert_all(
                old(self).process_cache(),
                spec_target_traffic(old(self).target_configs(), processes@),
            ),
            match r {
                Some(c) => {
                    &&& seq_sum(transmitted(interfaces@)) <= u64::MAX
                    &&& seq_sum(received(interfaces@)) <= u64::MAX
                    &&& c == spec_counters(
                        seq_sum(transmitted(interfaces@)),
                        seq_sum(received(interfaces@)),
                        seq_sum(traffic_uploads(spec_target_traffic(old(self).target_configs(), processes@))),
                        seq_sum(traffic_downloads(spec_target_traffic(old(self).target_configs(), processes@))),
                    )
                    &&& seq_sum(traffic_uploads(spec_target_traffic(old(self).target_configs(), processes@))) <= u64::MAX
                    &&& seq_sum(traffic_downloads(spec_target_traffic(old(self).target_configs(), processes@))) <= u64::MAX
                },
                None => {
                    ||| seq_sum(transmitted(interfaces@)) > u64::MAX
                    ||| seq_sum(received(interfaces@)) > u64::MAX
                    ||| seq_sum(traffic_uploads(spec_target_traffic(old(self).target_configs(), processes@))) > u64::MAX
                    ||| seq_sum(traffic_downloads(spec_target_traffic(old(self).target_configs(), processes@))) > u64::MAX
                },
            },
    {
        let target = self.process_filter.try_get_total_target_traffic(processes);
        let net = sum_interfaces(interfaces);
        match (net, target) {
            (Some((tx, rx)), Some((pu, pd))) => Some((tx, rx, tx, rx, pu, pd)),
            _ => None,
        }
    }

    /// Records a sample at `timestamp` from the interface counters and process
    /// snapshot: each field is the growth of its counter since the last sample
    /// (zero if it shrank), the counters are remembered, the target-process list
    /// is appended to its own history, and each history drops its oldest entry when
    /// it exceeds the capacity. Answers `false`, changing nothing but the process
    /// filter's records, when a counter total does not fit in 64 bits.
    pub fn record_traffic_point_at(
        &mut self,
        interfaces: &Vec<InterfaceTraffic>,
        processes: &Vec<ProcessSnapshot>,
        timestamp: u64,
    ) -> (recorded: bool)
        requires
            old(self).wf(),
        ensures
            final(self).wf(),
            final(self).capacity() == old(self).capacity(),
            final(self).github_ips() == old(self).github_ips(),
            final(self).target_configs() == old(self).target_configs(),
            recorded ==> {
                let c = spec_counters(
                    seq_sum(transmitted(interfaces@)),
                    seq_sum(received(interfaces@)),
                    seq_sum(traffic_uploads(spec_target_traffic(old(self).target_configs(), processes@))),
                    seq_sum(traffic_downloads(spec_target_traffic(old(self).target_configs(), processes@))),
                );
                &&& final(self).last_counters() == c
                &&& final(self).history() == spec_push_then_trim(
                    old(self).history(),
                    spec_delta_point(timestamp, c, old(self).last_counters()),
                    old(self).capacity(),
                )
                &&& final(self).process_history() == spec_push_then_trim(
                    old(self).process_history(),
                    spec_target_traffic(old(self).target_configs(), processes@),
                    old(self).capacity(),
                )
            },
            !recorded ==> {
                &&& final(self).history() == old(self).history()
                &&& final(self).process_history() == old(self).process_history()
                &&& final(self).last_counters() == old(self).last_counters()
                &&& {
                    ||| seq_sum(transmitted(interfaces@)) > u64::MAX
                    ||| seq_sum(received(interfaces@)) > u64::MAX
                    ||| seq_sum(traffic_uploads(spec_target_traffic(old(self).target_configs(), processes@))) > u64::MAX
                    ||| seq_sum(traffic_downloads(spec_target_traffic(old(self).target_configs(), processes@))) > u64::MAX
                }
            },
    {
        let counters = match self.get_current_traffic(interfaces, processes) {
            Some(c) => c,
            None => {
                return false;
            },
        };
        let (total_upload, total_download, github_upload, github_download, target_upload, target_download) = counters;
        let point = TrafficDataPoint {
            timestamp,
            total_upload: total_upload.saturating_sub(self.last_total_upload),
            total_download: total_download.saturating_sub(self.last_total_download),
            github_upload: github_upload.saturating_sub(self.last_github_upload),
            github_download: github_download.saturating_sub(self.last_github_download),
            target_upload: target_upload.saturating_sub(self.last_target_upload),
            target_download: target_download.saturating_sub(self.last_target_download),
        };
        self.last_total_upload = total_upload;
        self.last_total_download = total_download;
        self.last_github_upload = github_upload;
        self.last_github_download = github_download;
        self.last_target_upload = target_upload;
        self.last_target_download = target_download;
        push_then_trim(&mut self.traffic_history, point, self.max_history_points);
        let ghost configs = self.process_filter.configs();
        let list = self.process_filter.get_target_processes_traffic(processes);
        let ghost before = self.process_traffic_history@;
        let ghost lv = traffic_views(list@);
        push_then_trim(&mut self.process_traffic_history, list, self.max_history_points);
        proof {
            assert(list_views(self.process_traffic_history@) =~= spec_push_then_trim(
                list_views(before),
                lv,
                self.max_history_points as nat,
            ));
        }
        true
    }

    /// Records a sample now; see [`GitHubTrafficMonitor::record_traffic_point_at`].
    pub fn record_traffic_point(
        &mut self,
        interfaces: &Vec<InterfaceTraffic>,
        processes: &Vec<ProcessSnapshot>,
    ) -> (recorded: bool)
        requires
            old(self).wf(),
        ensures
            final(self).wf(),
            final(self).capacity() == old(self).capacity(),
            final(self).github_ips() == old(self).github_ips(),
            final(self).target_configs() == old(self).target_configs(),
            recorded ==> exists|ts: u64| final(self).history() == spec_push_then_trim(
                old(self).history(),
                spec_delta_point(
                    ts,
                    spec_counters(
                        seq_sum(transmitted(interfaces@)),
                        seq_sum(received(interfaces@)),
                        seq_sum(traffic_uploads(spec_target_traffic(old(self).target_configs(), processes@))),
                        seq_sum(traffic_downloads(spec_target_traffic(old(self).target_configs(), processes@))),
                    ),
                    old(self).last_counters(),
                ),
                old(self).capacity(),
            ),
            recorded ==> final(self).last_counters() == spec_counters(
                seq_sum(transmitted(interfaces@)),
                seq_sum(received(interfaces@)),
                seq_sum(traffic_uploads(spec_target_traffic(old(self).target_configs(), processes@))),
                seq_sum(traffic_downloads(spec_target_traffic(old(self).target_configs(), processes@))),
            ),
            recorded ==> final(self).process_history() == spec_push_then_trim(
                old(self).process_history(),
                spec_target_traffic(old(self).target_configs(), processes@),
                old(self).capacity(),
            ),
            !recorded ==> {
                &&& final(self).history() == old(self).history()
                &&& final(self).process_history() == old(self).process_history()
                &&& final(self).last_counters() == old(self).last_counters()
                &&& {
                    ||| seq_sum(transmitted(interfaces@)) > u64::MAX
                    ||| seq_sum(received(interfaces@)) > u64::MAX
                    ||| seq_sum(traffic_uploads(spec_target_traffic(old(self).target_configs(), processes@))) > u64::MAX
                    ||| seq_sum(traffic_downloads(spec_target_traffic(old(self).target_configs(), processes@))) > u64::MAX
                }
            },
    {
        let ts = unix_time_secs();
        self.record_traffic_point_at(interfaces, processes, ts)
    }

    /// Whether an interface carries GitHub traffic: every interface does.
    pub fn is_github_interface(&self, interface_name: &str) -> (r: bool)
        ensures
            r,
    {
        true
    }

    /// The last `max_points` samples, oldest first.
    pub fn get_traffic_history(&self, max_points: usize) -> (r: Vec<TrafficDataPoint>)
        ensures
            r@ == spec_take_last(self.history(), max_points as nat),
    {
        take_last(&self.traffic_history, max_points)
    }

    /// GitHub upload and download summed over the kept samples.
    pub fn get_github_traffic_stats(&self) -> (r: (u64, u64))
        requires
            seq_sum(github_uploads(self.history())) <= u64::MAX,
            seq_sum(github_downloads(self.history())) <= u64::MAX,
        ensures
            r == (
                seq_sum(github_uploads(self.history())) as u64,
                seq_sum(github_downloads(self.history())) as u64,
            ),
    {
        let (u, d) = self.column_sums(true);
        (u, d)
    }

    /// Target-process upload and download summed over the kept samples.
    pub fn get_target_traffic_stats(&self) -> (r: (u64, u64))
        requires
            seq_sum(target_uploads(self.history())) <= u64::MAX,
            seq_sum(target_downloads(self.history())) <= u64::MAX,
        ensures
            r == (
                seq_sum(target_uploads(self.history())) as u64,
                seq_sum(target_downloads(self.history())) as u64,
            ),
    {
        let (u, d) = self.column_sums(false);
        (u, d)
    }

    /// Sums of the GitHub columns (or of the target-process columns) of the history.
    fn column_sums(&self, github: bool) -> (r: (u64, u64))
        requires
            github ==> seq_sum(github_uploads(self.history())) <= u64::MAX,
            github ==> seq_sum(github_downloads(self.history())) <= u64::MAX,
            !github ==> seq_sum(target_uploads(self.history())) <= u64::MAX,
            !github ==> seq_sum(target_downloads(self.history())) <= u64::MAX,
        ensures
            github ==> r == (
                seq_sum(github_uploads(self.history())) as u64,
                seq_sum(github_downloads(self.history())) as u64,
            ),
            !github ==> r == (
                seq_sum(target_uploads(self.history())) as u64,
                seq_sum(target_downloads(self.history())) as u64,
            ),
    {
        let mut ups: Vec<u64> = Vec::new();
        let mut downs: Vec<u64> = Vec::new();
        let mut i: usize = 0;
        while i < self.traffic_history.len()
            invariant
                i <= self.traffic_history.len(),
                ups@.len() == i,
                downs@.len() == i,
                forall|j: int|
                    0 <= j < i ==> #[trigger] ups@[j] == (if github {
                        self.traffic_history@[j].github_upload
                    } else {
                        self.traffic_history@[j].target_upload
                    }),
                forall|j: int|
                    0 <= j < i ==> #[trigger] downs@[j] == (if github {
                        self.traffic_history@[j].github_download
                    } else {
                        self.traffic_history@[j].target_download
                    }),
            decreases self.traffic_history.len() - i,
        {
            let p = self.traffic_history[i];
            if github {
                ups.push(p.github_upload);
                downs.push(p.github_download);
            } else {
                ups.push(p.target_upload);
                downs.push(p.target_download);
            }
            i = i + 1;
        }
        proof {
            if github {
                assert(ups@.map_values(|x: u64| x as int) =~= github_uploads(self.history()));
                assert(downs@.map_values(|x: u64| x as int) =~= github_downloads(self.history()));
            } else {
                assert(ups@.map_values(|x: u64| x as int) =~= target_uploads(self.history()));
                assert(downs@.map_values(|x: u64| x as int) =~= target_downloads(self.history()));
            }
        }
        let u = match checked_sum(&ups) {
            Some(u) => u,
            None => 0,
        };
        let d = match checked_sum(&downs) {
            Some(d) => d,
            None => 0,
        };
        (u, d)
    }

    /// The last `max_points` target-process lists, oldest first.
    pub fn get_process_traffic_history(&self, max_points: usize) -> (r: Vec<Vec<ProcessTraffic>>)
        ensures
            list_views(r@) == spec_take_last(self.process_history(), max_points as nat),
    {
        let h = &self.process_traffic_history;
        let start: usize = if h.len() > max_points {
            h.len() - max_points
        } else {
            0
        };
        let mut r: Vec<Vec<ProcessTraffic>> = Vec::new();
        let mut i = start;
        while i < h.len()
            invariant
                start <= i <= h.len(),
                start == crate::history::tail_start(h@.len(), max_points as nat),
                r@.len() == i - start,
                list_views(r@) =~= list_views(h@).subrange(start as int, i as int),
            decreases h.len() - i,
        {
            let l = copy_traffic_list(&h[i]);
            let ghost before = r@;
            r.push(l);
            assert forall|j: int| 0 <= j < before.len() implies list_views(r@)[j] == list_views(
                before,
            )[j] by {
                assert(r@[j] == before[j]);
            }
            assert(list_views(r@) =~= list_views(h@).subrange(start as int, i + 1));
            i = i + 1;
        }
        r
    }

    /// The target-process traffic of the latest list, summed per group (empty when
    /// nothing was recorded yet).
    pub fn get_process_traffic_by_type(&self) -> (r: Vec<TypeTraffic>)
        requires
            self.process_history().len() > 0 ==> group_fits(self.process_history().last()),
        ensures
            self.process_history().len() == 0 ==> r@.len() == 0,
            self.process_history().len() > 0 ==> type_sums(r@) == spec_group(
                self.process_history().last(),
            ),
    {
        let n = self.process_traffic_history.len();
        if n == 0 {
            Vec::new()
        } else {
            group_by_type(&self.process_traffic_history[n - 1])
        }
    }

    /// The latest target-process list (empty when nothing was recorded yet).
    pub fn get_active_target_processes(&self) -> (r: Vec<ProcessTraffic>)
        ensures
            self.process_history().len() == 0 ==> r@.len() == 0,
            self.process_history().len() > 0 ==> traffic_views(r@) == self.process_history().last(),
    {
        let n = self.process_traffic_history.len();
        if n == 0 {
            Vec::new()
        } else {
            copy_traffic_list(&self.process_traffic_history[n - 1])
        }
    }

    /// The tracker of GitHub addresses.
    pub fn get_github_tracker(&self) -> (r: &GitHubIPTracker)
        ensures
            r.ip_set() == self.github_ips(),
    {
        &self.github_tracker
    }

    /// Records `ip` as a GitHub address.
    pub fn register_github_ip(&mut self, ip: String)
        requires
            old(self).wf(),
        ensures
            final(self).wf(),
            final(self).github_ips() == old(self).github_ips().insert(ip@),
            final(self).history() == old(self).history(),
            final(self).process_history() == old(self).process_history(),
            final(self).capacity() == old(self).capacity(),
            final(self).last_counters() == old(self).last_counters(),
            final(self).target_configs() == old(self).target_configs(),
    {
        self.github_tracker.add_github_ip(ip);
    }
}

/// The growth of a cumulative counter between consecutive readings, the first
/// reading being compared with zero.
pub open spec fn spec_deltas(readings: Seq<u64>) -> Seq<int>
    decreases readings.len(),
{
    if readings.len() == 0 {
        Seq::empty()
    } else {
        let prev = if readings.len() >= 2 {
            readings[readings.len() - 2]
        } else {
            0u64
        };
        spec_deltas(readings.drop_last()).push(readings.last().saturating_sub(prev) as int)
    }
}

/// While a counter only grows, the deltas recorded from it add up to its latest
/// reading: no traffic is lost or counted twice between samples.
pub proof fn law_deltas_add_up(readings: Seq<u64>)
    requires
        forall|i: int, j: int| 0 <= i <= j < readings.len() ==> readings[i] <= readings[j],
    ensures
        readings.len() > 0 ==> seq_sum(spec_deltas(readings)) == readings.last(),
    decreases readings.len(),
{
    if readings.len() > 1 {
        law_deltas_add_up(readings.drop_last());
        assert(readings.drop_last().last() == readings[readings.len() - 2]);
        crate::history::lemma_sum_push(
            spec_deltas(readings.drop_last()),
            readings.last().saturating_sub(readings[readings.len() - 2]) as int,
        );
    } else if readings.len() == 1 {
        assert(spec_deltas(readings.drop_last()) =~= Seq::<int>::empty());
        crate::history::lemma_sum_push(Seq::<int>::empty(), readings.last() as int);
    }
}

/// Each recorded sample holds the growth of every counter since the
/// previous sample: added to the previous reading it gives the new reading
/// while the counter grows, and it is zero when the counter went down.
pub proof fn law_sample_is_growth(ts: u64, c: TrafficCounters, last: TrafficCounters)
    ensures
        spec_delta_point(ts, c, last).timestamp == ts,
        last.0 <= c.0 ==> spec_delta_point(ts, c, last).total_upload + last.0 == c.0,
        last.1 <= c.1 ==> spec_delta_point(ts, c, last).total_download + last.1 == c.1,
        last.2 <= c.2 ==> spec_delta_point(ts, c, last).github_upload + last.2 == c.2,
        last.3 <= c.3 ==> spec_delta_point(ts, c, last).github_download + last.3 == c.3,
        last.4 <= c.4 ==> spec_delta_point(ts, c, last).target_upload + last.4 == c.4,
        last.5 <= c.5 ==> spec_delta_point(ts, c, last).target_download + last.5 == c.5,
        c.0 < last.0 ==> spec_delta_point(ts, c, last).total_upload == 0,
        c.1 < last.1 ==> spec_delta_point(ts, c, last).total_download == 0,
        c.2 < last.2 ==> spec_delta_point(ts, c, last).github_upload == 0,
        c.3 < last.3 ==> spec_delta_point(ts, c, last).github_download == 0,
        c.4 < last.4 ==> spec_delta_point(ts, c, last).target_upload == 0,
        c.5 < last.5 ==> spec_delta_point(ts, c, last).target_download == 0,
{
}

/// `after` is `before` after `record_traffic_point_at` recorded counters `c`
/// at `ts`: the sample of their growth is appended (the oldest dropped
/// beyond the capacity) and `c` is remembered.
pub open spec fn monitor_step(before: GitHubTrafficMonitor, after: GitHubTrafficMonitor, ts: u64, c: TrafficCounters) -> bool {
    &&& after.history() == spec_push_then_trim(before.history(), spec_delta_point(ts, c, before.last_counters()), before.capacity())
    &&& after.last_counters() == c
    &&& after.capacity() == before.capacity()
}

proof fn lemma_target_sums_after_steps(
    states: Seq<GitHubTrafficMonitor>,
    stamps: Seq<u64>,
    counters: Seq<TrafficCounters>,
    n: int,
)
    requires
        states.len() == counters.len() + 1,
        stamps.len() == counters.len(),
        0 <= n <= counters.len(),
        states[0].history() == Seq::<TrafficDataPoint>::empty(),
        states[0].last_counters().4 == 0,
        states[0].last_counters().5 == 0,
        counters.len() <= states[0].capacity(),
        forall|k: int| 0 <= k < counters.len() ==> monitor_step(states[k], states[k + 1], stamps[k], #[trigger] counters[k]),
        forall|i: int, j: int| 0 <= i <= j < counters.len() ==> #[trigger] counters[i].4 <= #[trigger] counters[j].4
            && counters[i].5 <= counters[j].5,
    ensures
        states[n].capacity() == states[0].capacity(),
        states[n].history().len() == n,
        n > 0 ==> states[n].last_counters() == counters[n - 1],
        seq_sum(target_uploads(states[n].history())) == states[n].last_counters().4,
        seq_sum(target_downloads(states[n].history())) == states[n].last_counters().5,
    decreases n,
{
    if n > 0 {
        lemma_target_sums_after_steps(states, stamps, counters, n - 1);
        let a = states[n - 1];
        let b = states[n];
        let c = counters[n - 1];
        assert(monitor_step(a, b, stamps[n - 1], c));
        if n > 1 {
            assert(counters[n - 2].4 <= counters[n - 1].4 && counters[n - 2].5 <= counters[n - 1].5);
        }
        let p = spec_delta_point(stamps[n - 1], c, a.last_counters());
        assert(b.history() =~= a.history().push(p));
        assert(target_uploads(b.history()) =~= target_uploads(a.history()).push(p.target_upload as int));
        assert(target_downloads(b.history()) =~= target_downloads(a.history()).push(p.target_download as int));
        crate::history::lemma_sum_push(target_uploads(a.history()), p.target_upload as int);
        crate::history::lemma_sum_push(target_downloads(a.history()), p.target_download as int);
    } else {
        assert(target_uploads(states[0].history()) =~= Seq::<int>::empty());
        assert(target_downloads(states[0].history()) =~= Seq::<int>::empty());
    }
}

/// While the target-process counters only grow, the target columns of the
/// history add up to the latest target totals: starting from a monitor with
/// no sample and zero target counters, after recording `counters[k]` at
/// `stamps[k]` in turn (no more than the capacity), the summed target upload
/// and download of the kept samples are the last recorded target totals.
pub proof fn law_target_samples_add_up(
    states: Seq<GitHubTrafficMonitor>,
    stamps: Seq<u64>,
    counters: Seq<TrafficCounters>,
)
    requires
        states.len() == counters.len() + 1,
        stamps.len() == counters.len(),
        counters.len() > 0,
        states[0].history() == Seq::<TrafficDataPoint>::empty(),
        states[0].last_counters().4 == 0,
        states[0].last_counters().5 == 0,
        counters.len() <= states[0].capacity(),
        forall|k: int| 0 <= k < counters.len() ==> monitor_step(states[k], states[k + 1], stamps[k], #[trigger] counters[k]),
        forall|i: int, j: int| 0 <= i <= j < counters.len() ==> #[trigger] counters[i].4 <= #[trigger] counters[j].4
            && counters[i].5 <= counters[j].5,
    ensures
        seq_sum(target_uploads(states.last().history())) == counters.last().4,
        seq_sum(target_downloads(states.last().history())) == counters.last().5,
{
    lemma_target_sums_after_steps(states, stamps, counters, counters.len() as int);
}

} // verus!
