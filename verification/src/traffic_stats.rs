//! DNS traffic accounting: per-domain byte and query counters, running totals
//! and a bounded series of recent samples.

use vstd::prelude::*;
use crate::clock::unix_time_secs;
use crate::history::{
    seq_sum, lemma_sum_push, lemma_sum_update, lemma_sum_bounds_element, spec_trim_then_push,
    trim_then_push, spec_take_last, take_last, spec_trim_then_push_all, law_trim_then_push_keeps_newest,
};
use crate::text::str_eq;

verus! {

/// Traffic counted for one domain.
#[derive(Debug)]
pub struct DomainTraffic {
    pub domain: String,
    pub upload_bytes: u64,
    pub download_bytes: u64,
    pub query_count: u64,
    /// Seconds since the Unix epoch of the last query.
    pub last_updated: u64,
}

/// The values of a [`DomainTraffic`].
pub struct DomainTrafficView {
    pub domain: Seq<char>,
    pub upload_bytes: u64,
    pub download_bytes: u64,
    pub query_count: u64,
    pub last_updated: u64,
}

impl View for DomainTraffic {
    type V = DomainTrafficView;

    open spec fn view(&self) -> DomainTrafficView {
        DomainTrafficView {
            domain: self.domain@,
            upload_bytes: self.upload_bytes,
            download_bytes: self.download_bytes,
            query_count: self.query_count,
            last_updated: self.last_updated,
        }
    }
}

impl DomainTraffic {
    /// A copy of this record.
    pub fn copy(&self) -> (r: DomainTraffic)
        ensures
            r@ == self@,
    {
        DomainTraffic {
            domain: self.domain.clone(),
            upload_bytes: self.upload_bytes,
            download_bytes: self.download_bytes,
            query_count: self.query_count,
            last_updated: self.last_updated,
        }
    }
}

/// One sample of DNS traffic.
#[derive(Debug, Clone, Copy, PartialEq, Eq)]
pub struct TrafficDataPoint {
    /// Seconds since the Unix epoch.
    pub timestamp: u64,
    pub upload_bytes: u64,
    pub download_bytes: u64,
    /// Queries counted so far, this one included.
    pub total_queries: u64,
}

/// The views of a list of domain records.
pub open spec fn domain_views(v: Seq<DomainTraffic>) -> Seq<DomainTrafficView> {
    v.map_values(|d: DomainTraffic| d@)
}

/// Uploaded bytes of each domain record.
pub open spec fn uploads(s: Seq<DomainTrafficView>) -> Seq<int> {
    s.map_values(|d: DomainTrafficView| d.upload_bytes as int)
}

/// Downloaded bytes of each domain record.
pub open spec fn downloads(s: Seq<DomainTrafficView>) -> Seq<int> {
    s.map_values(|d: DomainTrafficView| d.download_bytes as int)
}

/// Query counts of each domain record.
pub open spec fn query_counts(s: Seq<DomainTrafficView>) -> Seq<int> {
    s.map_values(|d: DomainTrafficView| d.query_count as int)
}

/// No two records are for the same domain.
pub open spec fn unique_domains(s: Seq<DomainTrafficView>) -> bool {
    forall|i: int, j: int| 0 <= i < j < s.len() ==> s[i].domain != s[j].domain
}

/// Some record is for `d`.
pub open spec fn has_domain(s: Seq<DomainTrafficView>, d: Seq<char>) -> bool {
    exists|k: int| 0 <= k < s.len() && s[k].domain == d
}

/// The records after one query for `d` of `q` bytes answered with `r` bytes at `ts`:
/// the record for `d` is updated, or a new record is appended.
pub open spec fn spec_record_domain(
    s: Seq<DomainTrafficView>,
    d: Seq<char>,
    q: u64,
    r: u64,
    ts: u64,
) -> Seq<DomainTrafficView> {
    if has_domain(s, d) {
        let k = choose|k: int| 0 <= k < s.len() && s[k].domain == d;
        s.update(
            k,
            DomainTrafficView {
                domain: d,
                upload_bytes: (s[k].upload_bytes + q) as u64,
                download_bytes: (s[k].download_bytes + r) as u64,
                query_count: (s[k].query_count + 1) as u64,
                last_updated: ts,
            },
        )
    } else {
        s.push(
            DomainTrafficView {
                domain: d,
                upload_bytes: q,
                download_bytes: r,
                query_count: 1,
                last_updated: ts,
            },
        )
    }
}

/// Recording one exchange for `d` touches only `d`'s record: when `d` has a
/// record, it gains the bytes and one query and takes the new time, and the
/// list keeps its length; otherwise a record for `d` holding just this
/// exchange is appended. Every record of another domain stays as it was.
pub proof fn law_record_touches_only_its_domain(s: Seq<DomainTrafficView>, d: Seq<char>, q: u64, r: u64, ts: u64)
    requires
        unique_domains(s),
    ensures
        forall|j: int| 0 <= j < s.len() && s[j].domain != d ==> #[trigger] spec_record_domain(s, d, q, r, ts)[j]
            == s[j],
        forall|j: int| 0 <= j < s.len() && s[j].domain == d ==> #[trigger] spec_record_domain(s, d, q, r, ts)[j]
            == (DomainTrafficView {
                domain: d,
                upload_bytes: (s[j].upload_bytes + q) as u64,
                download_bytes: (s[j].download_bytes + r) as u64,
                query_count: (s[j].query_count + 1) as u64,
                last_updated: ts,
            }),
        has_domain(s, d) ==> spec_record_domain(s, d, q, r, ts).len() == s.len(),
        !has_domain(s, d) ==> spec_record_domain(s, d, q, r, ts) == s.push(
            DomainTrafficView { domain: d, upload_bytes: q, download_bytes: r, query_count: 1, last_updated: ts },
        ),
{
    if has_domain(s, d) {
        let c = choose|k: int| 0 <= k < s.len() && s[k].domain == d;
        assert forall|j: int| 0 <= j < s.len() && s[j].domain == d implies j == c by {
            if j < c {
                assert(s[j].domain != s[c].domain);
            } else if j > c {
                assert(s[c].domain != s[j].domain);
            }
        }
    }
}

/// Position of the record for `domain`, if there is one.
fn find_domain(v: &Vec<DomainTraffic>, domain: &str) -> (r: Option<usize>)
    ensures
        match r {
            Some(k) => k < v@.len() && v@[k as int].domain@ == domain@,
            None => !has_domain(domain_views(v@), domain@),
        },
{
    let mut k: usize = 0;
    while k < v.len()
        invariant
            k <= v.len(),
            forall|j: int| 0 <= j < k ==> v@[j].domain@ != domain@,
        decreases v.len() - k,
    {
        if str_eq(v[k].domain.as_str(), domain) {
            return Some(k);
        }
        k = k + 1;
    }
    assert forall|j: int| 0 <= j < v@.len() implies domain_views(v@)[j].domain != domain@ by {}
    None
}

/// DNS traffic statistics.
pub struct TrafficStats {
    domains: Vec<DomainTraffic>,
    realtime_data: Vec<TrafficDataPoint>,
    max_data_points: usize,
    total_upload: u64,
    total_download: u64,
    total_queries: u64,
    start_time: u64,
}

impl TrafficStats {
    /// The per-domain records, in the order the domains were first seen.
    pub closed spec fn domain_records(&self) -> Seq<DomainTrafficView> {
        domain_views(self.domains@)
    }

    /// The recent samples, oldest first.
    pub closed spec fn samples(&self) -> Seq<TrafficDataPoint> {
        self.realtime_data@
    }

    /// How many recent samples are kept.
    pub closed spec fn capacity(&self) -> nat {
        self.max_data_points as nat
    }

    /// Total uploaded bytes, downloaded bytes and queries.
    pub closed spec fn totals(&self) -> (u64, u64, u64) {
        (self.total_upload, self.total_download, self.total_queries)
    }

    /// When the statistics were started, in seconds since the Unix epoch.
    pub closed spec fn started(&self) -> u64 {
        self.start_time
    }

    /// The totals are the sums over the domain records, no domain has two records,
    /// and no more samples are kept than the capacity allows.
    pub closed spec fn wf(&self) -> bool {
        let s = domain_views(self.domains@);
        &&& unique_domains(s)
        &&& seq_sum(uploads(s)) == self.total_upload
        &&& seq_sum(downloads(s)) == self.total_download
        &&& seq_sum(query_counts(s)) == self.total_queries
        &&& (self.max_data_points > 0 ==> self.realtime_data@.len() <= self.max_data_points)
    }

    /// Empty statistics keeping at most `max_data_points` samples, started now.
    pub fn new(max_data_points: usize) -> (r: Self)
        ensures
            r.wf(),
            r.domain_records() == Seq::<DomainTrafficView>::empty(),
            r.samples() == Seq::<TrafficDataPoint>::empty(),
            r.capacity() == max_data_points,
            r.totals() == (0u64, 0u64, 0u64),
    {
        Self::new_at(max_data_points, unix_time_secs())
    }

    /// Empty statistics keeping at most `max_data_points` samples, started at `start_time`.
    pub fn new_at(max_data_points: usize, start_time: u64) -> (r: Self)
        ensures
            r.wf(),
            r.domain_records() == Seq::<DomainTrafficView>::empty(),
            r.samples() == Seq::<TrafficDataPoint>::empty(),
            r.capacity() == max_data_points,
            r.totals() == (0u64, 0u64, 0u64),
            r.started() == start_time,
    {
        let r = TrafficStats {
            domains: Vec::new(),
            realtime_data: Vec::new(),
            max_data_points,
            total_upload: 0,
            total_download: 0,
            total_queries: 0,
            start_time,
        };
        assert(domain_views(r.domains@) =~= Seq::<DomainTrafficView>::empty());
        assert(uploads(domain_views(r.domains@)) =~= Seq::<int>::empty());
        assert(downloads(domain_views(r.domains@)) =~= Seq::<int>::empty());
        assert(query_counts(domain_views(r.domains@)) =~= Seq::<int>::empty());
        r
    }

    /// Records one DNS exchange for `domain` now: `query_size` bytes sent and
    /// `response_size` bytes received.
    pub fn record_dns_query(&mut self, domain: &str, query_size: usize, response_size: usize)
        requires
            old(self).wf(),
            old(self).capacity() > 0,
            old(self).totals().0 + query_size <= u64::MAX,
            old(self).totals().1 + response_size <= u64::MAX,
            old(self).totals().2 < u64::MAX,
        ensures
            final(self).wf(),
            exists|ts: u64| final(self).recorded_from(old(self), domain@, query_size, response_size, ts),
    {
        let ts = unix_time_secs();
        self.record_dns_query_at(domain, query_size, response_size, ts);
    }

    /// `self` is `old` after one exchange for `domain` recorded at `ts`.
    pub open spec fn recorded_from(
        &self,
        old: &TrafficStats,
        domain: Seq<char>,
        query_size: usize,
        response_size: usize,
        ts: u64,
    ) -> bool {
        &&& self.domain_records() == spec_record_domain(
            old.domain_records(),
            domain,
            query_size as u64,
            response_size as u64,
            ts,
        )
        &&& self.totals() == (
            (old.totals().0 + query_size) as u64,
            (old.totals().1 + response_size) as u64,
            (old.totals().2 + 1) as u64,
        )
        &&& self.samples() == spec_trim_then_push(
            old.samples(),
            TrafficDataPoint {
                timestamp: ts,
                upload_bytes: query_size as u64,
                download_bytes: response_size as u64,
                total_queries: (old.totals().2 + 1) as u64,
            },
            old.capacity(),
        )
        &&& self.capacity() == old.capacity()
        &&& self.started() == old.started()
    }

    /// Records one DNS exchange for `domain` at `timestamp`: the domain's record
    /// and the totals grow by the bytes and one query, and a sample is appended,
    /// the oldest being dropped when the series is full.
    pub fn record_dns_query_at(
        &mut self,
        domain: &str,
        query_size: usize,
        response_size: usize,
        timestamp: u64,
    )
        requires
            old(self).wf(),
            old(self).capacity() > 0,
            old(self).totals().0 + query_size <= u64::MAX,
            old(self).totals().1 + response_size <= u64::MAX,
            old(self).totals().2 < u64::MAX,
        ensures
            final(self).wf(),
            final(self).recorded_from(old(self), domain@, query_size, response_size, timestamp),
    {
        let q = query_size as u64;
        let r = response_size as u64;
        let ghost s0 = domain_views(self.domains@);
        let found_at = find_domain(&self.domains, domain);
        proof {
            assert forall|i: int| 0 <= i < s0.len() implies uploads(s0)[i] >= 0 by {}
            assert forall|i: int| 0 <= i < s0.len() implies downloads(s0)[i] >= 0 by {}
            assert forall|i: int| 0 <= i < s0.len() implies query_counts(s0)[i] >= 0 by {}
        }
        if let Some(k) = found_at {
            let ghost kk = k as int;
            proof {
                assert(s0[kk].domain == domain@);
                assert(has_domain(s0, domain@));
                let c = choose|c: int| 0 <= c < s0.len() && s0[c].domain == domain@;
                assert(c == kk);
                lemma_sum_bounds_element(uploads(s0), kk);
                lemma_sum_bounds_element(downloads(s0), kk);
                lemma_sum_bounds_element(query_counts(s0), kk);
            }
            let old_entry = &self.domains[k];
            let entry = DomainTraffic {
                domain: old_entry.domain.clone(),
                upload_bytes: old_entry.upload_bytes + q,
                download_bytes: old_entry.download_bytes + r,
                query_count: old_entry.query_count + 1,
                last_updated: timestamp,
            };
            self.domains.set(k, entry);
            proof {
                let s1 = domain_views(self.domains@);
                assert(s1 =~= spec_record_domain(s0, domain@, q, r, timestamp));
                assert(uploads(s1) =~= uploads(s0).update(kk, uploads(s1)[kk]));
                assert(downloads(s1) =~= downloads(s0).update(kk, downloads(s1)[kk]));
                assert(query_counts(s1) =~= query_counts(s0).update(kk, query_counts(s1)[kk]));
                lemma_sum_update(uploads(s0), kk, uploads(s1)[kk]);
                lemma_sum_update(downloads(s0), kk, downloads(s1)[kk]);
                lemma_sum_update(query_counts(s0), kk, query_counts(s1)[kk]);
                assert forall|i: int, j: int| 0 <= i < j < s1.len() implies s1[i].domain
                    != s1[j].domain by {
                    assert(s1[i].domain == s0[i].domain);
                    assert(s1[j].domain == s0[j].domain);
                }
            }
        } else {
            let entry = DomainTraffic {
                domain: String::from_str(domain),
                upload_bytes: q,
                download_bytes: r,
                query_count: 1,
                last_updated: timestamp,
            };
            self.domains.push(entry);
            proof {
                let s1 = domain_views(self.domains@);
                assert(!has_domain(s0, domain@));
                assert(s1 =~= spec_record_domain(s0, domain@, q, r, timestamp));
                assert(uploads(s1) =~= uploads(s0).push(q as int));
                assert(downloads(s1) =~= downloads(s0).push(r as int));
                assert(query_counts(s1) =~= query_counts(s0).push(1));
                lemma_sum_push(uploads(s0), q as int);
                lemma_sum_push(downloads(s0), r as int);
                lemma_sum_push(query_counts(s0), 1);
            }
        }
        self.total_upload = self.total_upload + q;
        self.total_download = self.total_download + r;
        self.total_queries = self.total_queries + 1;
        let point = TrafficDataPoint {
            timestamp,
            upload_bytes: q,
            download_bytes: r,
            total_queries: self.total_queries,
        };
        trim_then_push(&mut self.realtime_data, point, self.max_data_points);
    }

    /// Total uploaded bytes, downloaded bytes and number of queries.
    pub fn get_total_traffic(&self) -> (r: (u64, u64, u64))
        ensures
            r == self.totals(),
    {
        (self.total_upload, self.total_download, self.total_queries)
    }

    /// A copy of every domain record, in the order the domains were first seen.
    pub fn get_domain_traffic(&self) -> (r: Vec<DomainTraffic>)
        ensures
            domain_views(r@) == self.domain_records(),
    {
        let mut r: Vec<DomainTraffic> = Vec::new();
        let mut i: usize = 0;
        while i < self.domains.len()
            invariant
                i <= self.domains.len(),
                r@.len() == i,
                domain_views(r@) =~= domain_views(self.domains@).subrange(0, i as int),
            decreases self.domains.len() - i,
        {
            let c = self.domains[i].copy();
            let ghost before = r@;
            r.push(c);
            assert(r@ == before.push(c));
            assert(c@ == self.domains@[i as int]@);
            assert forall|j: int| 0 <= j < i implies domain_views(r@)[j] == domain_views(before)[j] by {
                assert(r@[j] == before[j]);
            }
            assert(domain_views(r@) =~= domain_views(self.domains@).subrange(0, i + 1));
            i = i + 1;
        }
        assert(domain_views(self.domains@).subrange(0, i as int) =~= domain_views(self.domains@));
        r
    }

    /// The last `max_points` samples, oldest first.
    pub fn get_realtime_data(&self, max_points: usize) -> (r: Vec<TrafficDataPoint>)
        ensures
            r@ == spec_take_last(self.samples(), max_points as nat),
    {
        take_last(&self.realtime_data, max_points)
    }

    /// When the statistics were started, in seconds since the Unix epoch.
    pub fn get_start_time(&self) -> (r: u64)
        ensures
            r == self.started(),
    {
        self.start_time
    }
}

/// The totals are always the sums of the per-domain counters: recording an
/// exchange adds its bytes and one query both to its domain and to the totals,
/// and keeps one record per domain.
pub proof fn law_totals_are_domain_sums(st: TrafficStats)
    requires
        st.wf(),
    ensures
        seq_sum(uploads(st.domain_records())) == st.totals().0,
        seq_sum(downloads(st.domain_records())) == st.totals().1,
        seq_sum(query_counts(st.domain_records())) == st.totals().2,
        unique_domains(st.domain_records()),
{
}

/// `after` is `before` with the sample `p` added as `record_dns_query` adds
/// it, the capacity unchanged.
pub open spec fn sample_step(before: TrafficStats, after: TrafficStats, p: TrafficDataPoint) -> bool {
    &&& after.samples() == spec_trim_then_push(before.samples(), p, before.capacity())
    &&& after.capacity() == before.capacity()
}

proof fn lemma_samples_after_steps(states: Seq<TrafficStats>, points: Seq<TrafficDataPoint>, n: int)
    requires
        states.len() == points.len() + 1,
        0 <= n <= points.len(),
        states[0].samples() == Seq::<TrafficDataPoint>::empty(),
        forall|k: int| 0 <= k < points.len() ==> sample_step(states[k], states[k + 1], #[trigger] points[k]),
    ensures
        states[n].capacity() == states[0].capacity(),
        states[n].samples() == spec_trim_then_push_all(
            Seq::<TrafficDataPoint>::empty(),
            points.subrange(0, n),
            states[0].capacity(),
        ),
    decreases n,
{
    if n > 0 {
        lemma_samples_after_steps(states, points, n - 1);
        assert(sample_step(states[n - 1], states[n], points[n - 1]));
        assert(points.subrange(0, n).drop_last() =~= points.subrange(0, n - 1));
        assert(points.subrange(0, n).last() == points[n - 1]);
    } else {
        assert(points.subrange(0, 0) =~= Seq::<TrafficDataPoint>::empty());
    }
}

/// Retention of the recent samples: when `states[0]` holds no sample and
/// keeps at least one, and each next state is the previous one after a
/// `record_dns_query` that recorded `points[k]` (its `recorded_from` gives
/// the sample added and the unchanged capacity), the last state holds
/// exactly the newest `min(k, capacity)` of the recorded points, oldest first.
pub proof fn law_realtime_keeps_newest(states: Seq<TrafficStats>, points: Seq<TrafficDataPoint>)
    requires
        states.len() == points.len() + 1,
        states[0].samples() == Seq::<TrafficDataPoint>::empty(),
        states[0].capacity() > 0,
        forall|k: int| 0 <= k < points.len() ==> sample_step(states[k], states[k + 1], #[trigger] points[k]),
    ensures
        states.last().samples() == spec_take_last(points, states[0].capacity()),
        states.last().samples().len() <= states[0].capacity(),
{
    let n = points.len() as int;
    lemma_samples_after_steps(states, points, n);
    assert(points.subrange(0, n) =~= points);
    law_trim_then_push_keeps_newest(points, states[0].capacity());
}

} // verus!
