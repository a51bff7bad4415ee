//! A plain network monitor: per-interval deltas of the interfaces' cumulative
//! byte counters, kept in a bounded history.

use vstd::prelude::*;
use crate::history::{seq_sum, spec_push_then_trim, push_then_trim, spec_take_last, take_last, checked_sum};
use crate::github_traffic_monitor::{InterfaceTraffic, transmitted, received, sum_interfaces};
use crate::clock::unix_time_secs;

verus! {

/// Bytes sent and received during one interval.
#[derive(Clone, Copy, Debug, PartialEq, Eq, Structural)]
pub struct SimpleTrafficDataPoint {
    pub timestamp: u64,
    pub total_upload: u64,
    pub total_download: u64,
}

/// Uploads of each point.
pub open spec fn simple_uploads(h: Seq<SimpleTrafficDataPoint>) -> Seq<int> {
    h.map_values(|p: SimpleTrafficDataPoint| p.total_upload as int)
}

/// Downloads of each point.
pub open spec fn simple_downloads(h: Seq<SimpleTrafficDataPoint>) -> Seq<int> {
    h.map_values(|p: SimpleTrafficDataPoint| p.total_download as int)
}

/// The point recorded at `ts` for counters `(up, down)` after `(last_up, last_down)`.
pub open spec fn spec_simple_delta(ts: u64, up: u64, down: u64, last_up: u64, last_down: u64) -> SimpleTrafficDataPoint {
    SimpleTrafficDataPoint {
        timestamp: ts,
        total_upload: up.saturating_sub(last_up),
        total_download: down.saturating_sub(last_down),
    }
}

/// A bounded history of interface deltas.
pub struct SimpleNetworkMonitor {
    traffic_history: Vec<SimpleTrafficDataPoint>,
    max_history_points: usize,
    last_total_upload: u64,
    last_total_download: u64,
}

impl SimpleNetworkMonitor {
    /// The kept points, oldest first.
    pub closed spec fn history(&self) -> Seq<SimpleTrafficDataPoint> {
        self.traffic_history@
    }

    /// How many points are kept.
    pub closed spec fn capacity(&self) -> nat {
        self.max_history_points as nat
    }

    /// The counters of the last point.
    pub closed spec fn last_totals(&self) -> (u64, u64) {
        (self.last_total_upload, self.last_total_download)
    }

    /// An empty history keeping `max_history_points` points, zero counters.
    pub fn new(max_history_points: usize) -> (r: Self)
        ensures
            r.history() == Seq::<SimpleTrafficDataPoint>::empty(),
            r.capacity() == max_history_points,
            r.last_totals() == (0u64, 0u64),
    {
        SimpleNetworkMonitor {
            traffic_history: Vec::new(),
            max_history_points,
            last_total_upload: 0,
            last_total_download: 0,
        }
    }

    /// The interfaces' counters summed, none when a sum does not fit in 64 bits.
    pub fn get_current_traffic(&self, interfaces: &Vec<InterfaceTraffic>) -> (r: Option<(u64, u64)>)
        ensures
            match r {
                Some(t) => t.0 == seq_sum(transmitted(interfaces@)) && t.1 == seq_sum(received(interfaces@)),
                None => seq_sum(transmitted(interfaces@)) > u64::MAX || seq_sum(received(interfaces@)) > u64::MAX,
            },
    {
        sum_interfaces(interfaces)
    }

    /// Records a point at `timestamp` from the interfaces' counters: the
    /// growth of each summed counter since the last point (zero if it shrank),
    /// dropping the oldest point beyond the capacity. Answers `false`, changing
    /// nothing, when a sum does not fit in 64 bits.
    pub fn record_traffic_point_at(&mut self, interfaces: &Vec<InterfaceTraffic>, timestamp: u64) -> (recorded: bool)
        ensures
            final(self).capacity() == old(self).capacity(),
            recorded <==> (seq_sum(transmitted(interfaces@)) <= u64::MAX && seq_sum(received(interfaces@)) <= u64::MAX),
            recorded ==> {
                &&& final(self).history() == spec_push_then_trim(
                    old(self).history(),
                    spec_simple_delta(
                        timestamp,
                        seq_sum(transmitted(interfaces@)) as u64,
                        seq_sum(received(interfaces@)) as u64,
                        old(self).last_totals().0,
                        old(self).last_totals().1,
                    ),
                    old(self).capacity(),
                )
                &&& final(self).last_totals() == (
                    seq_sum(transmitted(interfaces@)) as u64,
                    seq_sum(received(interfaces@)) as u64,
                )
            },
            !recorded ==> *final(self) == *old(self),
    {
        let (up, down) = match sum_interfaces(interfaces) {
            Some(t) => t,
            None => {
                return false;
            },
        };
        let point = SimpleTrafficDataPoint {
            timestamp,
            total_upload: up.saturating_sub(self.last_total_upload),
            total_download: down.saturating_sub(self.last_total_download),
        };
        self.last_total_upload = up;
        self.last_total_download = down;
        push_then_trim(&mut self.traffic_history, point, self.max_history_points);
        true
    }

    /// Records a point now; see [`SimpleNetworkMonitor::record_traffic_point_at`].
    pub fn record_traffic_point(&mut self, interfaces: &Vec<InterfaceTraffic>) -> (recorded: bool)
        ensures
            final(self).capacity() == old(self).capacity(),
            recorded <==> (seq_sum(transmitted(interfaces@)) <= u64::MAX && seq_sum(received(interfaces@)) <= u64::MAX),
            recorded ==> exists|ts: u64| final(self).history() == spec_push_then_trim(
                old(self).history(),
                #[trigger] spec_simple_delta(
                    ts,
                    seq_sum(transmitted(interfaces@)) as u64,
                    seq_sum(received(interfaces@)) as u64,
                    old(self).last_totals().0,
                    old(self).last_totals().1,
                ),
                old(self).capacity(),
            ),
            !recorded ==> *final(self) == *old(self),
    {
        let ts = unix_time_secs();
        self.record_traffic_point_at(interfaces, ts)
    }

    /// The last `max_points` points, oldest first.
    pub fn get_traffic_history(&self, max_points: usize) -> (r: Vec<SimpleTrafficDataPoint>)
        ensures
            r@ == spec_take_last(self.history(), max_points as nat),
    {
        take_last(&self.traffic_history, max_points)
    }

    /// Upload and download summed over the kept points.
    pub fn get_traffic_summary(&self) -> (r: (u64, u64))
        requires
            seq_sum(simple_uploads(self.history())) <= u64::MAX,
            seq_sum(simple_downloads(self.history())) <= u64::MAX,
        ensures
            r.0 == seq_sum(simple_uploads(self.history())),
            r.1 == seq_sum(simple_downloads(self.history())),
    {
        let mut ups: Vec<u64> = Vec::new();
        let mut downs: Vec<u64> = Vec::new();
        let mut i: usize = 0;
        while i < self.traffic_history.len()
            invariant
                i <= self.traffic_history.len(),
                ups@.len() == i,
                downs@.len() == i,
                forall|j: int| 0 <= j < i ==> #[trigger] ups@[j] == self.traffic_history@[j].total_upload,
                forall|j: int| 0 <= j < i ==> #[trigger] downs@[j] == self.traffic_history@[j].total_download,
            decreases self.traffic_history.len() - i,
        {
            let p = self.traffic_history[i];
            ups.push(p.total_upload);
            downs.push(p.total_download);
            i = i + 1;
        }
        assert(ups@.map_values(|x: u64| x as int) =~= simple_uploads(self.history()));
        assert(downs@.map_values(|x: u64| x as int) =~= simple_downloads(self.history()));
        let u = match checked_sum(&ups) {
            Some(u) => u,
            None => 0,
        };
        let d = match checked_sum(&downs) {
            Some(d) => d,
            None => 0,
        };
        (u, d)
    }
}

/// Each sample holds the growth of the two counters since the previous
/// sample: added to the previous reading it gives the new one while the
/// counter grows, and it is zero when the counter went down.
pub proof fn law_simple_sample_is_growth(ts: u64, up: u64, down: u64, last_up: u64, last_down: u64)
    ensures
        spec_simple_delta(ts, up, down, last_up, last_down).timestamp == ts,
        last_up <= up ==> spec_simple_delta(ts, up, down, last_up, last_down).total_upload + last_up == up,
        last_down <= down ==> spec_simple_delta(ts, up, down, last_up, last_down).total_download + last_down == down,
        up < last_up ==> spec_simple_delta(ts, up, down, last_up, last_down).total_upload == 0,
        down < last_down ==> spec_simple_delta(ts, up, down, last_up, last_down).total_download == 0,
{
}

} // verus!
