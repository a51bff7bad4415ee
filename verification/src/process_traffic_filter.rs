//! Traffic estimated per kind of process (browsers, Git, development tools,
//! everything else): classifying a process by its name, summing estimates per
//! kind, and a bounded history of per-interval deltas. The estimates
//! themselves (derived from CPU usage) are the caller's.

use vstd::prelude::*;
use crate::text::{spec_contains, contains, spec_to_lowercase, to_lowercase};
use crate::history::{
    seq_sum, spec_push_then_trim, push_then_trim, spec_take_last, take_last, checked_sum,
};
use crate::clock::unix_time_secs;

verus! {

// ---------------------------------------------------------------------------
// Kinds of process
// ---------------------------------------------------------------------------

/// The kinds of process traffic is counted by.
#[derive(Clone, Copy, Debug, PartialEq, Eq, Structural)]
pub enum ProcessClass {
    Browser,
    Git,
    DevTools,
    Other,
}

/// Name fragments of browsers.
pub open spec fn spec_browser_words() -> Seq<Seq<char>> {
    seq!["chrome"@, "firefox"@, "edge"@, "opera"@, "safari"@, "brave"@]
}

/// Name fragments of Git.
pub open spec fn spec_git_words() -> Seq<Seq<char>> {
    seq!["git"@, "git-bash"@, "git-cmd"@]
}

/// Name fragments of development tools, Node.js tools included.
pub open spec fn spec_dev_tool_words() -> Seq<Seq<char>> {
    seq![
        "vscode"@,
        "code"@,
        "visual studio"@,
        "intellij"@,
        "pycharm"@,
        "webstorm"@,
        "node"@,
        "npm"@,
        "yarn"@,
    ]
}

/// `text` contains one of `words`.
pub open spec fn contains_any(text: Seq<char>, words: Seq<Seq<char>>) -> bool {
    exists|i: int| 0 <= i < words.len() && spec_contains(text, #[trigger] words[i])
}

/// The kind of a process, by its lower-cased name: browsers first, then Git,
/// then development tools, everything else last.
pub open spec fn spec_classify_process(name: Seq<char>) -> ProcessClass {
    let l = spec_to_lowercase(name);
    if contains_any(l, spec_browser_words()) {
        ProcessClass::Browser
    } else if contains_any(l, spec_git_words()) {
        ProcessClass::Git
    } else if contains_any(l, spec_dev_tool_words()) {
        ProcessClass::DevTools
    } else {
        ProcessClass::Other
    }
}

fn contains_any_of(text: &str, words: &Vec<&str>) -> (r: bool)
    ensures
        r == contains_any(text@, words@.map_values(|w: &str| w@)),
{
    let ghost wv = words@.map_values(|w: &str| w@);
    let mut i: usize = 0;
    while i < words.len()
        invariant
            i <= words.len(),
            wv == words@.map_values(|w: &str| w@),
            forall|j: int| 0 <= j < i ==> !spec_contains(text@, #[trigger] wv[j]),
        decreases words.len() - i,
    {
        if contains(text, words[i]) {
            assert(spec_contains(text@, wv[i as int]));
            return true;
        }
        i = i + 1;
    }
    false
}

/// Classifies a process by its name.
pub fn classify_process(process_name: &str) -> (r: ProcessClass)
    ensures
        r == spec_classify_process(process_name@),
{
    let l = to_lowercase(process_name);
    let browsers = vec!["chrome", "firefox", "edge", "opera", "safari", "brave"];
    assert(browsers@.map_values(|w: &str| w@) =~= spec_browser_words());
    if contains_any_of(l.as_str(), &browsers) {
        return ProcessClass::Browser;
    }
    let git = vec!["git", "git-bash", "git-cmd"];
    assert(git@.map_values(|w: &str| w@) =~= spec_git_words());
    if contains_any_of(l.as_str(), &git) {
        return ProcessClass::Git;
    }
    let dev = vec!["vscode", "code", "visual studio", "intellij", "pycharm", "webstorm", "node", "npm", "yarn"];
    assert(dev@.map_values(|w: &str| w@) =~= spec_dev_tool_words());
    if contains_any_of(l.as_str(), &dev) {
        return ProcessClass::DevTools;
    }
    ProcessClass::Other
}

/// A process is a browser when its lower-cased name contains one of the
/// browser names; otherwise Git when it contains one of the Git names;
/// otherwise a development tool when it contains one of those names; and
/// of the other kind only when it contains none of them.
pub proof fn law_process_kind_by_name(name: Seq<char>)
    ensures
        spec_classify_process(name) == ProcessClass::Browser <==> contains_any(
            spec_to_lowercase(name),
            seq!["chrome"@, "firefox"@, "edge"@, "opera"@, "safari"@, "brave"@],
        ),
        spec_classify_process(name) == ProcessClass::Git <==> (!contains_any(
            spec_to_lowercase(name),
            seq!["chrome"@, "firefox"@, "edge"@, "opera"@, "safari"@, "brave"@],
        ) && contains_any(spec_to_lowercase(name), seq!["git"@, "git-bash"@, "git-cmd"@])),
        spec_classify_process(name) == ProcessClass::Other <==> !contains_any(
            spec_to_lowercase(name),
            seq![
                "chrome"@, "firefox"@, "edge"@, "opera"@, "safari"@, "brave"@, "git"@, "git-bash"@,
                "git-cmd"@, "vscode"@, "code"@, "visual studio"@, "intellij"@, "pycharm"@, "webstorm"@,
                "node"@, "npm"@, "yarn"@,
            ],
        ),
{
    let l = spec_to_lowercase(name);
    let b = seq!["chrome"@, "firefox"@, "edge"@, "opera"@, "safari"@, "brave"@];
    let g = seq!["git"@, "git-bash"@, "git-cmd"@];
    let d = seq![
        "vscode"@, "code"@, "visual studio"@, "intellij"@, "pycharm"@, "webstorm"@, "node"@, "npm"@, "yarn"@,
    ];
    let all = seq![
        "chrome"@, "firefox"@, "edge"@, "opera"@, "safari"@, "brave"@, "git"@, "git-bash"@, "git-cmd"@,
        "vscode"@, "code"@, "visual studio"@, "intellij"@, "pycharm"@, "webstorm"@, "node"@, "npm"@, "yarn"@,
    ];
    assert(b =~= spec_browser_words());
    assert(g =~= spec_git_words());
    assert(d =~= spec_dev_tool_words());
    assert(all =~= b + g + d);
    if contains_any(l, all) {
        let i = choose|i: int| 0 <= i < all.len() && spec_contains(l, #[trigger] all[i]);
        if i < 6 {
            assert(b[i] == all[i]);
        } else if i < 9 {
            assert(g[i - 6] == all[i]);
        } else {
            assert(d[i - 9] == all[i]);
        }
    }
    if contains_any(l, b) {
        let i = choose|i: int| 0 <= i < b.len() && spec_contains(l, #[trigger] b[i]);
        assert(all[i] == b[i]);
    }
    if contains_any(l, g) {
        let i = choose|i: int| 0 <= i < g.len() && spec_contains(l, #[trigger] g[i]);
        assert(all[i + 6] == g[i]);
    }
    if contains_any(l, d) {
        let i = choose|i: int| 0 <= i < d.len() && spec_contains(l, #[trigger] d[i]);
        assert(all[i + 9] == d[i]);
    }
}

/// The label of a kind in traffic summaries.
pub open spec fn spec_class_label(c: ProcessClass) -> Seq<char> {
    match c {
        ProcessClass::Browser => "browser"@,
        ProcessClass::Git => "git"@,
        ProcessClass::DevTools => "dev_tools"@,
        ProcessClass::Other => "other"@,
    }
}

/// The label of a kind in traffic summaries.
pub fn class_label(c: ProcessClass) -> (r: &'static str)
    ensures
        r@ == spec_class_label(c),
{
    match c {
        ProcessClass::Browser => "browser",
        ProcessClass::Git => "git",
        ProcessClass::DevTools => "dev_tools",
        ProcessClass::Other => "other",
    }
}

// ---------------------------------------------------------------------------
// Summing estimates per kind
// ---------------------------------------------------------------------------

/// One process's estimated traffic.
pub struct ProcessEstimate {
    pub name: String,
    pub upload: u64,
    pub download: u64,
}

/// Estimated bytes per kind, upload and download.
#[derive(Clone, Copy, Debug, PartialEq, Eq, Structural)]
pub struct ClassTotals {
    pub browser_upload: u64,
    pub browser_download: u64,
    pub git_upload: u64,
    pub git_download: u64,
    pub dev_tools_upload: u64,
    pub dev_tools_download: u64,
    pub other_upload: u64,
    pub other_download: u64,
}

/// The estimates of the processes of kind `c`, upload (or download) side.
pub open spec fn class_amounts(s: Seq<ProcessEstimate>, c: ProcessClass, upload: bool) -> Seq<int> {
    s.map_values(|e: ProcessEstimate| if spec_classify_process(e.name@) == c {
        if upload { e.upload as int } else { e.download as int }
    } else {
        0int
    })
}

/// The sum over kind `c` of the estimates, upload (or download) side.
pub open spec fn class_sum(s: Seq<ProcessEstimate>, c: ProcessClass, upload: bool) -> int {
    seq_sum(class_amounts(s, c, upload))
}

/// Every per-kind sum fits in 64 bits.
pub open spec fn class_sums_fit(s: Seq<ProcessEstimate>) -> bool {
    forall|c: ProcessClass, up: bool| #[trigger] class_sum(s, c, up) <= u64::MAX
}

/// The per-kind sums of the estimates.
pub open spec fn spec_totals_by_class(s: Seq<ProcessEstimate>) -> ClassTotals {
    ClassTotals {
        browser_upload: class_sum(s, ProcessClass::Browser, true) as u64,
        browser_download: class_sum(s, ProcessClass::Browser, false) as u64,
        git_upload: class_sum(s, ProcessClass::Git, true) as u64,
        git_download: class_sum(s, ProcessClass::Git, false) as u64,
        dev_tools_upload: class_sum(s, ProcessClass::DevTools, true) as u64,
        dev_tools_download: class_sum(s, ProcessClass::DevTools, false) as u64,
        other_upload: class_sum(s, ProcessClass::Other, true) as u64,
        other_download: class_sum(s, ProcessClass::Other, false) as u64,
    }
}

fn class_column(estimates: &Vec<ProcessEstimate>, classes: &Vec<ProcessClass>, c: ProcessClass, upload: bool) -> (r: Vec<u64>)
    requires
        classes@.len() == estimates@.len(),
        forall|k: int| 0 <= k < classes@.len() ==> #[trigger] classes@[k] == spec_classify_process(estimates@[k].name@),
    ensures
        r@.map_values(|x: u64| x as int) == class_amounts(estimates@, c, upload),
{
    let mut r: Vec<u64> = Vec::new();
    let mut i: usize = 0;
    while i < estimates.len()
        invariant
            i <= estimates.len(),
            classes@.len() == estimates@.len(),
            forall|k: int| 0 <= k < classes@.len() ==> #[trigger] classes@[k] == spec_classify_process(estimates@[k].name@),
            r@.len() == i,
            forall|k: int| 0 <= k < i ==> #[trigger] r@[k] as int == class_amounts(estimates@, c, upload)[k],
        decreases estimates.len() - i,
    {
        let e = &estimates[i];
        let v: u64 = if classes[i] == c {
            if upload { e.upload } else { e.download }
        } else {
            0
        };
        r.push(v);
        i = i + 1;
    }
    assert(r@.map_values(|x: u64| x as int) =~= class_amounts(estimates@, c, upload));
    r
}

fn sum_fitting(v: &Vec<u64>) -> (r: u64)
    requires
        seq_sum(v@.map_values(|x: u64| x as int)) <= u64::MAX,
    ensures
        r == seq_sum(v@.map_values(|x: u64| x as int)),
{
    match checked_sum(v) {
        Some(t) => t,
        None => 0,
    }
}

// ---------------------------------------------------------------------------
// History of per-interval deltas
// ---------------------------------------------------------------------------

/// Estimated bytes per kind during one interval.
#[derive(Clone, Copy, Debug, PartialEq, Eq, Structural)]
pub struct ProcessTrafficPoint {
    pub timestamp: u64,
    pub browser_upload: u64,
    pub browser_download: u64,
    pub git_upload: u64,
    pub git_download: u64,
    pub dev_tools_upload: u64,
    pub dev_tools_download: u64,
    pub other_upload: u64,
    pub other_download: u64,
}

/// The point recorded at `ts` for totals `t` after the remembered totals
/// `last`: each field is the growth of its kind's total (zero if it shrank).
pub open spec fn spec_class_delta(ts: u64, t: ClassTotals, last: ClassTotals) -> ProcessTrafficPoint {
    ProcessTrafficPoint {
        timestamp: ts,
        browser_upload: t.browser_upload.saturating_sub(last.browser_upload),
        browser_download: t.browser_download.saturating_sub(last.browser_download),
        git_upload: t.git_upload.saturating_sub(last.git_upload),
        git_download: t.git_download.saturating_sub(last.git_download),
        dev_tools_upload: t.dev_tools_upload.saturating_sub(last.dev_tools_upload),
        dev_tools_download: t.dev_tools_download.saturating_sub(last.dev_tools_download),
        other_upload: t.other_upload.saturating_sub(last.other_upload),
        other_download: t.other_download.saturating_sub(last.other_download),
    }
}

/// Each recorded point holds, for every kind, the growth of its totals since
/// the remembered totals: added to the remembered total it gives the new
/// total while that grows, and it is zero when the total went down.
pub proof fn law_class_point_is_growth(ts: u64, t: ClassTotals, last: ClassTotals)
    ensures
        spec_class_delta(ts, t, last).timestamp == ts,
        last.browser_upload <= t.browser_upload ==> spec_class_delta(ts, t, last).browser_upload + last.browser_upload == t.browser_upload,
        last.browser_download <= t.browser_download ==> spec_class_delta(ts, t, last).browser_download + last.browser_download == t.browser_download,
        last.git_upload <= t.git_upload ==> spec_class_delta(ts, t, last).git_upload + last.git_upload == t.git_upload,
        last.git_download <= t.git_download ==> spec_class_delta(ts, t, last).git_download + last.git_download == t.git_download,
        last.dev_tools_upload <= t.dev_tools_upload ==> spec_class_delta(ts, t, last).dev_tools_upload + last.dev_tools_upload == t.dev_tools_upload,
        last.dev_tools_download <= t.dev_tools_download ==> spec_class_delta(ts, t, last).dev_tools_download + last.dev_tools_download == t.dev_tools_download,
        last.other_upload <= t.other_upload ==> spec_class_delta(ts, t, last).other_upload + last.other_upload == t.other_upload,
        last.other_download <= t.other_download ==> spec_class_delta(ts, t, last).other_download + last.other_download == t.other_download,
        t.browser_upload < last.browser_upload ==> spec_class_delta(ts, t, last).browser_upload == 0,
        t.browser_download < last.browser_download ==> spec_class_delta(ts, t, last).browser_download == 0,
        t.git_upload < last.git_upload ==> spec_class_delta(ts, t, last).git_upload == 0,
        t.git_download < last.git_download ==> spec_class_delta(ts, t, last).git_download == 0,
        t.dev_tools_upload < last.dev_tools_upload ==> spec_class_delta(ts, t, last).dev_tools_upload == 0,
        t.dev_tools_download < last.dev_tools_download ==> spec_class_delta(ts, t, last).dev_tools_download == 0,
        t.other_upload < last.other_upload ==> spec_class_delta(ts, t, last).other_upload == 0,
        t.other_download < last.other_download ==> spec_class_delta(ts, t, last).other_download == 0,
{
}

/// A bounded history of per-kind deltas.
pub struct ProcessTrafficFilter {
    traffic_history: Vec<ProcessTrafficPoint>,
    max_history_points: usize,
    last: ClassTotals,
}

/// A field of every point.
pub open spec fn point_column(h: Seq<ProcessTrafficPoint>, c: ProcessClass, upload: bool) -> Seq<int> {
    h.map_values(|p: ProcessTrafficPoint| match c {
        ProcessClass::Browser => if upload { p.browser_upload as int } else { p.browser_download as int },
        ProcessClass::Git => if upload { p.git_upload as int } else { p.git_download as int },
        ProcessClass::DevTools => if upload { p.dev_tools_upload as int } else { p.dev_tools_download as int },
        ProcessClass::Other => if upload { p.other_upload as int } else { p.other_download as int },
    })
}

/// One entry of a traffic summary: a kind and its summed upload and download.
#[derive(Clone, Copy, Debug, PartialEq, Eq, Structural)]
pub struct ClassSummary {
    pub class: ProcessClass,
    pub upload: u64,
    pub download: u64,
}

/// `e` holds the sums of its kind's fields over `h`.
pub open spec fn summary_holds(h: Seq<ProcessTrafficPoint>, e: ClassSummary) -> bool {
    &&& e.upload == seq_sum(point_column(h, e.class, true))
    &&& e.download == seq_sum(point_column(h, e.class, false))
}

impl ProcessTrafficFilter {
    /// The kept points, oldest first.
    pub closed spec fn history(&self) -> Seq<ProcessTrafficPoint> {
        self.traffic_history@
    }

    /// How many points are kept.
    pub closed spec fn capacity(&self) -> nat {
        self.max_history_points as nat
    }

    /// The remembered totals.
    pub closed spec fn last_totals(&self) -> ClassTotals {
        self.last
    }

    /// An empty history keeping `max_history_points` points, zero totals.
    pub fn new(max_history_points: usize) -> (r: Self)
        ensures
            r.history() == Seq::<ProcessTrafficPoint>::empty(),
            r.capacity() == max_history_points,
            r.last_totals() == (ClassTotals {
                browser_upload: 0,
                browser_download: 0,
                git_upload: 0,
                git_download: 0,
                dev_tools_upload: 0,
                dev_tools_download: 0,
                other_upload: 0,
                other_download: 0,
            }),
    {
        ProcessTrafficFilter {
            traffic_history: Vec::new(),
            max_history_points,
            last: ClassTotals {
                browser_upload: 0,
                browser_download: 0,
                git_upload: 0,
                git_download: 0,
                dev_tools_upload: 0,
                dev_tools_download: 0,
                other_upload: 0,
                other_download: 0,
            },
        }
    }

    /// Sums the estimates per kind.
    pub fn get_process_traffic(&self, estimates: &Vec<ProcessEstimate>) -> (r: ClassTotals)
        requires
            class_sums_fit(estimates@),
        ensures
            r == spec_totals_by_class(estimates@),
    {
        let mut classes: Vec<ProcessClass> = Vec::new();
        let mut i: usize = 0;
        while i < estimates.len()
            invariant
                i <= estimates.len(),
                classes@.len() == i,
                forall|k: int| 0 <= k < i ==> #[trigger] classes@[k] == spec_classify_process(estimates@[k].name@),
            decreases estimates.len() - i,
        {
            classes.push(classify_process(estimates[i].name.as_str()));
            i = i + 1;
        }
        proof {
            assert(class_sum(estimates@, ProcessClass::Browser, true) <= u64::MAX);
            assert(class_sum(estimates@, ProcessClass::Browser, false) <= u64::MAX);
            assert(class_sum(estimates@, ProcessClass::Git, true) <= u64::MAX);
            assert(class_sum(estimates@, ProcessClass::Git, false) <= u64::MAX);
            assert(class_sum(estimates@, ProcessClass::DevTools, true) <= u64::MAX);
            assert(class_sum(estimates@, ProcessClass::DevTools, false) <= u64::MAX);
            assert(class_sum(estimates@, ProcessClass::Other, true) <= u64::MAX);
            assert(class_sum(estimates@, ProcessClass::Other, false) <= u64::MAX);
        }
        ClassTotals {
            browser_upload: sum_fitting(&class_column(estimates, &classes, ProcessClass::Browser, true)),
            browser_download: sum_fitting(&class_column(estimates, &classes, ProcessClass::Browser, false)),
            git_upload: sum_fitting(&class_column(estimates, &classes, ProcessClass::Git, true)),
            git_download: sum_fitting(&class_column(estimates, &classes, ProcessClass::Git, false)),
            dev_tools_upload: sum_fitting(&class_column(estimates, &classes, ProcessClass::DevTools, true)),
            dev_tools_download: sum_fitting(&class_column(estimates, &classes, ProcessClass::DevTools, false)),
            other_upload: sum_fitting(&class_column(estimates, &classes, ProcessClass::Other, true)),
            other_download: sum_fitting(&class_column(estimates, &classes, ProcessClass::Other, false)),
        }
    }

    /// Records the point for totals `totals` at `timestamp` (each kind's
    /// growth since the remembered totals), dropping the oldest point beyond
    /// the capacity, and remembers all eight totals for the next call.
    pub fn record_traffic_point_at(&mut self, totals: ClassTotals, timestamp: u64)
        ensures
            final(self).capacity() == old(self).capacity(),
            final(self).history() == spec_push_then_trim(
                old(self).history(),
                spec_class_delta(timestamp, totals, old(self).last_totals()),
                old(self).capacity(),
            ),
            final(self).last_totals() == totals,
    {
        let l = self.last;
        let point = ProcessTrafficPoint {
            timestamp,
            browser_upload: totals.browser_upload.saturating_sub(l.browser_upload),
            browser_download: totals.browser_download.saturating_sub(l.browser_download),
            git_upload: totals.git_upload.saturating_sub(l.git_upload),
            git_download: totals.git_download.saturating_sub(l.git_download),
            dev_tools_upload: totals.dev_tools_upload.saturating_sub(l.dev_tools_upload),
            dev_tools_download: totals.dev_tools_download.saturating_sub(l.dev_tools_download),
            other_upload: totals.other_upload.saturating_sub(l.other_upload),
            other_download: totals.other_download.saturating_sub(l.other_download),
        };
        self.last = totals;
        push_then_trim(&mut self.traffic_history, point, self.max_history_points);
    }

    /// Sums the estimates per kind and records the point now.
    pub fn record_traffic_point(&mut self, estimates: &Vec<ProcessEstimate>)
        requires
            class_sums_fit(estimates@),
        ensures
            final(self).capacity() == old(self).capacity(),
            exists|ts: u64| final(self).history() == spec_push_then_trim(
                old(self).history(),
                spec_class_delta(ts, spec_totals_by_class(estimates@), old(self).last_totals()),
                old(self).capacity(),
            ),
            final(self).last_totals() == spec_totals_by_class(estimates@),
    {
        let totals = self.get_process_traffic(estimates);
        let ts = unix_time_secs();
        self.record_traffic_point_at(totals, ts);
    }

    /// The last `max_points` points, oldest first.
    pub fn get_traffic_history(&self, max_points: usize) -> (r: Vec<ProcessTrafficPoint>)
        ensures
            r@ == spec_take_last(self.history(), max_points as nat),
    {
        take_last(&self.traffic_history, max_points)
    }

    fn column_total(&self, c: ProcessClass, upload: bool) -> (r: u64)
        requires
            seq_sum(point_column(self.history(), c, upload)) <= u64::MAX,
        ensures
            r == seq_sum(point_column(self.history(), c, upload)),
    {
        let mut v: Vec<u64> = Vec::new();
        let mut i: usize = 0;
        while i < self.traffic_history.len()
            invariant
                i <= self.traffic_history.len(),
                v@.len() == i,
                forall|k: int| 0 <= k < i ==> #[trigger] v@[k] as int == point_column(self.history(), c, upload)[k],
            decreases self.traffic_history.len() - i,
        {
            let p = self.traffic_history[i];
            let x: u64 = match c {
                ProcessClass::Browser => if upload { p.browser_upload } else { p.browser_download },
                ProcessClass::Git => if upload { p.git_upload } else { p.git_download },
                ProcessClass::DevTools => if upload { p.dev_tools_upload } else { p.dev_tools_download },
                ProcessClass::Other => if upload { p.other_upload } else { p.other_download },
            };
            v.push(x);
            i = i + 1;
        }
        assert(v@.map_values(|x: u64| x as int) =~= point_column(self.history(), c, upload));
        sum_fitting(&v)
    }

    /// Upload and download per kind summed over the kept points, in the order
    /// browser, Git, development tools, other.
    pub fn get_traffic_summary(&self) -> (r: Vec<ClassSummary>)
        requires
            forall|c: ProcessClass, up: bool| #[trigger] seq_sum(point_column(self.history(), c, up)) <= u64::MAX,
        ensures
            r@.len() == 4,
            r@[0].class == ProcessClass::Browser,
            r@[1].class == ProcessClass::Git,
            r@[2].class == ProcessClass::DevTools,
            r@[3].class == ProcessClass::Other,
            forall|k: int| 0 <= k < 4 ==> summary_holds(self.history(), #[trigger] r@[k]),
    {
        let mut r: Vec<ClassSummary> = Vec::new();
        let classes = [ProcessClass::Browser, ProcessClass::Git, ProcessClass::DevTools, ProcessClass::Other];
        let mut i: usize = 0;
        while i < 4
            invariant
                i <= 4,
                classes@ == seq![ProcessClass::Browser, ProcessClass::Git, ProcessClass::DevTools, ProcessClass::Other],
                forall|c: ProcessClass, up: bool| #[trigger] seq_sum(point_column(self.history(), c, up)) <= u64::MAX,
                r@.len() == i,
                forall|k: int| 0 <= k < i ==> #[trigger] r@[k].class == classes@[k],
                forall|k: int| 0 <= k < i ==> summary_holds(self.history(), #[trigger] r@[k]),
            decreases 4 - i,
        {
            let c = classes[i];
            assert(seq_sum(point_column(self.history(), c, true)) <= u64::MAX);
            assert(seq_sum(point_column(self.history(), c, false)) <= u64::MAX);
            let up = self.column_total(c, true);
            let down = self.column_total(c, false);
            r.push(ClassSummary { class: c, upload: up, download: down });
            i = i + 1;
        }
        r
    }
}

} // verus!
