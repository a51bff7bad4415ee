//! Recognising the processes whose traffic matters (browsers, Git, editors,
//! Node.js tools) and accounting their estimated traffic.

use vstd::prelude::*;
use vstd::hash_map::HashMapWithView;
use crate::config::{string_views, copy_strings};
use crate::history::{seq_sum, lemma_sum_prefix_bound};
use crate::text::{contains, spec_contains, spec_to_lowercase, to_lowercase, str_eq};

verus! {

broadcast use vstd::std_specs::hash::group_hash_axioms;

/// Which processes form one group of target processes.
#[derive(Debug)]
pub struct ProcessConfig {
    pub name_patterns: Vec<String>,
    pub executable_patterns: Vec<String>,
    pub description: String,
}

/// The values of a [`ProcessConfig`].
pub struct ProcessConfigView {
    pub name_patterns: Seq<Seq<char>>,
    pub executable_patterns: Seq<Seq<char>>,
    pub description: Seq<char>,
}

impl View for ProcessConfig {
    type V = ProcessConfigView;

    open spec fn view(&self) -> ProcessConfigView {
        ProcessConfigView {
            name_patterns: string_views(self.name_patterns@),
            executable_patterns: string_views(self.executable_patterns@),
            description: self.description@,
        }
    }
}

impl ProcessConfig {
    /// A copy of this configuration.
    pub fn copy(&self) -> (r: ProcessConfig)
        ensures
            r@ == self@,
    {
        ProcessConfig {
            name_patterns: copy_strings(&self.name_patterns),
            executable_patterns: copy_strings(&self.executable_patterns),
            description: self.description.clone(),
        }
    }
}

/// Estimated traffic of one target process.
#[derive(Debug)]
pub struct ProcessTraffic {
    pub pid: u32,
    pub name: String,
    pub upload_bytes: u64,
    pub download_bytes: u64,
    /// The description of the group the process belongs to.
    pub process_type: String,
}

/// The values of a [`ProcessTraffic`].
pub struct ProcessTrafficView {
    pub pid: u32,
    pub name: Seq<char>,
    pub upload_bytes: u64,
    pub download_bytes: u64,
    pub process_type: Seq<char>,
}

impl View for ProcessTraffic {
    type V = ProcessTrafficView;

    open spec fn view(&self) -> ProcessTrafficView {
        ProcessTrafficView {
            pid: self.pid,
            name: self.name@,
            upload_bytes: self.upload_bytes,
            download_bytes: self.download_bytes,
            process_type: self.process_type@,
        }
    }
}

impl ProcessTraffic {
    /// A copy of this record.
    pub fn copy(&self) -> (r: ProcessTraffic)
        ensures
            r@ == self@,
    {
        ProcessTraffic {
            pid: self.pid,
            name: self.name.clone(),
            upload_bytes: self.upload_bytes,
            download_bytes: self.download_bytes,
            process_type: self.process_type.clone(),
        }
    }
}

/// The views of a list of process traffic records.
pub open spec fn traffic_views(v: Seq<ProcessTraffic>) -> Seq<ProcessTrafficView> {
    v.map_values(|t: ProcessTraffic| t@)
}

/// Copies a list of process traffic records.
pub fn copy_traffic_list(v: &Vec<ProcessTraffic>) -> (r: Vec<ProcessTraffic>)
    ensures
        traffic_views(r@) == traffic_views(v@),
{
    let mut r: Vec<ProcessTraffic> = Vec::new();
    let mut i: usize = 0;
    while i < v.len()
        invariant
            i <= v.len(),
            r@.len() == i,
            traffic_views(r@) =~= traffic_views(v@).subrange(0, i as int),
        decreases v.len() - i,
    {
        let c = v[i].copy();
        let ghost before = r@;
        r.push(c);
        assert forall|j: int| 0 <= j < i implies traffic_views(r@)[j] == traffic_views(before)[j] by {
            assert(r@[j] == before[j]);
        }
        assert(traffic_views(r@) =~= traffic_views(v@).subrange(0, i + 1));
        i = i + 1;
    }
    assert(traffic_views(v@).subrange(0, i as int) =~= traffic_views(v@));
    r
}

/// What the system reports of one running process, with its estimated traffic.
#[derive(Debug)]
pub struct ProcessSnapshot {
    pub pid: u32,
    pub name: String,
    /// Path of the executable, when the system reports it.
    pub exe: Option<String>,
    pub upload_bytes: u64,
    pub download_bytes: u64,
}

/// Some pattern of `patterns`, lower-cased, occurs in `text`.
pub open spec fn any_pattern_in(text: Seq<char>, patterns: Seq<Seq<char>>) -> bool {
    exists|i: int| 0 <= i < patterns.len() && spec_contains(text, spec_to_lowercase(#[trigger] patterns[i]))
}

/// The process with lower-cased name `name_l` and lower-cased executable path
/// `exe_l` belongs to the group `c`.
pub open spec fn config_matches(c: ProcessConfigView, name_l: Seq<char>, exe_l: Seq<char>) -> bool {
    any_pattern_in(name_l, c.name_patterns) || any_pattern_in(exe_l, c.executable_patterns)
}

/// Description of the first group in `configs` that the process belongs to.
pub open spec fn spec_first_match(
    configs: Seq<ProcessConfigView>,
    name_l: Seq<char>,
    exe_l: Seq<char>,
) -> Option<Seq<char>>
    decreases configs.len(),
{
    if configs.len() == 0 {
        None
    } else if config_matches(configs[0], name_l, exe_l) {
        Some(configs[0].description)
    } else {
        spec_first_match(configs.subrange(1, configs.len() as int), name_l, exe_l)
    }
}

/// The lower-cased executable path, or the empty text when there is none.
pub open spec fn exe_text(exe: Option<Seq<char>>) -> Seq<char> {
    match exe {
        Some(p) => spec_to_lowercase(p),
        None => Seq::empty(),
    }
}

/// The group a process named `name` with executable `exe` belongs to.
pub open spec fn spec_process_type(
    configs: Seq<ProcessConfigView>,
    name: Seq<char>,
    exe: Option<Seq<char>>,
) -> Option<Seq<char>> {
    spec_first_match(configs, spec_to_lowercase(name), exe_text(exe))
}

/// The views of a list of process configurations.
pub open spec fn config_views(v: Seq<ProcessConfig>) -> Seq<ProcessConfigView> {
    v.map_values(|c: ProcessConfig| c@)
}

/// The optional executable path of a snapshot, as text.
pub open spec fn snapshot_exe(s: ProcessSnapshot) -> Option<Seq<char>> {
    match s.exe {
        Some(p) => Some(p@),
        None => None,
    }
}

/// The traffic records of the target processes among `snaps`, in snapshot order.
pub open spec fn spec_target_traffic(
    configs: Seq<ProcessConfigView>,
    snaps: Seq<ProcessSnapshot>,
) -> Seq<ProcessTrafficView>
    decreases snaps.len(),
{
    if snaps.len() == 0 {
        Seq::empty()
    } else {
        let prev = spec_target_traffic(configs, snaps.drop_last());
        let s = snaps.last();
        match spec_process_type(configs, s.name@, snapshot_exe(s)) {
            Some(t) => prev.push(
                ProcessTrafficView {
                    pid: s.pid,
                    name: s.name@,
                    upload_bytes: s.upload_bytes,
                    download_bytes: s.download_bytes,
                    process_type: t,
                },
            ),
            None => prev,
        }
    }
}

/// Uploaded bytes of each record.
pub open spec fn traffic_uploads(s: Seq<ProcessTrafficView>) -> Seq<int> {
    s.map_values(|t: ProcessTrafficView| t.upload_bytes as int)
}

/// Downloaded bytes of each record.
pub open spec fn traffic_downloads(s: Seq<ProcessTrafficView>) -> Seq<int> {
    s.map_values(|t: ProcessTrafficView| t.download_bytes as int)
}

/// Traffic summed over the records of one process group.
#[derive(Debug)]
pub struct TypeTraffic {
    pub process_type: String,
    pub upload_bytes: u64,
    pub download_bytes: u64,
}

/// The values of a per-group sum, before any bound on their size.
pub struct TypeSum {
    pub process_type: Seq<char>,
    pub upload: int,
    pub download: int,
}

/// Some entry of `g` is for group `t`.
pub open spec fn has_type(g: Seq<TypeSum>, t: Seq<char>) -> bool {
    exists|k: int| 0 <= k < g.len() && g[k].process_type == t
}

/// Per-group sums of `s`, groups in order of first appearance.
pub open spec fn spec_group(s: Seq<ProcessTrafficView>) -> Seq<TypeSum>
    decreases s.len(),
{
    if s.len() == 0 {
        Seq::empty()
    } else {
        let g = spec_group(s.drop_last());
        let x = s.last();
        if has_type(g, x.process_type) {
            let k = choose|k: int| 0 <= k < g.len() && g[k].process_type == x.process_type;
            g.update(
                k,
                TypeSum {
                    process_type: x.process_type,
                    upload: g[k].upload + x.upload_bytes,
                    download: g[k].download + x.download_bytes,
                },
            )
        } else {
            g.push(
                TypeSum {
                    process_type: x.process_type,
                    upload: x.upload_bytes as int,
                    download: x.download_bytes as int,
                },
            )
        }
    }
}

/// Every per-group sum of `s` fits in 64 bits.
pub open spec fn group_fits(s: Seq<ProcessTrafficView>) -> bool {
    forall|k: int|
        0 <= k < spec_group(s).len() ==> #[trigger] spec_group(s)[k].upload <= u64::MAX
            && spec_group(s)[k].download <= u64::MAX
}

/// The values of a list of per-group sums.
pub open spec fn type_sums(v: Seq<TypeTraffic>) -> Seq<TypeSum> {
    v.map_values(
        |t: TypeTraffic|
            TypeSum {
                process_type: t.process_type@,
                upload: t.upload_bytes as int,
                download: t.download_bytes as int,
            },
    )
}

/// The groups of `g` are pairwise distinct.
pub open spec fn unique_types(g: Seq<TypeSum>) -> bool {
    forall|i: int, j: int| 0 <= i < j < g.len() ==> g[i].process_type != g[j].process_type
}

proof fn lemma_group_unique_nonneg(s: Seq<ProcessTrafficView>)
    ensures
        unique_types(spec_group(s)),
        forall|k: int|
            0 <= k < spec_group(s).len() ==> #[trigger] spec_group(s)[k].upload >= 0
                && spec_group(s)[k].download >= 0,
    decreases s.len(),
{
    if s.len() > 0 {
        lemma_group_unique_nonneg(s.drop_last());
    }
}

proof fn lemma_group_prefix_fits(s: Seq<ProcessTrafficView>, n: int)
    requires
        0 <= n <= s.len(),
        group_fits(s),
    ensures
        group_fits(s.subrange(0, n)),
    decreases s.len() - n,
{
    if n == s.len() {
        assert(s.subrange(0, n) =~= s);
    } else {
        let t = s.subrange(0, n + 1);
        lemma_group_prefix_fits(s, n + 1);
        assert(t.drop_last() =~= s.subrange(0, n));
        lemma_group_unique_nonneg(t.drop_last());
        let g = spec_group(t.drop_last());
        let x = t.last();
        assert forall|k: int| 0 <= k < g.len() implies #[trigger] g[k].upload <= u64::MAX
            && g[k].download <= u64::MAX by {
            if has_type(g, x.process_type) {
                let c = choose|c: int| 0 <= c < g.len() && g[c].process_type == x.process_type;
                if k == c {
                    assert(spec_group(t)[c].upload == g[c].upload + x.upload_bytes);
                } else {
                    assert(spec_group(t)[k] == g[k]);
                }
            } else {
                assert(spec_group(t)[k] == g[k]);
            }
        }
    }
}

/// Position of the sum for group `t`, if there is one.
fn find_type(v: &Vec<TypeTraffic>, t: &str) -> (r: Option<usize>)
    ensures
        match r {
            Some(k) => k < v@.len() && type_sums(v@)[k as int].process_type == t@,
            None => !has_type(type_sums(v@), t@),
        },
{
    let mut k: usize = 0;
    while k < v.len()
        invariant
            k <= v.len(),
            forall|j: int| 0 <= j < k ==> type_sums(v@)[j].process_type != t@,
        decreases v.len() - k,
    {
        if str_eq(v[k].process_type.as_str(), t) {
            return Some(k);
        }
        k = k + 1;
    }
    None
}

/// Sums the traffic of `processes` per group, groups in order of first appearance.
pub fn group_by_type(processes: &Vec<ProcessTraffic>) -> (r: Vec<TypeTraffic>)
    requires
        group_fits(traffic_views(processes@)),
    ensures
        type_sums(r@) == spec_group(traffic_views(processes@)),
{
    let ghost all = traffic_views(processes@);
    let mut r: Vec<TypeTraffic> = Vec::new();
    let mut i: usize = 0;
    while i < processes.len()
        invariant
            i <= processes.len(),
            all == traffic_views(processes@),
            group_fits(all),
            type_sums(r@) == spec_group(all.subrange(0, i as int)),
        decreases processes.len() - i,
    {
        let p = &processes[i];
        let ghost pre = all.subrange(0, i as int);
        let ghost cur = all.subrange(0, i + 1);
        proof {
            assert(cur.drop_last() =~= pre);
            assert(cur.last() == p@);
            lemma_group_prefix_fits(all, i + 1);
            lemma_group_unique_nonneg(pre);
        }
        let ghost g = spec_group(pre);
        match find_type(&r, p.process_type.as_str()) {
            Some(k) => {
                proof {
                    assert(g[k as int].process_type == p.process_type@);
                    assert(has_type(g, p.process_type@));
                    let c = choose|c: int| 0 <= c < g.len() && g[c].process_type == p.process_type@;
                    assert(c == k as int);
                    assert(spec_group(cur)[c].upload == g[c].upload + p.upload_bytes);
                    assert(spec_group(cur)[c].download == g[c].download + p.download_bytes);
                }
                let e = &r[k];
                let updated = TypeTraffic {
                    process_type: e.process_type.clone(),
                    upload_bytes: e.upload_bytes + p.upload_bytes,
                    download_bytes: e.download_bytes + p.download_bytes,
                };
                let ghost before = r@;
                r.set(k, updated);
                assert(type_sums(r@) =~= spec_group(cur));
            },
            None => {
                let ghost before = r@;
                r.push(
                    TypeTraffic {
                        process_type: p.process_type.clone(),
                        upload_bytes: p.upload_bytes,
                        download_bytes: p.download_bytes,
                    },
                );
                assert(!has_type(g, p.process_type@));
                assert(type_sums(r@) =~= spec_group(cur));
            },
        }
        i = i + 1;
    }
    assert(all.subrange(0, i as int) =~= all);
    r
}

/// The default target groups: browsers, Git, editors and Node.js tools.
pub open spec fn spec_default_process_configs() -> Seq<ProcessConfigView> {
    seq![
        ProcessConfigView {
            name_patterns: seq!["chrome"@, "firefox"@, "edge"@, "opera"@, "safari"@, "brave"@],
            executable_patterns: seq![
                "chrome.exe"@,
                "firefox.exe"@,
                "msedge.exe"@,
                "opera.exe"@,
                "safari.exe"@,
                "brave.exe"@,
            ],
            description: "浏览器进程"@,
        },
        ProcessConfigView {
            name_patterns: seq!["git"@, "git-bash"@, "git-cmd"@],
            executable_patterns: seq!["git.exe"@, "git-bash.exe"@, "git-cmd.exe"@],
            description: "Git进程"@,
        },
        ProcessConfigView {
            name_patterns: seq!["vscode"@, "code"@, "visual studio code"@],
            executable_patterns: seq!["code.exe"@, "vscode.exe"@],
            description: "开发工具进程"@,
        },
        ProcessConfigView {
            name_patterns: seq!["node"@, "npm"@, "yarn"@],
            executable_patterns: seq!["node.exe"@, "npm.exe"@, "yarn.exe"@],
            description: "Node.js进程"@,
        },
    ]
}


/// The default target groups, built.
fn default_process_configs() -> (r: Vec<ProcessConfig>)
    ensures
        config_views(r@) == spec_default_process_configs(),
{
    let browsers = ProcessConfig {
        name_patterns: vec![
            String::from_str("chrome"),
            String::from_str("firefox"),
            String::from_str("edge"),
            String::from_str("opera"),
            String::from_str("safari"),
            String::from_str("brave"),
        ],
        executable_patterns: vec![
            String::from_str("chrome.exe"),
            String::from_str("firefox.exe"),
            String::from_str("msedge.exe"),
            String::from_str("opera.exe"),
            String::from_str("safari.exe"),
            String::from_str("brave.exe"),
        ],
        description: String::from_str("浏览器进程"),
    };
    let git = ProcessConfig {
        name_patterns: vec![
            String::from_str("git"),
            String::from_str("git-bash"),
            String::from_str("git-cmd"),
        ],
        executable_patterns: vec![
            String::from_str("git.exe"),
            String::from_str("git-bash.exe"),
            String::from_str("git-cmd.exe"),
        ],
        description: String::from_str("Git进程"),
    };
    let editors = ProcessConfig {
        name_patterns: vec![
            String::from_str("vscode"),
            String::from_str("code"),
            String::from_str("visual studio code"),
        ],
        executable_patterns: vec![String::from_str("code.exe"), String::from_str("vscode.exe")],
        description: String::from_str("开发工具进程"),
    };
    let node = ProcessConfig {
        name_patterns: vec![
            String::from_str("node"),
            String::from_str("npm"),
            String::from_str("yarn"),
        ],
        executable_patterns: vec![
            String::from_str("node.exe"),
            String::from_str("npm.exe"),
            String::from_str("yarn.exe"),
        ],
        description: String::from_str("Node.js进程"),
    };
    assert(browsers@.name_patterns =~= spec_default_process_configs()[0].name_patterns);
    assert(browsers@.executable_patterns =~= spec_default_process_configs()[0].executable_patterns);
    assert(git@.name_patterns =~= spec_default_process_configs()[1].name_patterns);
    assert(git@.executable_patterns =~= spec_default_process_configs()[1].executable_patterns);
    assert(editors@.name_patterns =~= spec_default_process_configs()[2].name_patterns);
    assert(editors@.executable_patterns =~= spec_default_process_configs()[2].executable_patterns);
    assert(node@.name_patterns =~= spec_default_process_configs()[3].name_patterns);
    assert(node@.executable_patterns =~= spec_default_process_configs()[3].executable_patterns);
    let r = vec![browsers, git, editors, node];
    assert(config_views(r@) =~= spec_default_process_configs());
    r
}

/// Some pattern of `patterns`, lower-cased, occurs in `text`.
fn any_pattern_matches(text: &str, patterns: &Vec<String>) -> (r: bool)
    ensures
        r == any_pattern_in(text@, string_views(patterns@)),
{
    let mut i: usize = 0;
    while i < patterns.len()
        invariant
            i <= patterns.len(),
            forall|j: int|
                0 <= j < i ==> !spec_contains(
                    text@,
                    spec_to_lowercase(#[trigger] string_views(patterns@)[j]),
                ),
        decreases patterns.len() - i,
    {
        let lower = to_lowercase(patterns[i].as_str());
        if contains(text, lower.as_str()) {
            assert(string_views(patterns@)[i as int] == patterns@[i as int]@);
            return true;
        }
        i = i + 1;
    }
    false
}

/// The optional text of an optional string.
pub open spec fn opt_view(o: Option<String>) -> Option<Seq<char>> {
    match o {
        Some(s) => Some(s@),
        None => None,
    }
}

/// The optional text of an optional string slice.
pub open spec fn opt_str_view(o: Option<&str>) -> Option<Seq<char>> {
    match o {
        Some(s) => Some(s@),
        None => None,
    }
}

/// Inserts every record of `t`, in order, keyed by process id.
pub open spec fn spec_insert_all(
    m: Map<u32, ProcessTrafficView>,
    t: Seq<ProcessTrafficView>,
) -> Map<u32, ProcessTrafficView>
    decreases t.len(),
{
    if t.len() == 0 {
        m
    } else {
        spec_insert_all(m, t.drop_last()).insert(t.last().pid, t.last())
    }
}

/// Recognises target processes and keeps the last traffic seen for each of them.
pub struct ProcessFilter {
    target_processes: Vec<ProcessConfig>,
    process_cache: HashMapWithView<u32, ProcessTraffic>,
}

impl ProcessFilter {
    /// The target groups, in matching order.
    pub closed spec fn configs(&self) -> Seq<ProcessConfigView> {
        config_views(self.target_processes@)
    }

    /// The last traffic record seen for each target process id.
    pub closed spec fn cache(&self) -> Map<u32, ProcessTrafficView> {
        self.process_cache@.map_values(|t: ProcessTraffic| t@)
    }

    /// A filter for the default target groups, with nothing seen yet.
    pub fn new() -> (r: Self)
        ensures
            r.configs() == spec_default_process_configs(),
            r.cache() == Map::<u32, ProcessTrafficView>::empty(),
    {
        let r = ProcessFilter {
            target_processes: default_process_configs(),
            process_cache: HashMapWithView::new(),
        };
        assert(r.cache() =~= Map::<u32, ProcessTrafficView>::empty());
        r
    }

    /// Description of the first target group that a process named `name`, with
    /// executable path `exe`, belongs to; names and paths are compared lower-cased.
    pub fn is_target_process(&self, name: &str, exe: Option<&str>) -> (r: Option<String>)
        ensures
            opt_view(r) == spec_process_type(self.configs(), name@, opt_str_view(exe)),
    {
        let name_l = to_lowercase(name);
        let exe_l = match exe {
            Some(p) => to_lowercase(p),
            None => String::new(),
        };
        assert(exe_l@ == exe_text(opt_str_view(exe)));
        let ghost all = self.configs();
        assert(all.subrange(0, all.len() as int) =~= all);
        let mut i: usize = 0;
        while i < self.target_processes.len()
            invariant
                i <= self.target_processes.len(),
                all == config_views(self.target_processes@),
                name_l@ == spec_to_lowercase(name@),
                exe_l@ == exe_text(opt_str_view(exe)),
                spec_first_match(all, name_l@, exe_l@) == spec_first_match(
                    all.subrange(i as int, all.len() as int),
                    name_l@,
                    exe_l@,
                ),
            decreases self.target_processes.len() - i,
        {
            let c = &self.target_processes[i];
            let ghost rest = all.subrange(i as int, all.len() as int);
            assert(rest[0] == c@);
            assert(rest.subrange(1, rest.len() as int) =~= all.subrange(i + 1, all.len() as int));
            if any_pattern_matches(name_l.as_str(), &c.name_patterns) {
                return Some(c.description.clone());
            }
            if any_pattern_matches(exe_l.as_str(), &c.executable_patterns) {
                return Some(c.description.clone());
            }
            i = i + 1;
        }
        assert(all.subrange(i as int, all.len() as int) =~= Seq::<ProcessConfigView>::empty());
        None
    }

    /// The traffic records of the target processes among `processes`, in the
    /// order given; each record also replaces the cached one for its process id.
    pub fn get_target_processes_traffic(&mut self, processes: &Vec<ProcessSnapshot>) -> (r: Vec<
        ProcessTraffic,
    >)
        ensures
            traffic_views(r@) == spec_target_traffic(old(self).configs(), processes@),
            final(self).configs() == old(self).configs(),
            final(self).cache() == spec_insert_all(
                old(self).cache(),
                spec_target_traffic(old(self).configs(), processes@),
            ),
    {
        let ghost configs = self.configs();
        let ghost cache0 = self.cache();
        let mut result: Vec<ProcessTraffic> = Vec::new();
        let mut i: usize = 0;
        while i < processes.len()
            invariant
                i <= processes.len(),
                configs == self.configs(),
                configs == old(self).configs(),
                cache0 == old(self).cache(),
                traffic_views(result@) == spec_target_traffic(
                    configs,
                    processes@.subrange(0, i as int),
                ),
                self.cache() == spec_insert_all(cache0, traffic_views(result@)),
            decreases processes.len() - i,
        {
            let snap = &processes[i];
            let exe = match &snap.exe {
                Some(p) => Some(p.as_str()),
                None => None,
            };
            let ghost pre = processes@.subrange(0, i as int);
            let ghost cur = processes@.subrange(0, i + 1);
            assert(cur.drop_last() =~= pre);
            assert(cur.last() == *snap);
            assert(opt_str_view(exe) == snapshot_exe(*snap));
            match self.is_target_process(snap.name.as_str(), exe) {
                Some(process_type) => {
                    let t = ProcessTraffic {
                        pid: snap.pid,
                        name: snap.name.clone(),
                        upload_bytes: snap.upload_bytes,
                        download_bytes: snap.download_bytes,
                        process_type,
                    };
                    let cached = t.copy();
                    let ghost before = result@;
                    let ghost cache_before = self.process_cache@;
                    result.push(t);
                    self.process_cache.insert(snap.pid, cached);
                    proof {
                        assert(traffic_views(result@) =~= traffic_views(before).push(t@));
                        assert(traffic_views(result@).drop_last() =~= traffic_views(before));
                        assert(self.cache() =~= cache_before.map_values(|x: ProcessTraffic| x@).insert(
                            snap.pid,
                            t@,
                        ));
                    }
                },
                None => {},
            }
            i = i + 1;
        }
        assert(processes@.subrange(0, i as int) =~= processes@);
        result
    }

    /// Total estimated upload and download of the target processes among `processes`.
    pub fn get_total_target_traffic(&mut self, processes: &Vec<ProcessSnapshot>) -> (r: (u64, u64))
        requires
            seq_sum(traffic_uploads(spec_target_traffic(old(self).configs(), processes@)))
                <= u64::MAX,
            seq_sum(traffic_downloads(spec_target_traffic(old(self).configs(), processes@)))
                <= u64::MAX,
        ensures
            r.0 == seq_sum(traffic_uploads(spec_target_traffic(old(self).configs(), processes@))),
            r.1 == seq_sum(traffic_downloads(spec_target_traffic(old(self).configs(), processes@))),
            final(self).configs() == old(self).configs(),
            final(self).cache() == spec_insert_all(
                old(self).cache(),
                spec_target_traffic(old(self).configs(), processes@),
            ),
    {
        let list = self.get_target_processes_traffic(processes);
        match sum_traffic(&list) {
            Some(t) => t,
            None => {
                proof {
                    lemma_sum_prefix_bound(traffic_uploads(traffic_views(list@)));
                    lemma_sum_prefix_bound(traffic_downloads(traffic_views(list@)));
                }
                (0, 0)
            },
        }
    }

    /// Like [`ProcessFilter::get_total_target_traffic`], but answers `None`, with the
    /// records still taken and cached, when a total does not fit in 64 bits.
    pub fn try_get_total_target_traffic(&mut self, processes: &Vec<ProcessSnapshot>) -> (r: Option<
        (u64, u64),
    >)
        ensures
            final(self).configs() == old(self).configs(),
            final(self).cache() == spec_insert_all(
                old(self).cache(),
                spec_target_traffic(old(self).configs(), processes@),
            ),
            match r {
                Some(t) => t.0 == seq_sum(
                    traffic_uploads(spec_target_traffic(old(self).configs(), processes@)),
                ) && t.1 == seq_sum(
                    traffic_downloads(spec_target_traffic(old(self).configs(), processes@)),
                ),
                None => seq_sum(
                    traffic_uploads(spec_target_traffic(old(self).configs(), processes@)),
                ) > u64::MAX || seq_sum(
                    traffic_downloads(spec_target_traffic(old(self).configs(), processes@)),
                ) > u64::MAX,
            },
    {
        let list = self.get_target_processes_traffic(processes);
        sum_traffic(&list)
    }

    /// Estimated traffic of the target processes among `processes`, summed per group.
    pub fn get_traffic_by_type(&mut self, processes: &Vec<ProcessSnapshot>) -> (r: Vec<TypeTraffic>)
        requires
            group_fits(spec_target_traffic(old(self).configs(), processes@)),
        ensures
            type_sums(r@) == spec_group(spec_target_traffic(old(self).configs(), processes@)),
            final(self).configs() == old(self).configs(),
            final(self).cache() == spec_insert_all(
                old(self).cache(),
                spec_target_traffic(old(self).configs(), processes@),
            ),
    {
        let list = self.get_target_processes_traffic(processes);
        group_by_type(&list)
    }

    /// Adds a target group, matched after the existing ones.
    pub fn add_process_config(&mut self, config: ProcessConfig)
        ensures
            final(self).configs() == old(self).configs().push(config@),
            final(self).cache() == old(self).cache(),
    {
        self.target_processes.push(config);
        assert(config_views(self.target_processes@) =~= old(self).configs().push(config@));
    }

    /// The target groups, in matching order.
    pub fn get_process_configs(&self) -> (r: &Vec<ProcessConfig>)
        ensures
            config_views(r@) == self.configs(),
    {
        &self.target_processes
    }

    /// A copy of this filter sharing nothing with it.
    pub fn copy(&self) -> (r: ProcessFilter)
        ensures
            r.configs() == self.configs(),
    {
        let mut configs: Vec<ProcessConfig> = Vec::new();
        let mut i: usize = 0;
        while i < self.target_processes.len()
            invariant
                i <= self.target_processes.len(),
                configs@.len() == i,
                config_views(configs@) =~= config_views(self.target_processes@).subrange(0, i as int),
            decreases self.target_processes.len() - i,
        {
            let c = self.target_processes[i].copy();
            let ghost before = configs@;
            configs.push(c);
            assert forall|j: int| 0 <= j < i implies config_views(configs@)[j] == config_views(
                before,
            )[j] by {
                assert(configs@[j] == before[j]);
            }
            assert(config_views(configs@) =~= config_views(self.target_processes@).subrange(
                0,
                i + 1,
            ));
            i = i + 1;
        }
        assert(config_views(self.target_processes@).subrange(0, i as int) =~= config_views(
            self.target_processes@,
        ));
        ProcessFilter { target_processes: configs, process_cache: HashMapWithView::new() }
    }
}

impl Default for ProcessFilter {
    fn default() -> (r: Self)
        ensures
            r.configs() == spec_default_process_configs(),
            r.cache() == Map::<u32, ProcessTrafficView>::empty(),
    {
        ProcessFilter::new()
    }
}

/// A process filter for the default target groups.
pub fn create_process_filter() -> (r: ProcessFilter)
    ensures
        r.configs() == spec_default_process_configs(),
        r.cache() == Map::<u32, ProcessTrafficView>::empty(),
{
    ProcessFilter::new()
}


/// Total upload and download of `list`, or `None` when one of them does not fit.
pub fn sum_traffic(list: &Vec<ProcessTraffic>) -> (r: Option<(u64, u64)>)
    ensures
        match r {
            Some(t) => t.0 == seq_sum(traffic_uploads(traffic_views(list@))) && t.1 == seq_sum(
                traffic_downloads(traffic_views(list@)),
            ),
            None => seq_sum(traffic_uploads(traffic_views(list@))) > u64::MAX || seq_sum(
                traffic_downloads(traffic_views(list@)),
            ) > u64::MAX,
        },
{
    let ghost ups = traffic_uploads(traffic_views(list@));
    let ghost downs = traffic_downloads(traffic_views(list@));
    proof {
        lemma_sum_prefix_bound(ups);
        lemma_sum_prefix_bound(downs);
    }
    let mut up: u64 = 0;
    let mut down: u64 = 0;
    let mut i: usize = 0;
    while i < list.len()
        invariant
            i <= list.len(),
            ups == traffic_uploads(traffic_views(list@)),
            downs == traffic_downloads(traffic_views(list@)),
            forall|k: int| 0 <= k <= ups.len() ==> seq_sum(#[trigger] ups.subrange(0, k)) <= seq_sum(ups),
            forall|k: int| 0 <= k <= downs.len() ==> seq_sum(#[trigger] downs.subrange(0, k)) <= seq_sum(downs),
            up == seq_sum(ups.subrange(0, i as int)),
            down == seq_sum(downs.subrange(0, i as int)),
        decreases list.len() - i,
    {
        assert(ups.subrange(0, i + 1).drop_last() =~= ups.subrange(0, i as int));
        assert(downs.subrange(0, i + 1).drop_last() =~= downs.subrange(0, i as int));
        let t = &list[i];
        match up.checked_add(t.upload_bytes) {
            Some(u) => {
                up = u;
            },
            None => {
                assert(seq_sum(ups.subrange(0, i + 1)) > u64::MAX);
                return None;
            },
        }
        match down.checked_add(t.download_bytes) {
            Some(d) => {
                down = d;
            },
            None => {
                assert(seq_sum(downs.subrange(0, i + 1)) > u64::MAX);
                return None;
            },
        }
        i = i + 1;
    }
    assert(ups.subrange(0, i as int) =~= ups);
    assert(downs.subrange(0, i as int) =~= downs);
    Some((up, down))
}

} // verus!
