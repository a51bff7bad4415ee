//! The desktop front end's own state: the traffic samples it charts, its log,
//! its window and tray decisions, and how it finds and launches the daemon
//! and a Chinese font. Drawing is the caller's.

use vstd::prelude::*;
use crate::text::{spec_contains, contains};
use crate::ipc::ServiceRequest;
use crate::history::{
    seq_sum, spec_push_then_trim, push_then_trim, spec_trim_then_push, trim_then_push, checked_sum,
};

verus! {

// ---------------------------------------------------------------------------
// Charted traffic
// ---------------------------------------------------------------------------

/// One charted sample: bytes sent and received since the previous sample, and
/// the wall-clock second it was taken.
#[derive(Clone, Copy, Debug, PartialEq, Eq, Structural)]
pub struct TrafficSample {
    pub upload_bytes: u64,
    pub download_bytes: u64,
    pub timestamp: u64,
}

/// Least time between two samples taken from cumulative totals, in milliseconds.
pub const MIN_SAMPLE_INTERVAL_MS: u64 = 1000;

/// Uploaded bytes of each sample.
pub open spec fn sample_uploads(s: Seq<TrafficSample>) -> Seq<int> {
    s.map_values(|p: TrafficSample| p.upload_bytes as int)
}

/// Downloaded bytes of each sample.
pub open spec fn sample_downloads(s: Seq<TrafficSample>) -> Seq<int> {
    s.map_values(|p: TrafficSample| p.download_bytes as int)
}

/// The samples the front end charts, at most `max_points` of them, with the
/// cumulative totals and monotonic time of the last sample taken from totals.
pub struct TrafficMonitor {
    data_points: Vec<TrafficSample>,
    max_points: usize,
    last_update_ms: u64,
    last_upload_bytes: u64,
    last_download_bytes: u64,
}

impl TrafficMonitor {
    /// The kept samples, oldest first.
    pub closed spec fn samples(&self) -> Seq<TrafficSample> {
        self.data_points@
    }

    /// How many samples are kept.
    pub closed spec fn capacity(&self) -> nat {
        self.max_points as nat
    }

    /// Monotonic time, in milliseconds, of the last sample taken from totals.
    pub closed spec fn last_update(&self) -> u64 {
        self.last_update_ms
    }

    /// Cumulative totals of the last sample taken from totals.
    pub closed spec fn last_totals(&self) -> (u64, u64) {
        (self.last_upload_bytes, self.last_download_bytes)
    }

    /// An empty monitor keeping `max_points` samples, created at monotonic
    /// time `now_ms`.
    pub fn new(max_points: usize, now_ms: u64) -> (r: Self)
        ensures
            r.samples() == Seq::<TrafficSample>::empty(),
            r.capacity() == max_points,
            r.last_update() == now_ms,
            r.last_totals() == (0u64, 0u64),
    {
        TrafficMonitor {
            data_points: Vec::new(),
            max_points,
            last_update_ms: now_ms,
            last_upload_bytes: 0,
            last_download_bytes: 0,
        }
    }

    /// Takes a sample from cumulative totals at monotonic time `now_ms` and
    /// wall-clock second `timestamp`: less than a second after the previous one
    /// nothing changes; otherwise the sample holds the growth of each total
    /// (zero if it shrank), replaces the oldest sample when `max_points` are
    /// kept, and the totals and time are remembered.
    pub fn add_traffic(&mut self, total_upload: u64, total_download: u64, now_ms: u64, timestamp: u64)
        ensures
            final(self).capacity() == old(self).capacity(),
            now_ms.saturating_sub(old(self).last_update()) < MIN_SAMPLE_INTERVAL_MS ==> *final(self)
                == *old(self),
            now_ms.saturating_sub(old(self).last_update()) >= MIN_SAMPLE_INTERVAL_MS ==> {
                &&& final(self).samples() == spec_trim_then_push(
                    old(self).samples(),
                    TrafficSample {
                        upload_bytes: total_upload.saturating_sub(old(self).last_totals().0),
                        download_bytes: total_download.saturating_sub(old(self).last_totals().1),
                        timestamp,
                    },
                    old(self).capacity(),
                )
                &&& final(self).last_totals() == (total_upload, total_download)
                &&& final(self).last_update() == now_ms
            },
    {
        if now_ms.saturating_sub(self.last_update_ms) < MIN_SAMPLE_INTERVAL_MS {
            return;
        }
        let point = TrafficSample {
            upload_bytes: total_upload.saturating_sub(self.last_upload_bytes),
            download_bytes: total_download.saturating_sub(self.last_download_bytes),
            timestamp,
        };
        trim_then_push(&mut self.data_points, point, self.max_points);
        self.last_upload_bytes = total_upload;
        self.last_download_bytes = total_download;
        self.last_update_ms = now_ms;
    }

    /// Adds a sample of traffic already counted per interval, replacing the
    /// oldest sample when `max_points` are kept.
    pub fn add_delta_traffic(&mut self, upload_bytes: u64, download_bytes: u64, timestamp: u64)
        ensures
            final(self).capacity() == old(self).capacity(),
            final(self).last_update() == old(self).last_update(),
            final(self).last_totals() == old(self).last_totals(),
            final(self).samples() == spec_trim_then_push(
                old(self).samples(),
                TrafficSample { upload_bytes, download_bytes, timestamp },
                old(self).capacity(),
            ),
    {
        let point = TrafficSample { upload_bytes, download_bytes, timestamp };
        trim_then_push(&mut self.data_points, point, self.max_points);
    }

    /// A copy of the kept samples, oldest first.
    pub fn get_all_data(&self) -> (r: Vec<TrafficSample>)
        ensures
            r@ == self.samples(),
    {
        let mut r: Vec<TrafficSample> = Vec::new();
        let mut i: usize = 0;
        while i < self.data_points.len()
            invariant
                i <= self.data_points.len(),
                r@ == self.data_points@.take(i as int),
            decreases self.data_points.len() - i,
        {
            r.push(self.data_points[i]);
            assert(r@ =~= self.data_points@.take(i as int + 1));
            i = i + 1;
        }
        assert(self.data_points@.take(i as int) =~= self.data_points@);
        r
    }

    /// Bytes sent and received over the kept samples.
    pub fn get_total_traffic(&self) -> (r: (u64, u64))
        requires
            seq_sum(sample_uploads(self.samples())) <= u64::MAX,
            seq_sum(sample_downloads(self.samples())) <= u64::MAX,
        ensures
            r.0 == seq_sum(sample_uploads(self.samples())),
            r.1 == seq_sum(sample_downloads(self.samples())),
    {
        let mut ups: Vec<u64> = Vec::new();
        let mut downs: Vec<u64> = Vec::new();
        let mut i: usize = 0;
        while i < self.data_points.len()
            invariant
                i <= self.data_points.len(),
                ups@.len() == i,
                downs@.len() == i,
                forall|j: int| 0 <= j < i ==> #[trigger] ups@[j] == self.data_points@[j].upload_bytes,
                forall|j: int| 0 <= j < i ==> #[trigger] downs@[j] == self.data_points@[j].download_bytes,
            decreases self.data_points.len() - i,
        {
            let p = self.data_points[i];
            ups.push(p.upload_bytes);
            downs.push(p.download_bytes);
            i = i + 1;
        }
        assert(ups@.map_values(|x: u64| x as int) =~= sample_uploads(self.samples()));
        assert(downs@.map_values(|x: u64| x as int) =~= sample_downloads(self.samples()));
        let u = match checked_sum(&ups) {
            Some(u) => u,
            None => 0,
        };
        let d = match checked_sum(&downs) {
            Some(d) => d,
            None => 0,
        };
        (u, d)
    }
}

/// A traffic entry of a `get_realtime_traffic` reply: its two byte counts,
/// each none when missing or not a number.
#[derive(Clone, Copy, Debug, PartialEq, Eq, Structural)]
pub struct PointFields {
    pub upload: Option<u64>,
    pub download: Option<u64>,
}

/// The entries whose two counts are both present, as pairs, in order.
pub open spec fn spec_complete_pairs(s: Seq<PointFields>) -> Seq<(u64, u64)>
    decreases s.len(),
{
    if s.len() == 0 {
        Seq::empty()
    } else {
        let rest = spec_complete_pairs(s.drop_last());
        match (s.last().upload, s.last().download) {
            (Some(u), Some(d)) => rest.push((u, d)),
            _ => rest,
        }
    }
}

/// The entries whose two counts are both present, as pairs, in order.
pub fn complete_pairs(s: &Vec<PointFields>) -> (r: Vec<(u64, u64)>)
    ensures
        r@ == spec_complete_pairs(s@),
{
    let mut r: Vec<(u64, u64)> = Vec::new();
    let mut i: usize = 0;
    while i < s.len()
        invariant
            i <= s.len(),
            r@ == spec_complete_pairs(s@.take(i as int)),
        decreases s.len() - i,
    {
        assert(s@.take(i as int + 1).drop_last() =~= s@.take(i as int));
        let p = s[i];
        match (p.upload, p.download) {
            (Some(u), Some(d)) => {
                r.push((u, d));
            },
            _ => {},
        }
        i = i + 1;
    }
    assert(s@.take(i as int) =~= s@);
    r
}

/// The pairs a polled reply contributes: those of its network section when
/// the reply has one, else those of its DNS section, else none.
pub open spec fn spec_polled_pairs(network: Option<Seq<PointFields>>, dns: Option<Seq<PointFields>>) -> Seq<(u64, u64)> {
    match network {
        Some(n) => spec_complete_pairs(n),
        None => match dns {
            Some(d) => spec_complete_pairs(d),
            None => Seq::empty(),
        },
    }
}

/// Adds each pair of a polled reply to the chart as a per-interval sample
/// stamped `timestamp`, network section first choice, DNS section otherwise.
pub fn apply_polled_traffic(
    monitor: &mut TrafficMonitor,
    network: Option<Vec<PointFields>>,
    dns: Option<Vec<PointFields>>,
    timestamp: u64,
) -> (added: Vec<(u64, u64)>)
    ensures
        added@ == spec_polled_pairs(
            match network { Some(v) => Some(v@), None => None },
            match dns { Some(v) => Some(v@), None => None },
        ),
        final(monitor).capacity() == old(monitor).capacity(),
        final(monitor).last_totals() == old(monitor).last_totals(),
        final(monitor).last_update() == old(monitor).last_update(),
        final(monitor).samples() == samples_after_deltas(old(monitor).samples(), added@, timestamp, old(monitor).capacity()),
{
    let pairs = match network {
        Some(n) => complete_pairs(&n),
        None => match dns {
            Some(d) => complete_pairs(&d),
            None => Vec::new(),
        },
    };
    let mut i: usize = 0;
    while i < pairs.len()
        invariant
            i <= pairs.len(),
            monitor.capacity() == old(monitor).capacity(),
            monitor.last_totals() == old(monitor).last_totals(),
            monitor.last_update() == old(monitor).last_update(),
            monitor.samples() == samples_after_deltas(old(monitor).samples(), pairs@.take(i as int), timestamp, old(monitor).capacity()),
        decreases pairs.len() - i,
    {
        assert(pairs@.take(i as int + 1).drop_last() =~= pairs@.take(i as int));
        let (u, d) = pairs[i];
        monitor.add_delta_traffic(u, d, timestamp);
        i = i + 1;
    }
    assert(pairs@.take(i as int) =~= pairs@);
    pairs
}

/// The chart after adding the pairs `p` as per-interval samples stamped `ts`.
pub open spec fn samples_after_deltas(h: Seq<TrafficSample>, p: Seq<(u64, u64)>, ts: u64, max: nat) -> Seq<TrafficSample>
    decreases p.len(),
{
    if p.len() == 0 {
        h
    } else {
        spec_trim_then_push(
            samples_after_deltas(h, p.drop_last(), ts, max),
            TrafficSample { upload_bytes: p.last().0, download_bytes: p.last().1, timestamp: ts },
            max,
        )
    }
}

// ---------------------------------------------------------------------------
// The front end's log
// ---------------------------------------------------------------------------

/// Lines of log the front end keeps.
pub const MAX_LOG_LINES: usize = 100;

/// Lines of log the front end shows.
pub const SHOWN_LOG_LINES: usize = 20;

/// Appends a line to the front end's log, dropping the oldest line beyond 100.
pub fn add_log(logs: &mut Vec<String>, message: String)
    ensures
        final(logs)@ == spec_push_then_trim(old(logs)@, message, MAX_LOG_LINES as nat),
{
    push_then_trim(logs, message, MAX_LOG_LINES);
}

/// The log lines shown, newest first: the last 20, in reverse order.
pub open spec fn spec_shown_logs(logs: Seq<Seq<char>>) -> Seq<Seq<char>> {
    let n = if logs.len() < SHOWN_LOG_LINES { logs.len() as int } else { SHOWN_LOG_LINES as int };
    Seq::new(n as nat, |i: int| logs[logs.len() - 1 - i])
}

/// The log lines shown, newest first.
pub fn shown_logs(logs: &Vec<String>) -> (r: Vec<String>)
    ensures
        r@.map_values(|s: String| s@) == spec_shown_logs(logs@.map_values(|s: String| s@)),
{
    let n: usize = if logs.len() < SHOWN_LOG_LINES {
        logs.len()
    } else {
        SHOWN_LOG_LINES
    };
    let ghost lv = logs@.map_values(|s: String| s@);
    let mut r: Vec<String> = Vec::new();
    let mut i: usize = 0;
    while i < n
        invariant
            i <= n,
            n <= logs.len(),
            n == (if logs.len() < SHOWN_LOG_LINES { logs.len() } else { SHOWN_LOG_LINES }),
            lv == logs@.map_values(|s: String| s@),
            r@.len() == i,
            forall|k: int| 0 <= k < i ==> #[trigger] r@[k]@ == lv[logs.len() - 1 - k],
        decreases n - i,
    {
        let line = logs[logs.len() - 1 - i].clone();
        r.push(line);
        i = i + 1;
    }
    assert(r@.map_values(|s: String| s@) =~= spec_shown_logs(lv));
    r
}

// ---------------------------------------------------------------------------
// Window, tray and service toggle
// ---------------------------------------------------------------------------

/// An event of the tray menu.
#[derive(Clone, Copy, Debug, PartialEq, Eq, Structural)]
pub enum TrayEvent {
    ShowWindow,
    Quit,
}

/// What the tray listener does with an event.
#[derive(Clone, Copy, Debug, PartialEq, Eq, Structural)]
pub struct TrayReaction {
    /// Set the shared "window should be visible" flag.
    pub show_window: bool,
    /// Set the shared exit flag and end the process.
    pub exit: bool,
}

/// What the tray listener does with an event.
pub fn on_tray_event(event: TrayEvent) -> (r: TrayReaction)
    ensures
        r.show_window == (event == TrayEvent::ShowWindow),
        r.exit == (event == TrayEvent::Quit),
{
    match event {
        TrayEvent::ShowWindow => TrayReaction { show_window: true, exit: false },
        TrayEvent::Quit => TrayReaction { show_window: false, exit: true },
    }
}

/// A command sent to the window.
#[derive(Clone, Copy, Debug, PartialEq, Eq, Structural)]
pub enum WindowCommand {
    /// Show and focus the window.
    Show,
    /// Hide the window to the tray.
    Hide,
    /// Fix the window's size and disable resizing and maximizing.
    Configure,
    /// Refuse the pending close request.
    CancelClose,
}

/// The front end's window and service state between frames.
#[derive(Clone, Copy, Debug, PartialEq, Eq, Structural)]
pub struct FrameState {
    pub window_visible: bool,
    pub window_configured: bool,
    pub service_running: bool,
    pub auto_refresh: bool,
}

/// The state of a newly opened front end.
pub fn initial_frame_state() -> (r: FrameState)
    ensures
        r == (FrameState { window_visible: true, window_configured: false, service_running: true, auto_refresh: true }),
{
    FrameState { window_visible: true, window_configured: false, service_running: true, auto_refresh: true }
}

/// What a frame does with the window: the commands sent, in order, and the
/// new value of the shared "window should be visible" flag.
pub struct FrameOutcome {
    pub commands: Vec<WindowCommand>,
    pub should_be_visible: bool,
}

/// The window commands of a frame, given the shared visibility flag and
/// whether the user asked to close: show a window that should be visible,
/// hide one that should not, configure it on the first frame, and turn a
/// close request into hiding.
pub open spec fn spec_frame_commands(s: FrameState, should_be_visible: bool, close_requested: bool) -> Seq<WindowCommand> {
    let a = if should_be_visible && !s.window_visible {
        seq![WindowCommand::Show]
    } else if !should_be_visible && s.window_visible {
        seq![WindowCommand::Hide]
    } else {
        Seq::empty()
    };
    let b = if !s.window_configured { a.push(WindowCommand::Configure) } else { a };
    if close_requested {
        b.push(WindowCommand::Hide).push(WindowCommand::CancelClose)
    } else {
        b
    }
}

/// Applies the window part of a frame.
pub fn frame_window_step(state: &mut FrameState, should_be_visible: bool, close_requested: bool) -> (r: FrameOutcome)
    ensures
        r.commands@ == spec_frame_commands(*old(state), should_be_visible, close_requested),
        r.should_be_visible == (should_be_visible && !close_requested),
        final(state).window_visible == (should_be_visible && !close_requested),
        final(state).window_configured,
        final(state).service_running == old(state).service_running,
        final(state).auto_refresh == old(state).auto_refresh,
{
    let mut commands: Vec<WindowCommand> = Vec::new();
    if should_be_visible && !state.window_visible {
        commands.push(WindowCommand::Show);
        state.window_visible = true;
    }
    if !should_be_visible && state.window_visible {
        commands.push(WindowCommand::Hide);
        state.window_visible = false;
    }
    if !state.window_configured {
        commands.push(WindowCommand::Configure);
        state.window_configured = true;
    }
    let mut flag = should_be_visible;
    if close_requested {
        flag = false;
        commands.push(WindowCommand::Hide);
        commands.push(WindowCommand::CancelClose);
        state.window_visible = false;
    }
    assert(commands@ =~= spec_frame_commands(*old(state), should_be_visible, close_requested));
    FrameOutcome { commands, should_be_visible: flag }
}

/// Least time between two repaints requested by auto-refresh, in milliseconds.
pub const REFRESH_INTERVAL_MS: u64 = 1000;

/// Whether a frame requests a repaint: auto-refresh is on and more than a
/// second passed since the last one.
pub fn repaint_due(state: &FrameState, since_last_refresh_ms: u64) -> (r: bool)
    ensures
        r == (state.auto_refresh && since_last_refresh_ms > REFRESH_INTERVAL_MS),
{
    state.auto_refresh && since_last_refresh_ms > REFRESH_INTERVAL_MS
}

/// The service button: stops a running service, starts a stopped one, and
/// flips the shown state at once.
pub fn toggle_service(state: &mut FrameState) -> (r: ServiceRequest)
    ensures
        r == (if old(state).service_running { ServiceRequest::Stop } else { ServiceRequest::Start }),
        final(state).service_running == !old(state).service_running,
        final(state).window_visible == old(state).window_visible,
        final(state).window_configured == old(state).window_configured,
        final(state).auto_refresh == old(state).auto_refresh,
{
    if state.service_running {
        state.service_running = false;
        ServiceRequest::Stop
    } else {
        state.service_running = true;
        ServiceRequest::Start
    }
}

/// After any frame the window is shown exactly when the shared flag says so,
/// and a close request always leaves it hidden with the close refused.
pub proof fn law_frame_follows_flag(s: FrameState, should_be_visible: bool, close_requested: bool)
    ensures
        close_requested ==> spec_frame_commands(s, should_be_visible, close_requested).last()
            == WindowCommand::CancelClose,
        !close_requested && s.window_configured && should_be_visible == s.window_visible
            ==> spec_frame_commands(s, should_be_visible, close_requested).len() == 0,
{
}

// ---------------------------------------------------------------------------
// Launching the daemon
// ---------------------------------------------------------------------------

/// The daemon's executable name, as the process list shows it.
pub const CORE_EXECUTABLE: &'static str = "turbogithub-core.exe";

/// Where the daemon's executable is looked for, in order.
pub open spec fn spec_core_paths() -> Seq<Seq<char>> {
    seq![
        "../target/debug/turbogithub-core.exe"@,
        "../../target/debug/turbogithub-core.exe"@,
        "target/debug/turbogithub-core.exe"@,
        "../turbogithub-core.exe"@,
        "turbogithub-core.exe"@,
    ]
}

/// Where the daemon's executable is looked for, in order.
pub fn core_paths() -> (r: Vec<&'static str>)
    ensures
        r@.map_values(|s: &str| s@) == spec_core_paths(),
{
    let r = vec![
        "../target/debug/turbogithub-core.exe",
        "../../target/debug/turbogithub-core.exe",
        "target/debug/turbogithub-core.exe",
        "../turbogithub-core.exe",
        "turbogithub-core.exe",
    ];
    assert(r@.map_values(|s: &str| s@) =~= spec_core_paths());
    r
}

/// What the front end does about the daemon at launch.
#[derive(Clone, Copy, Debug, PartialEq, Eq, Structural)]
pub enum CoreLaunch {
    /// The process list shows it running.
    AlreadyRunning,
    /// Start the executable at this index of the search list.
    Launch(usize),
    /// No executable was found.
    NotFound,
}

/// The first index whose flag is set.
pub open spec fn spec_first_set(flags: Seq<bool>) -> Option<int> {
    if exists|i: int| 0 <= i < flags.len() && flags[i] {
        Some(choose|i: int| 0 <= i < flags.len() && flags[i] && forall|j: int| 0 <= j < i ==> !flags[j])
    } else {
        None
    }
}

/// What to do about the daemon, given the process list's text and, for each
/// path of the search list, whether a file exists there.
pub open spec fn spec_core_launch(process_list: Seq<char>, exists: Seq<bool>) -> CoreLaunch {
    if spec_contains(process_list, CORE_EXECUTABLE@) {
        CoreLaunch::AlreadyRunning
    } else {
        match spec_first_set(exists) {
            Some(i) => CoreLaunch::Launch(i as usize),
            None => CoreLaunch::NotFound,
        }
    }
}

/// The first index whose flag is set.
pub fn first_set(flags: &Vec<bool>) -> (r: Option<usize>)
    ensures
        match r {
            Some(i) => spec_first_set(flags@) == Some(i as int) && i < flags@.len(),
            None => spec_first_set(flags@) is None,
        },
{
    let mut i: usize = 0;
    while i < flags.len()
        invariant
            i <= flags.len(),
            forall|j: int| 0 <= j < i ==> !flags@[j],
        decreases flags.len() - i,
    {
        if flags[i] {
            proof {
                let c = choose|c: int| 0 <= c < flags@.len() && flags@[c] && forall|j: int| 0 <= j < c ==> !flags@[j];
                if c < i {
                } else if i < c {
                }
                assert(c == i);
            }
            return Some(i);
        }
        i = i + 1;
    }
    None
}

/// Decides what to do about the daemon at launch.
pub fn core_launch(process_list: &str, exists: &Vec<bool>) -> (r: CoreLaunch)
    ensures
        r == spec_core_launch(process_list@, exists@),
{
    if contains(process_list, CORE_EXECUTABLE) {
        return CoreLaunch::AlreadyRunning;
    }
    match first_set(exists) {
        Some(i) => CoreLaunch::Launch(i),
        None => CoreLaunch::NotFound,
    }
}

// ---------------------------------------------------------------------------
// Choosing a Chinese font
// ---------------------------------------------------------------------------

/// The font tried first; it serves both proportional and monospace text.
pub const PRIMARY_FONT_PATH: &'static str = "C:\\Windows\\Fonts\\msyh.ttc";

/// The registered name of the first-choice font.
pub const PRIMARY_FONT_NAME: &'static str = "MicrosoftYaHei";

/// The fonts tried, in order, when the first choice cannot be read.
pub open spec fn spec_fallback_fonts() -> Seq<Seq<char>> {
    seq!["C:\\Windows\\Fonts\\simhei.ttf"@, "C:\\Windows\\Fonts\\simsun.ttc"@, "C:\\Windows\\Fonts\\msyhbd.ttc"@]
}

/// The fonts tried, in order, when the first choice cannot be read.
pub fn fallback_fonts() -> (r: Vec<&'static str>)
    ensures
        r@.map_values(|s: &str| s@) == spec_fallback_fonts(),
{
    let r = vec!["C:\\Windows\\Fonts\\simhei.ttf", "C:\\Windows\\Fonts\\simsun.ttc", "C:\\Windows\\Fonts\\msyhbd.ttc"];
    assert(r@.map_values(|s: &str| s@) =~= spec_fallback_fonts());
    r
}

/// The name a fallback font is registered under, by what its path contains.
pub open spec fn spec_font_name(path: Seq<char>) -> Seq<char> {
    if spec_contains(path, "simhei"@) {
        "SimHei"@
    } else if spec_contains(path, "simsun"@) {
        "SimSun"@
    } else if spec_contains(path, "msyhbd"@) {
        "MicrosoftYaHeiBold"@
    } else {
        "ChineseFont"@
    }
}

/// The name a fallback font is registered under.
pub fn font_name(path: &str) -> (r: &'static str)
    ensures
        r@ == spec_font_name(path@),
{
    if contains(path, "simhei") {
        "SimHei"
    } else if contains(path, "simsun") {
        "SimSun"
    } else if contains(path, "msyhbd") {
        "MicrosoftYaHeiBold"
    } else {
        "ChineseFont"
    }
}

/// Which font the front end registers: the first-choice font for both
/// proportional and monospace text, or else the first fallback font that
/// could be read, for proportional text only.
#[derive(Clone, Copy, Debug, PartialEq, Eq, Structural)]
pub struct FontChoice {
    /// Index in the candidate list: 0 for the first choice, `1 + i` for
    /// fallback `i`.
    pub index: usize,
    pub monospace_too: bool,
}

/// The font chosen when `loaded[0]` says whether the first-choice font could
/// be read and `loaded[1 + i]` whether fallback `i` could.
pub open spec fn spec_choose_font(loaded: Seq<bool>) -> Option<FontChoice> {
    match spec_first_set(loaded) {
        Some(i) => Some(FontChoice { index: i as usize, monospace_too: i == 0 }),
        None => None,
    }
}

/// Chooses the font to register.
pub fn choose_font(loaded: &Vec<bool>) -> (r: Option<FontChoice>)
    ensures
        r == spec_choose_font(loaded@),
{
    match first_set(loaded) {
        Some(i) => Some(FontChoice { index: i, monospace_too: i == 0 }),
        None => None,
    }
}

// ---------------------------------------------------------------------------
// Icons
// ---------------------------------------------------------------------------

/// The tray icon file used: the tray icon when it exists, else the logo when
/// it exists, else none.
pub fn tray_icon_file(tray_icon_exists: bool, logo_exists: bool) -> (r: Option<&'static str>)
    ensures
        tray_icon_exists ==> (r matches Some(p) && p@ == "assets/icons/tray_icon.ico"@),
        !tray_icon_exists && logo_exists ==> (r matches Some(p) && p@ == "assets/icons/logo.ico"@),
        !tray_icon_exists && !logo_exists ==> r is None,
{
    if tray_icon_exists {
        Some("assets/icons/tray_icon.ico")
    } else if logo_exists {
        Some("assets/icons/logo.ico")
    } else {
        None
    }
}

/// The entry of an icon file used for the window: the widest, the last of
/// equally wide ones, as `max_by_key` picks it; none for an empty file.
pub open spec fn spec_widest_entry(widths: Seq<u32>) -> Option<int> {
    if widths.len() == 0 {
        None
    } else {
        Some(choose|k: int| 0 <= k < widths.len()
            && (forall|j: int| 0 <= j < widths.len() ==> widths[j] <= #[trigger] widths[k])
            && (forall|j: int| k < j < widths.len() ==> #[trigger] widths[j] < widths[k]))
    }
}

/// Picks the entry of an icon file used for the window.
pub fn widest_entry(widths: &Vec<u32>) -> (r: Option<usize>)
    ensures
        r is None <==> widths@.len() == 0,
        r matches Some(k) ==> k < widths@.len() && spec_widest_entry(widths@) == Some(k as int),
{
    if widths.len() == 0 {
        return None;
    }
    let mut best: usize = 0;
    let mut i: usize = 1;
    while i < widths.len()
        invariant
            1 <= i <= widths.len(),
            best < i,
            forall|j: int| 0 <= j < i ==> widths@[j] <= #[trigger] widths@[best as int],
            forall|j: int| best < j < i ==> #[trigger] widths@[j] < widths@[best as int],
        decreases widths.len() - i,
    {
        if widths[i] >= widths[best] {
            best = i;
        }
        i = i + 1;
    }
    proof {
        let c = choose|k: int| 0 <= k < widths@.len()
            && (forall|j: int| 0 <= j < widths@.len() ==> widths@[j] <= #[trigger] widths@[k])
            && (forall|j: int| k < j < widths@.len() ==> #[trigger] widths@[j] < widths@[k]);
        assert(0 <= best < widths@.len()
            && (forall|j: int| 0 <= j < widths@.len() ==> widths@[j] <= #[trigger] widths@[best as int])
            && (forall|j: int| best < j < widths@.len() ==> #[trigger] widths@[j] < widths@[best as int]));
        if c < best {
            assert(widths@[best as int] < widths@[c]);
        } else if best < c {
            assert(widths@[c] < widths@[best as int]);
        }
        assert(c == best);
    }
    Some(best)
}

/// Side of the icon drawn when no icon file can be read, in pixels.
pub const ICON_SIZE: u32 = 256;

/// The default icon's pixel at column `x`, row `y` is inside its circle.
pub open spec fn icon_pixel_inside(x: int, y: int) -> bool {
    (x - 128) * (x - 128) + (y - 128) * (y - 128) <= 127 * 127
}

/// Byte `i` of the default icon's RGBA data: pixels inside the circle are
/// opaque blue (30, 144, 255), the others fully transparent black.
pub open spec fn spec_icon_byte(i: int) -> u8 {
    let p = i / 4;
    let c = i % 4;
    if icon_pixel_inside(p % 256, p / 256) {
        if c == 0 { 30u8 } else if c == 1 { 144u8 } else { 255u8 }
    } else {
        0u8
    }
}

/// The RGBA data of the icon drawn when no icon file can be read: a blue disc
/// on a transparent square, row by row.
pub fn default_icon_rgba() -> (r: Vec<u8>)
    ensures
        r@.len() == 256 * 256 * 4,
        forall|i: int| 0 <= i < r@.len() ==> #[trigger] r@[i] == spec_icon_byte(i),
{
    let mut out: Vec<u8> = Vec::new();
    let mut y: i32 = 0;
    while y < 256
        invariant
            0 <= y <= 256,
            out@.len() == (y as int) * 256 * 4,
            forall|i: int| 0 <= i < out@.len() ==> #[trigger] out@[i] == spec_icon_byte(i),
        decreases 256 - y,
    {
        let mut x: i32 = 0;
        while x < 256
            invariant
                0 <= y < 256,
                0 <= x <= 256,
                out@.len() == ((y as int) * 256 + (x as int)) * 4,
                forall|i: int| 0 <= i < out@.len() ==> #[trigger] out@[i] == spec_icon_byte(i),
            decreases 256 - x,
        {
            let dx: i32 = x - 128;
            let dy: i32 = y - 128;
            assert(-128 <= dx < 128 && -128 <= dy < 128);
            assert(dx * dx <= 16384) by (nonlinear_arith)
                requires
                    -128 <= dx < 128,
            ;
            assert(dy * dy <= 16384) by (nonlinear_arith)
                requires
                    -128 <= dy < 128,
            ;
            assert(dx * dx >= 0 && dy * dy >= 0) by (nonlinear_arith);
            let dist: i32 = dx * dx + dy * dy;
            let inside = dist <= 127 * 127;
            let ghost base = out@.len() as int;
            let ghost p = (y as int) * 256 + (x as int);
            assert(base == p * 4);
            assert(icon_pixel_inside(x as int, y as int) == inside);
            assert forall|c: int| 0 <= c < 4 implies (#[trigger] ((p * 4 + c) / 4)) == p && (p * 4 + c) % 4 == c by {}
            assert(p % 256 == x as int && p / 256 == y as int);
            if inside {
                out.push(30);
                out.push(144);
                out.push(255);
                out.push(255);
            } else {
                out.push(0);
                out.push(0);
                out.push(0);
                out.push(0);
            }
            assert forall|i: int| 0 <= i < out@.len() implies #[trigger] out@[i] == spec_icon_byte(i) by {
                if i >= base {
                    let c = i - base;
                    assert(i == p * 4 + c);
                    assert(i / 4 == p);
                    assert(i % 4 == c);
                }
            }
            x = x + 1;
        }
        y = y + 1;
    }
    out
}

} // verus!
