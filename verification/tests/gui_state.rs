use turbogithub::ipc::ServiceRequest;
use turbogithub::gui::{choose_font, default_icon_rgba, tray_icon_file, widest_entry, FontChoice};
use turbogithub::gui::{
    add_log, apply_polled_traffic, complete_pairs, core_launch, core_paths, fallback_fonts, font_name,
    frame_window_step, initial_frame_state, on_tray_event, repaint_due, shown_logs, toggle_service, CoreLaunch,
    PointFields, TrafficMonitor, TrayEvent, WindowCommand, PRIMARY_FONT_NAME, PRIMARY_FONT_PATH,
};

#[test]
fn totals_become_deltas_at_most_once_a_second() {
    let mut m = TrafficMonitor::new(3, 10_000);
    m.add_traffic(500, 900, 10_500, 1);
    assert!(m.get_all_data().is_empty());
    m.add_traffic(500, 900, 11_000, 2);
    m.add_traffic(800, 850, 12_500, 3);
    let d = m.get_all_data();
    assert_eq!(d.len(), 2);
    assert_eq!((d[0].upload_bytes, d[0].download_bytes, d[0].timestamp), (500, 900, 2));
    assert_eq!((d[1].upload_bytes, d[1].download_bytes, d[1].timestamp), (300, 0, 3));
    assert_eq!(m.get_total_traffic(), (800, 900));
}

#[test]
fn the_chart_keeps_the_newest_samples() {
    let mut m = TrafficMonitor::new(2, 0);
    m.add_delta_traffic(1, 10, 100);
    m.add_delta_traffic(2, 20, 101);
    m.add_delta_traffic(3, 30, 102);
    let d = m.get_all_data();
    assert_eq!(d.len(), 2);
    assert_eq!(d[0].upload_bytes, 2);
    assert_eq!(d[1].download_bytes, 30);
    let mut z = TrafficMonitor::new(0, 0);
    z.add_delta_traffic(1, 1, 1);
    z.add_delta_traffic(2, 2, 2);
    assert_eq!(z.get_all_data().len(), 1);
    assert_eq!(z.get_all_data()[0].upload_bytes, 2);
}

#[test]
fn polled_traffic_prefers_the_network_section() {
    let net = vec![
        PointFields { upload: Some(5), download: Some(6) },
        PointFields { upload: None, download: Some(1) },
        PointFields { upload: Some(7), download: Some(8) },
    ];
    let dns = vec![PointFields { upload: Some(100), download: Some(100) }];
    assert_eq!(complete_pairs(&net), vec![(5, 6), (7, 8)]);
    let mut m = TrafficMonitor::new(10, 0);
    let added = apply_polled_traffic(&mut m, Some(net), Some(dns.clone()), 42);
    assert_eq!(added, vec![(5, 6), (7, 8)]);
    assert_eq!(m.get_total_traffic(), (12, 14));
    let added_dns = apply_polled_traffic(&mut m, None, Some(dns), 43);
    assert_eq!(added_dns, vec![(100, 100)]);
    assert!(apply_polled_traffic(&mut m, None, None, 44).is_empty());
    assert_eq!(m.get_all_data().len(), 3);
}

#[test]
fn the_log_keeps_a_hundred_lines_and_shows_twenty_newest_first() {
    let mut logs = Vec::new();
    for i in 0..105 {
        add_log(&mut logs, format!("line {}", i));
    }
    assert_eq!(logs.len(), 100);
    assert_eq!(logs[0], "line 5");
    let shown = shown_logs(&logs);
    assert_eq!(shown.len(), 20);
    assert_eq!(shown[0], "line 104");
    assert_eq!(shown[19], "line 85");
    assert_eq!(shown_logs(&vec!["a".to_string()]), vec!["a".to_string()]);
}

#[test]
fn frames_follow_the_visibility_flag() {
    let mut s = initial_frame_state();
    let first = frame_window_step(&mut s, true, false);
    assert_eq!(first.commands, vec![WindowCommand::Configure]);
    assert!(first.should_be_visible);
    let hide = frame_window_step(&mut s, false, false);
    assert_eq!(hide.commands, vec![WindowCommand::Hide]);
    assert!(!s.window_visible);
    let show = frame_window_step(&mut s, true, false);
    assert_eq!(show.commands, vec![WindowCommand::Show]);
    let close = frame_window_step(&mut s, true, true);
    assert_eq!(close.commands, vec![WindowCommand::Hide, WindowCommand::CancelClose]);
    assert!(!close.should_be_visible);
    assert!(!s.window_visible);
    assert!(repaint_due(&s, 1001));
    assert!(!repaint_due(&s, 1000));
}

#[test]
fn the_service_button_toggles() {
    let mut s = initial_frame_state();
    assert_eq!(toggle_service(&mut s), ServiceRequest::Stop);
    assert!(!s.service_running);
    assert_eq!(toggle_service(&mut s), ServiceRequest::Start);
    assert!(s.service_running);
}

#[test]
fn tray_events() {
    let show = on_tray_event(TrayEvent::ShowWindow);
    assert!(show.show_window && !show.exit);
    let quit = on_tray_event(TrayEvent::Quit);
    assert!(quit.exit && !quit.show_window);
}

#[test]
fn the_daemon_is_launched_only_when_not_running() {
    assert_eq!(core_launch("turbogithub-core.exe  4242 Console", &vec![true; 5]), CoreLaunch::AlreadyRunning);
    assert_eq!(core_launch("INFO: No tasks", &vec![false, false, true, true, false]), CoreLaunch::Launch(2));
    assert_eq!(core_launch("", &vec![false; 5]), CoreLaunch::NotFound);
    assert_eq!(core_paths()[2], "target/debug/turbogithub-core.exe");
}

#[test]
fn fallback_fonts_are_named_by_file() {
    assert_eq!(PRIMARY_FONT_PATH, "C:\\Windows\\Fonts\\msyh.ttc");
    assert_eq!(PRIMARY_FONT_NAME, "MicrosoftYaHei");
    let names: Vec<&str> = fallback_fonts().into_iter().map(font_name).collect();
    assert_eq!(names, vec!["SimHei", "SimSun", "MicrosoftYaHeiBold"]);
    assert_eq!(font_name("C:\\fonts\\other.ttf"), "ChineseFont");
}

#[test]
fn font_choice_prefers_the_first_readable() {
    assert_eq!(choose_font(&vec![true, true, true, true]), Some(FontChoice { index: 0, monospace_too: true }));
    assert_eq!(choose_font(&vec![false, false, true, true]), Some(FontChoice { index: 2, monospace_too: false }));
    assert_eq!(choose_font(&vec![false; 4]), None);
}

#[test]
fn icons_fall_back_in_order() {
    assert_eq!(tray_icon_file(true, true), Some("assets/icons/tray_icon.ico"));
    assert_eq!(tray_icon_file(false, true), Some("assets/icons/logo.ico"));
    assert_eq!(tray_icon_file(false, false), None);
    assert_eq!(widest_entry(&vec![16, 256, 32, 256, 48]), Some(3));
    assert_eq!(widest_entry(&vec![]), None);
}

#[test]
fn default_icon_is_a_blue_disc() {
    let rgba = default_icon_rgba();
    assert_eq!(rgba.len(), 256 * 256 * 4);
    let px = |x: usize, y: usize| &rgba[(y * 256 + x) * 4..(y * 256 + x) * 4 + 4];
    assert_eq!(px(128, 128), &[30, 144, 255, 255]);
    assert_eq!(px(0, 0), &[0, 0, 0, 0]);
    assert_eq!(px(255, 128), &[30, 144, 255, 255]);
    assert_eq!(px(128, 0), &[0, 0, 0, 0]);
    assert_eq!(px(1, 128), &[30, 144, 255, 255]);
}
