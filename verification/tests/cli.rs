use bproc::backends::BackendPriority;
use bproc::cli::{
    backend_status_line, cli_limit, key_action, monitoring_status, next_modes,
    parse_bandwidth_limit_parts, toggle_all_interfaces, toggle_interface_filter, CliError, KeyAction,
    KeyCode, KeyPress, LimitError, LimitParts, ViewModes,
};
use bproc::process::TrafficType;

fn scaled(s: &str) -> (String, u64) {
    match parse_bandwidth_limit_parts(s) {
        Ok(LimitParts::Scaled { number, multiplier }) => (number, multiplier),
        other => panic!("unexpected {:?}", other),
    }
}

#[test]
fn limits_with_units() {
    assert_eq!(scaled("1M"), (String::from("1"), 1_048_576));
    assert_eq!(scaled(" 500k "), (String::from("500"), 1024));
    assert_eq!(scaled("1.5MB"), (String::from("1.5"), 1_048_576));
    assert_eq!(scaled("2g"), (String::from("2"), 1_073_741_824));
    assert_eq!(scaled("10KB"), (String::from("10"), 1024));
}

#[test]
fn plain_limits_are_bytes() {
    match parse_bandwidth_limit_parts("2048") {
        Ok(LimitParts::Bytes(b)) => assert_eq!(b, 2048),
        other => panic!("unexpected {:?}", other),
    }
    match parse_bandwidth_limit_parts("abc") {
        Err(LimitError::InvalidLimit(t)) => assert_eq!(t, "ABC"),
        other => panic!("unexpected {:?}", other),
    }
    match parse_bandwidth_limit_parts("99999999999999999999") {
        Err(LimitError::InvalidLimit(t)) => assert_eq!(t, "99999999999999999999"),
        other => panic!("unexpected {:?}", other),
    }
}

#[test]
fn a_limit_is_required() {
    assert_eq!(cli_limit(None, None), Err(CliError::NoLimit));
    let l = cli_limit(Some(1000), None).unwrap();
    assert_eq!(l.download_limit, Some(1000));
    assert_eq!(l.upload_limit, None);
    assert_eq!(l.traffic_type, TrafficType::All);
}

#[test]
fn backend_lines_pad_names() {
    assert_eq!(
        backend_status_line("tc_htb", BackendPriority::Good, true),
        "  tc_htb               [priority: Good] ✅ available"
    );
    assert_eq!(
        backend_status_line("a_very_long_backend_name", BackendPriority::Fallback, false),
        "  a_very_long_backend_name [priority: Fallback] ❌ unavailable"
    );
}

#[test]
fn status_after_update() {
    assert_eq!(monitoring_status("Throttle applied", 3), "Throttle applied");
    assert_eq!(monitoring_status("Failed to apply", 3), "Failed to apply");
    assert_eq!(
        monitoring_status("Ready", 12),
        "Monitoring 12 process(es) with network activity"
    );
}

fn key(code: KeyCode) -> KeyPress {
    KeyPress { code, ctrl: false }
}

const MAIN: ViewModes = ViewModes {
    show_help: false,
    show_backend_info: false,
    show_graph: false,
    show_throttle_dialog: false,
    show_interfaces: false,
    traffic_view: TrafficType::All,
};

#[test]
fn main_view_keys() {
    assert_eq!(key_action(&MAIN, &key(KeyCode::Char('q'))), KeyAction::Quit);
    assert_eq!(key_action(&MAIN, &key(KeyCode::Esc)), KeyAction::Quit);
    assert_eq!(key_action(&MAIN, &key(KeyCode::Char('?'))), KeyAction::ShowHelp);
    assert_eq!(key_action(&MAIN, &key(KeyCode::Char('j'))), KeyAction::SelectNext);
    assert_eq!(key_action(&MAIN, &key(KeyCode::Up)), KeyAction::SelectPrevious);
    assert_eq!(key_action(&MAIN, &key(KeyCode::Char('t'))), KeyAction::OpenThrottleDialog);
    assert_eq!(key_action(&MAIN, &key(KeyCode::Char('r'))), KeyAction::RemoveThrottle);
    assert_eq!(key_action(&MAIN, &key(KeyCode::Char('x'))), KeyAction::Ignore);
}

#[test]
fn overlays_take_keys_first() {
    let help = ViewModes { show_help: true, ..MAIN };
    assert_eq!(key_action(&help, &key(KeyCode::Char('q'))), KeyAction::CloseHelp);
    let info = ViewModes { show_backend_info: true, ..MAIN };
    assert_eq!(key_action(&info, &key(KeyCode::Char('b'))), KeyAction::CloseBackendInfo);
    assert_eq!(key_action(&info, &key(KeyCode::Char('x'))), KeyAction::Ignore);
    let dialog = ViewModes { show_throttle_dialog: true, ..MAIN };
    assert_eq!(key_action(&dialog, &key(KeyCode::Char('7'))), KeyAction::DialogDigit('7'));
    assert_eq!(key_action(&dialog, &key(KeyCode::Char('q'))), KeyAction::Ignore);
    assert_eq!(key_action(&dialog, &key(KeyCode::Enter)), KeyAction::ApplyThrottle);
    let ctrl_c = KeyPress { code: KeyCode::Char('c'), ctrl: true };
    assert_eq!(key_action(&dialog, &ctrl_c), KeyAction::Quit);
}

#[test]
fn overlays_open_and_close() {
    let m = next_modes(&MAIN, KeyAction::ShowHelp, false);
    assert!(m.show_help);
    let m = next_modes(&m, KeyAction::CloseHelp, false);
    assert_eq!(m, MAIN);
    assert_eq!(next_modes(&MAIN, KeyAction::OpenThrottleDialog, false), MAIN);
    assert!(next_modes(&MAIN, KeyAction::OpenThrottleDialog, true).show_throttle_dialog);
    let g = next_modes(&MAIN, KeyAction::ToggleGraph, false);
    assert!(g.show_graph);
    assert!(!next_modes(&g, KeyAction::ToggleGraph, false).show_graph);
}

#[test]
fn interface_and_traffic_view_keys() {
    assert_eq!(key_action(&MAIN, &key(KeyCode::Char('i'))), KeyAction::ToggleInterfaceView);
    assert_eq!(key_action(&MAIN, &key(KeyCode::Char('l'))), KeyAction::CycleTrafficView);
    // Interface-list keys do nothing in the process list.
    assert_eq!(key_action(&MAIN, &key(KeyCode::Enter)), KeyAction::Ignore);
    assert_eq!(key_action(&MAIN, &key(KeyCode::Char(' '))), KeyAction::Ignore);
    let ifaces = next_modes(&MAIN, KeyAction::ToggleInterfaceView, false);
    assert!(ifaces.show_interfaces);
    assert_eq!(key_action(&ifaces, &key(KeyCode::Enter)), KeyAction::ViewInterfaceDetails);
    assert_eq!(key_action(&ifaces, &key(KeyCode::Char(' '))), KeyAction::ToggleInterfaceFilter);
    assert_eq!(key_action(&ifaces, &key(KeyCode::Char('A'))), KeyAction::ToggleAllInterfaces);
    let m1 = next_modes(&MAIN, KeyAction::CycleTrafficView, false);
    assert_eq!(m1.traffic_view, TrafficType::Internet);
    let m2 = next_modes(&m1, KeyAction::CycleTrafficView, false);
    assert_eq!(m2.traffic_view, TrafficType::Local);
    assert_eq!(next_modes(&m2, KeyAction::CycleTrafficView, false).traffic_view, TrafficType::All);
}

#[test]
fn interface_filter_toggles() {
    let all = vec!["eth0".to_string(), "wlan0".to_string(), "lo".to_string()];
    // No filter: hiding wlan0 keeps the others.
    assert_eq!(toggle_interface_filter(&None, &all, "wlan0"), Some(vec!["eth0".to_string(), "lo".to_string()]));
    // Showing it again adds it back.
    let f = Some(vec!["eth0".to_string()]);
    assert_eq!(toggle_interface_filter(&f, &all, "lo"), Some(vec!["eth0".to_string(), "lo".to_string()]));
    assert_eq!(toggle_all_interfaces(&None), Some(Vec::new()));
    assert_eq!(toggle_all_interfaces(&f), None);
}
