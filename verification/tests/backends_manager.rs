use bproc::backends::{
    best_available, create_download_backend, create_upload_backend, detect_download_backends,
    detect_upload_backends, priority_rank, select_download_backend, select_upload_backend,
    BackendError, BackendPriority, DownloadBackendKind, DownloadOffer, UploadBackendKind,
    UploadOffer,
};
use bproc::config::{default_auto_restore, Config, SavedThrottle};
use bproc::manager::{ManagerError, ThrottleManager};
use bproc::process::{ThrottleLimit, TrafficType};

fn offer() -> UploadOffer {
    UploadOffer { ebpf: Some(false), nftables: Some(true), tc_htb: Some(true), dnctl: None }
}

#[test]
fn upload_backends_are_listed_in_order() {
    let list = detect_upload_backends(&offer());
    let names: Vec<&str> = list.iter().map(|b| b.name.as_str()).collect();
    assert_eq!(names, vec!["ebpf", "nftables", "tc_htb"]);
    assert_eq!(list[0].priority, BackendPriority::Best);
    assert!(!list[0].available);
    assert_eq!(list[1].priority, BackendPriority::Better);
}

#[test]
fn download_backends_are_listed_in_order() {
    let o = DownloadOffer {
        ebpf: None,
        nftables: None,
        ifb_tc: Some(true),
        tc_police: Some(true),
        dnctl: None,
    };
    let list = detect_download_backends(&o);
    let names: Vec<&str> = list.iter().map(|b| b.name.as_str()).collect();
    assert_eq!(names, vec!["ifb_tc", "tc_police"]);
    assert_eq!(list[1].priority, BackendPriority::Fallback);
}

#[test]
fn the_best_available_backend_is_selected() {
    assert_eq!(select_upload_backend(None, &offer()), Some(String::from("nftables")));
    assert_eq!(select_upload_backend(Some("tc_htb"), &offer()), Some(String::from("tc_htb")));
    // A preference that cannot be created selects nothing.
    assert_eq!(select_upload_backend(Some("bogus"), &offer()), None);
    assert_eq!(select_upload_backend(Some("dnctl"), &offer()), None);
    let none_available = UploadOffer { ebpf: Some(false), nftables: None, tc_htb: Some(false), dnctl: None };
    assert_eq!(select_upload_backend(None, &none_available), None);
    let downloads = DownloadOffer {
        ebpf: None,
        nftables: None,
        ifb_tc: Some(false),
        tc_police: Some(true),
        dnctl: None,
    };
    assert_eq!(select_download_backend(None, &downloads), Some(String::from("tc_police")));
}

#[test]
fn nftables_download_is_listed_but_never_available() {
    let o = DownloadOffer { ebpf: None, nftables: Some(true), ifb_tc: Some(false), tc_police: Some(false), dnctl: None };
    let list = detect_download_backends(&o);
    assert_eq!(list[0].name, "nftables");
    assert!(!list[0].available);
    assert_eq!(select_download_backend(None, &o), None);
    let mut m = ThrottleManager::new(None, None);
    assert!(m.set_default_download_backend("nftables", &list).is_err());
    assert_eq!(m.backend_names().1, None);
}

#[test]
fn compatible_backends_come_from_detection() {
    let m = ThrottleManager::new(None, None);
    assert_eq!(m.find_compatible_upload_backends(TrafficType::All, &offer()), vec!["nftables", "tc_htb"]);
    assert!(m.find_compatible_upload_backends(TrafficType::Local, &offer()).is_empty());
    let o = DownloadOffer { ebpf: None, nftables: Some(true), ifb_tc: Some(true), tc_police: Some(true), dnctl: None };
    assert_eq!(m.find_compatible_download_backends(TrafficType::All, &o), vec!["ifb_tc", "tc_police"]);
}

#[test]
fn cleanup_reports_failed_backends() {
    let m = ThrottleManager::new(Some("tc_htb".to_string()), Some("ifb_tc".to_string()));
    let (ups, downs) = m.cleanup();
    assert_eq!(ups, vec!["tc_htb"]);
    assert_eq!(downs, vec!["ifb_tc"]);
    assert!(m.cleanup_result(&vec![true], &vec![true]).is_ok());
    assert_eq!(m.cleanup_result(&vec![true], &vec![false]), Err(vec!["ifb_tc".to_string()]));
}

#[test]
fn ties_go_to_the_last_backend() {
    let c = vec![
        (BackendPriority::Good, true),
        (BackendPriority::Best, true),
        (BackendPriority::Best, true),
        (BackendPriority::Best, false),
    ];
    assert_eq!(best_available(&c), Some(2));
    assert_eq!(best_available(&Vec::new()), None);
    assert!(priority_rank(BackendPriority::Best) > priority_rank(BackendPriority::Better));
}

#[test]
fn backends_are_created_by_name() {
    assert_eq!(create_upload_backend("tc_htb", &offer()).ok(), Some(UploadBackendKind::TcHtb));
    match create_upload_backend("dnctl", &offer()) {
        Err(BackendError::Unknown(n)) => assert_eq!(n, "dnctl"),
        other => panic!("unexpected {:?}", other),
    }
    let o = DownloadOffer {
        ebpf: Some(true),
        nftables: None,
        ifb_tc: None,
        tc_police: None,
        dnctl: None,
    };
    assert_eq!(create_download_backend("ebpf", &o).ok(), Some(DownloadBackendKind::Ebpf));
}

fn limit(up: Option<u64>, down: Option<u64>) -> ThrottleLimit {
    ThrottleLimit { upload_limit: up, download_limit: down, traffic_type: TrafficType::All }
}

#[test]
fn manager_plans_and_records_throttles() {
    let mut m = ThrottleManager::new(Some(String::from("tc_htb")), None);
    let plan = m.throttle_process(42, String::from("curl"), &limit(Some(1000), Some(2000))).unwrap();
    assert_eq!(plan.upload, Some((String::from("tc_htb"), 1000)));
    assert_eq!(plan.download, None);
    m.record_upload_throttle(42, String::from("tc_htb"));
    assert_eq!(m.throttle_backends(42), (Some(String::from("tc_htb")), None));
    assert_eq!(m.get_pids_for_backend("tc_htb"), vec![42]);
    let t = m.get_throttle(42, Some(1000), None).unwrap();
    assert_eq!(t.process_name, "curl");
    assert_eq!(t.upload_limit, Some(1000));
    assert!(m.get_throttle(42, None, None).is_none());
    assert_eq!(m.remove_throttle(42), (Some(String::from("tc_htb")), None));
    assert_eq!(m.throttle_backends(42), (None, None));
}

#[test]
fn manager_refuses_limits_without_backends() {
    let mut m = ThrottleManager::new(None, None);
    match m.throttle_process(1, String::from("x"), &limit(Some(5), None)) {
        Err(ManagerError::NoBackendsAvailable) => {}
        other => panic!("unexpected {:?}", other.map(|p| p.upload)),
    }
    assert!(!m.is_download_throttling_available());
}

#[test]
fn manager_merges_reported_limits() {
    let mut m = ThrottleManager::new(Some(String::from("a")), Some(String::from("b")));
    m.throttle_process(1, String::from("one"), &limit(Some(10), None)).unwrap();
    m.throttle_process(2, String::from("two"), &limit(None, Some(20))).unwrap();
    let all = m.get_all_throttles(&vec![(1, 10), (2, 11)], &vec![(2, 20), (3, 30)]);
    assert_eq!(all.len(), 3);
    assert_eq!((all[0].pid, all[0].upload_limit, all[0].download_limit), (1, Some(10), None));
    assert_eq!((all[1].pid, all[1].upload_limit, all[1].download_limit), (2, Some(11), Some(20)));
    assert_eq!((all[2].pid, all[2].upload_limit, all[2].download_limit), (3, None, Some(30)));
    assert_eq!(all[1].process_name, "two");
    assert_eq!(all[2].process_name, "");
}

#[test]
fn only_all_traffic_is_supported() {
    let m = ThrottleManager::new(Some(String::from("tc_htb")), None);
    assert!(m.current_upload_backend_supports(TrafficType::All));
    assert!(!m.current_upload_backend_supports(TrafficType::Local));
    assert!(!m.current_download_backend_supports(TrafficType::All));
}

#[test]
fn config_defaults_restore_and_hold_throttles() {
    assert!(default_auto_restore());
    let mut config = Config::default();
    assert!(config.auto_restore);
    config.set_throttle(
        1234,
        SavedThrottle {
            process_name: String::from("firefox"),
            upload_limit: Some(1_000_000),
            download_limit: Some(5_000_000),
        },
    );
    assert_eq!(config.get_throttles().len(), 1);
    assert_eq!(config.get_throttles()[&1234].download_limit, Some(5_000_000));
    config.remove_throttle(1234);
    assert!(config.get_throttles().is_empty());
    config.set_throttle(
        7,
        SavedThrottle { process_name: String::from("a"), upload_limit: None, download_limit: None },
    );
    config.clear_throttles();
    assert!(config.get_throttles().is_empty());
}
