use bproc::backends::BackendPriority;
use bproc::monitor::{ConnectionEntry, ConnectionMap, SocketOwner};
use bproc::traffic_classifier::{IpAddress, TrafficCategory};
use bproc::windows_poll::{
    adapter_buffer_step, adapter_interface, build_mib_tcprow, collect_connections,
    detect_monitoring_tier, get_interface_for_ip, mac_text, AdapterBufferStep, ByteCounts,
    ConnectionTracker, MonitoringTier, PollError, PollProtocol, WindowsNetworkInterface,
    WindowsPollingMonitor,
};

fn entry(local: IpAddress, lport: u16, remote: IpAddress, rport: u16, inode: u64) -> ConnectionEntry {
    ConnectionEntry {
        local_addr: local,
        local_port: lport,
        remote_addr: remote,
        remote_port: rport,
        inode,
        state: String::from("Established"),
    }
}

fn owner(inode: u64, pid: i32, name: &str) -> SocketOwner {
    SocketOwner { inode, pid, name: String::from(name) }
}

fn ethernet() -> WindowsNetworkInterface {
    WindowsNetworkInterface {
        name: String::from("{guid}"),
        friendly_name: String::from("Ethernet"),
        mac_address: Some(String::from("00:11:22:33:44:55")),
        ip_addresses: vec![IpAddress::v4(192, 168, 1, 10)],
        is_up: true,
        is_loopback: false,
    }
}

fn one_connection_map() -> ConnectionMap {
    let mut map = ConnectionMap::new();
    map.socket_to_pid.push(owner(1, 100, "firefox"));
    map.tcp_connections.push(entry(
        IpAddress::v4(192, 168, 1, 10),
        5000,
        IpAddress::v4(8, 8, 8, 8),
        443,
        1,
    ));
    map
}

#[test]
fn tier_needs_elevation_and_statistics() {
    assert_eq!(detect_monitoring_tier(true, true), MonitoringTier::Stats);
    assert_eq!(detect_monitoring_tier(true, false), MonitoringTier::Basic);
    assert_eq!(detect_monitoring_tier(false, true), MonitoringTier::Basic);
    assert_eq!(detect_monitoring_tier(false, false), MonitoringTier::Basic);
}

#[test]
fn monitor_identity_follows_tier() {
    let stats = WindowsPollingMonitor::new(true, true);
    assert_eq!(stats.name(), "windows-poll-stats");
    assert_eq!(stats.priority(), BackendPriority::Good);
    assert!(stats.capabilities().per_process);
    let basic = WindowsPollingMonitor::new(false, false);
    assert_eq!(basic.name(), "windows-poll-basic");
    assert_eq!(basic.priority(), BackendPriority::Fallback);
    assert!(!basic.capabilities().per_connection);
    assert!(basic.capabilities().ipv6_support);
    assert_eq!(basic.tier(), MonitoringTier::Basic);
}

#[test]
fn tcp_row_swaps_bytes() {
    let row = build_mib_tcprow(
        &IpAddress::v4(192, 168, 1, 10),
        443,
        &IpAddress::v4(8, 8, 8, 9),
        51000,
    )
    .unwrap();
    assert_eq!(row.state, 0);
    assert_eq!(row.local_addr, 0x0A01_A8C0);
    assert_eq!(row.local_port, 0xBB01);
    assert_eq!(row.remote_addr, 0x0908_0808);
    assert_eq!(row.remote_port, 0x38C7);
    let v6 = IpAddress::v6([0x2001, 0xdb8, 0, 0, 0, 0, 0, 1]);
    assert!(build_mib_tcprow(&v6, 1, &IpAddress::v4(1, 1, 1, 1), 2).is_none());
}

#[test]
fn interface_is_found_by_address() {
    let ifaces = vec![ethernet()];
    assert_eq!(
        get_interface_for_ip(&IpAddress::v4(192, 168, 1, 10), &ifaces),
        Some(String::from("Ethernet"))
    );
    assert_eq!(get_interface_for_ip(&IpAddress::v4(10, 0, 0, 1), &ifaces), None);
}

#[test]
fn later_socket_with_same_key_replaces_earlier() {
    let owners = vec![owner(1, 100, "a"), owner(2, 200, "b")];
    let local = IpAddress::v4(10, 0, 0, 1);
    let remote = IpAddress::v4(1, 2, 3, 4);
    let entries = vec![entry(local, 1000, remote, 80, 1), entry(local, 1000, remote, 80, 2)];
    let conns = collect_connections(&owners, &entries, PollProtocol::Tcp);
    assert_eq!(conns.len(), 1);
    assert_eq!(conns[0].pid, 200);
    assert_eq!(conns[0].process_name, "b");
    assert_eq!(conns[0].bytes_sent, 0);
    assert_eq!(conns[0].key.protocol, PollProtocol::Tcp);
}

#[test]
fn first_round_counts_no_lifetime_bytes_second_round_counts_deltas() {
    let mut tracker = ConnectionTracker::new(MonitoringTier::Stats);
    tracker.cached_interfaces.push(ethernet());

    let (earlier_tcp, earlier_tcp6) = tracker.update_connection_list(one_connection_map());
    assert!(earlier_tcp.is_empty());
    let samples = vec![Some((1000u64, 200u64))];
    tracker
        .update_connection_stats(&earlier_tcp, &earlier_tcp6, &samples, &Vec::new(), true)
        .unwrap();
    let p = &tracker.process_bandwidth[0];
    assert_eq!(p.pid, 100);
    assert_eq!(p.name, "firefox");
    assert_eq!(p.connection_count, 1);
    assert_eq!(p.sums.rx, 1000);
    assert_eq!(p.sums.tx, 200);
    assert_eq!(p.lifetime.rx, 0);
    assert_eq!(tracker.tcp_connections[0].bytes_received, 1000);
    assert_eq!(tracker.tcp_connections[0].bytes_sent, 200);
    assert!(tracker.interface_bandwidth.is_empty());

    let (earlier_tcp, earlier_tcp6) = tracker.update_connection_list(one_connection_map());
    assert_eq!(earlier_tcp[0].bytes_received, 1000);
    let samples = vec![Some((1500u64, 260u64))];
    tracker
        .update_connection_stats(&earlier_tcp, &earlier_tcp6, &samples, &Vec::new(), true)
        .unwrap();
    let p = &tracker.process_bandwidth[0];
    assert_eq!(p.sums.rx, 1500);
    assert_eq!(p.sums.internet_rx, 1500);
    assert_eq!(p.lifetime.rx, 500);
    assert_eq!(p.lifetime.tx, 60);
    assert_eq!(p.lifetime.internet_rx, 500);
    assert_eq!(p.lifetime.local_rx, 0);
    assert_eq!(p.deltas.rx, 500);
    assert_eq!(p.deltas.tx, 60);
    assert_eq!(p.last_lifetime, p.lifetime);
    assert_eq!(tracker.interface_bandwidth[0].name, "Ethernet");
    assert_eq!(tracker.interface_bandwidth[0].lifetime_rx_bytes, 500);
    assert_eq!(tracker.interface_bandwidth[0].rx_delta, 500);
    assert_eq!(tracker.interface_bandwidth[0].tx_delta, 60);
    let pair = &tracker.process_interface_bandwidth[0];
    assert_eq!(pair.pid, 100);
    assert_eq!(pair.interface, "Ethernet");
    assert_eq!(pair.bytes.rx, 500);
    assert_eq!(pair.bytes.internet_tx, 60);
    assert_eq!(pair.last, pair.bytes);

    let report = tracker.report();
    assert_eq!(report.processes.len(), 1);
    assert_eq!(report.processes[0].deltas.rx, 500);
    assert_eq!(report.processes[0].lifetime.tx, 60);
    assert_eq!(report.processes[0].interfaces.len(), 1);
    assert_eq!(report.processes[0].interfaces[0].interface, "Ethernet");
    assert_eq!(report.processes[0].interfaces[0].total_download, 500);
    assert_eq!(report.processes[0].interfaces[0].since_last, ByteCounts::zero());
    assert_eq!(report.interfaces.len(), 1);
    assert_eq!(report.interfaces[0].name, "Ethernet");
    assert_eq!(report.interfaces[0].rx_delta, 500);
    assert_eq!(report.interfaces[0].process_count, 1);
}

#[test]
fn round_without_elapsed_time_leaves_rates_zero() {
    let mut tracker = ConnectionTracker::new(MonitoringTier::Stats);
    let (e, e6) = tracker.update_connection_list(one_connection_map());
    tracker.update_connection_stats(&e, &e6, &vec![Some((10, 10))], &Vec::new(), true).unwrap();
    let (e, e6) = tracker.update_connection_list(one_connection_map());
    tracker.update_connection_stats(&e, &e6, &vec![Some((30, 40))], &Vec::new(), false).unwrap();
    let p = &tracker.process_bandwidth[0];
    assert_eq!(p.lifetime.rx, 20);
    assert_eq!(p.lifetime.tx, 30);
    assert_eq!(p.deltas, ByteCounts::zero());
    assert_eq!(p.last_lifetime.rx, 0);
}

#[test]
fn overflowing_round_changes_nothing() {
    let mut tracker = ConnectionTracker::new(MonitoringTier::Stats);
    let mut map = one_connection_map();
    map.tcp_connections.push(entry(
        IpAddress::v4(192, 168, 1, 10),
        5001,
        IpAddress::v4(8, 8, 4, 4),
        443,
        1,
    ));
    let (e, e6) = tracker.update_connection_list(map);
    let samples = vec![Some((u64::MAX, 0)), Some((1, 0))];
    let r = tracker.update_connection_stats(&e, &e6, &samples, &Vec::new(), true);
    assert_eq!(r, Err(PollError::CounterOverflow));
    assert!(tracker.process_bandwidth.is_empty());
    assert_eq!(tracker.tcp_connections[0].bytes_received, 0);
}

#[test]
fn basic_report_lists_owners_once() {
    let mut tracker = ConnectionTracker::new(MonitoringTier::Basic);
    let mut map = one_connection_map();
    map.socket_to_pid.push(owner(2, 100, "firefox-2"));
    map.udp_connections.push(entry(
        IpAddress::v4(0, 0, 0, 0),
        53,
        IpAddress::v4(0, 0, 0, 0),
        0,
        2,
    ));
    tracker.update_connection_list(map);
    let report = tracker.report();
    assert_eq!(report.processes.len(), 1);
    assert_eq!(report.processes[0].pid, 100);
    assert_eq!(report.processes[0].name, "firefox");
    assert_eq!(report.processes[0].lifetime, ByteCounts::zero());
    assert!(report.interfaces.is_empty());
}

#[test]
fn down_interfaces_are_not_reported() {
    let mut tracker = ConnectionTracker::new(MonitoringTier::Stats);
    let mut down = ethernet();
    down.is_up = false;
    tracker.cached_interfaces.push(down);
    let mut no_ip = ethernet();
    no_ip.ip_addresses.clear();
    tracker.cached_interfaces.push(no_ip);
    assert!(tracker.report().interfaces.is_empty());
}

#[test]
fn adapter_fields_are_converted() {
    let mac = [0x00, 0x1a, 0x2b, 0x3c, 0x4d, 0x5e, 0, 0];
    assert_eq!(mac_text(&mac), "00:1a:2b:3c:4d:5e");
    let iface = adapter_interface(
        Some(String::from("{abc}")),
        None,
        &mac,
        6,
        vec![IpAddress::v4(10, 0, 0, 2)],
        1,
        24,
    );
    assert_eq!(iface.name, "{abc}");
    assert_eq!(iface.friendly_name, "{abc}");
    assert_eq!(iface.mac_address, Some(String::from("00:1a:2b:3c:4d:5e")));
    assert!(iface.is_up);
    assert!(iface.is_loopback);
    let unnamed = adapter_interface(None, Some(String::from("Wi-Fi")), &mac, 0, Vec::new(), 2, 71);
    assert_eq!(unnamed.name, "Unknown");
    assert_eq!(unnamed.friendly_name, "Wi-Fi");
    assert_eq!(unnamed.mac_address, None);
    assert!(!unnamed.is_up);
    assert!(!unnamed.is_loopback);
}

#[test]
fn adapter_buffer_is_grown_three_times_at_most() {
    assert_eq!(adapter_buffer_step(0, 0), AdapterBufferStep::Done);
    assert_eq!(adapter_buffer_step(111, 0), AdapterBufferStep::Grow);
    assert_eq!(adapter_buffer_step(111, 2), AdapterBufferStep::Grow);
    assert_eq!(adapter_buffer_step(111, 3), AdapterBufferStep::Fail(111));
    assert_eq!(adapter_buffer_step(87, 0), AdapterBufferStep::Fail(87));
}

#[test]
fn local_traffic_goes_to_local_totals() {
    let mut tracker = ConnectionTracker::new(MonitoringTier::Stats);
    let mut map = ConnectionMap::new();
    map.socket_to_pid.push(owner(7, 300, "sync"));
    map.tcp_connections.push(entry(
        IpAddress::v4(192, 168, 1, 10),
        6000,
        IpAddress::v4(192, 168, 1, 20),
        22,
        7,
    ));
    let (e, e6) = tracker.update_connection_list(map.clone());
    tracker.update_connection_stats(&e, &e6, &vec![Some((5, 5))], &Vec::new(), true).unwrap();
    let (e, e6) = tracker.update_connection_list(map);
    tracker.update_connection_stats(&e, &e6, &vec![Some((9, 6))], &Vec::new(), true).unwrap();
    let p = &tracker.process_bandwidth[0];
    assert_eq!(p.lifetime.local_rx, 4);
    assert_eq!(p.lifetime.local_tx, 1);
    assert_eq!(p.lifetime.internet_rx, 0);
    let _ = TrafficCategory::Local;
}
