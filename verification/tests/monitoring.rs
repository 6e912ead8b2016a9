use bproc::common::{TokenBucket, TRAFFIC_TYPE_ALL, TRAFFIC_TYPE_INTERNET, TRAFFIC_TYPE_LOCAL};
use bproc::egress::{should_throttle_ipv4, should_throttle_packet, token_bucket_allow};
use bproc::keybindings::{get_all_keybindings, get_status_bar_keybindings};
use bproc::monitor::{
    find_all_interfaces, process_connection_map, BandwidthTracker, CaptureCandidate, ConnectionEntry, ConnectionMap, MatchStrategy,
    PacketInfo, Protocol, SocketOwner, TrafficCounters,
};
use bproc::packet::process_packet;
use bproc::process::{ProcessDetails, ProcessInfo};
use bproc::process_utils::{pid_label, LinuxProcessUtils, MacOSProcessUtils, PnetMonitor};
use bproc::traffic_classifier::{IpAddress, TrafficCategory};

fn map() -> ConnectionMap {
    let mut m = ConnectionMap::new();
    m.socket_to_pid.push(SocketOwner { inode: 10, pid: 500, name: String::from("wget") });
    m.tcp_connections.push(ConnectionEntry {
        local_addr: IpAddress::v4(192, 168, 1, 10),
        local_port: 40000,
        remote_addr: IpAddress::v4(1, 1, 1, 1),
        remote_port: 443,
        inode: 10,
        state: String::from("Established"),
    });
    m
}

#[test]
fn token_bucket_refills_and_spends() {
    let mut b = TokenBucket { capacity: 1000, tokens: 100, last_update_ns: 1, rate_bps: 1000 };
    assert!(token_bucket_allow(&mut b, 100, 1));
    assert_eq!(b.tokens, 0);
    assert!(!token_bucket_allow(&mut b, 600, 500_000_001));
    assert_eq!(b.tokens, 500);
    assert!(token_bucket_allow(&mut b, 500, 500_000_001));
    assert_eq!(b.tokens, 0);
    assert!(token_bucket_allow(&mut b, 1000, 10_000_000_001));
    assert_eq!(b.tokens, 0);
    let mut fresh = TokenBucket { capacity: 10, tokens: 10, last_update_ns: 0, rate_bps: 1 };
    assert!(token_bucket_allow(&mut fresh, 4, 77));
    assert_eq!(fresh.tokens, 6);
    assert_eq!(fresh.last_update_ns, 77);
    let _ = TRAFFIC_TYPE_ALL;
}

#[test]
fn counters_record_by_direction_and_category() {
    let mut c = TrafficCounters::zero();
    c.record(true, TrafficCategory::Internet, 100);
    c.record(false, TrafficCategory::Local, 40);
    assert_eq!(c.tx_bytes, 100);
    assert_eq!(c.internet_tx_bytes, 100);
    assert_eq!(c.rx_bytes, 40);
    assert_eq!(c.local_rx_bytes, 40);
    assert_eq!(c.internet_rx_bytes, 0);
}

#[test]
fn captured_frames_are_attributed_to_their_process() {
    let processed = process_connection_map(&map());
    let mut tracker = BandwidthTracker::new();
    tracker.apply_connection_map(processed);
    let mut frame = vec![0u8; 14];
    frame[12] = 0x08;
    let mut ip = vec![0u8; 20];
    ip[0] = 0x45;
    ip[3] = 40;
    ip[9] = 6;
    ip[12..16].copy_from_slice(&[192, 168, 1, 10]);
    ip[16..20].copy_from_slice(&[1, 1, 1, 1]);
    frame.extend_from_slice(&ip);
    let mut tcp = vec![0u8; 20];
    tcp[0] = (40000u16 >> 8) as u8;
    tcp[1] = (40000u16 & 0xff) as u8;
    tcp[3] = 187;
    tcp[2] = 1;
    frame.extend_from_slice(&tcp);
    let info: PacketInfo = process_packet(&frame).unwrap().unwrap();
    assert_eq!(info.protocol, Protocol::Tcp);
    assert_eq!(info.dst_port, 443);
    assert!(tracker.can_record(info.len));
    tracker.track_connection(&info, &String::from("eth0"), MatchStrategy::Basic);
    assert_eq!(tracker.packets_captured, 1);
    assert_eq!(tracker.packets_matched, 1);
    assert_eq!(tracker.process_bandwidth.len(), 1);
    assert_eq!(tracker.process_bandwidth[0].0, 500);
    assert_eq!(tracker.process_bandwidth[0].1.name, "wget");
    assert_eq!(tracker.process_bandwidth[0].1.counters.tx_bytes, 54);
    assert_eq!(tracker.process_bandwidth[0].1.counters.internet_tx_bytes, 54);
    let (pb, terms) = tracker.extract_bandwidth_data();
    let mut other = BandwidthTracker::new();
    other.restore_bandwidth_data(pb, terms);
    assert_eq!(other.process_bandwidth.len(), 1);
    assert_eq!(other.process_bandwidth[0].1.counters.tx_bytes, 54);
}

#[test]
fn unmatched_packets_are_counted() {
    let mut tracker = BandwidthTracker::new();
    let info = PacketInfo {
        src_addr: IpAddress::v4(10, 0, 0, 1),
        src_port: 1,
        dst_addr: IpAddress::v4(10, 0, 0, 2),
        dst_port: 2,
        protocol: Protocol::Udp,
        len: 60,
    };
    tracker.track_connection(&info, &String::from("lo"), MatchStrategy::Extended);
    assert_eq!(tracker.packets_unmatched, 1);
    assert!(tracker.process_bandwidth.is_empty());
}

#[test]
fn connection_map_records_the_last_owner_of_a_socket() {
    let mut m = ConnectionMap::new();
    m.record_socket(7, 1, String::from("parent"));
    m.record_socket(8, 2, String::from("other"));
    m.record_socket(7, 3, String::from("child"));
    assert_eq!(m.socket_to_pid.len(), 2);
    let owner = m.socket_to_pid.iter().find(|o| o.inode == 7).unwrap();
    assert_eq!(owner.pid, 3);
    assert_eq!(owner.name, "child");
}

#[test]
fn process_names_and_labels() {
    let linux = LinuxProcessUtils::new();
    assert_eq!(linux.process_name(5, Some(String::from("bash\n"))), "bash");
    assert_eq!(linux.process_name(5, None), "PID 5");
    let e = linux.process_entry(6, None);
    assert_eq!((e.pid, e.name.as_str()), (6, "PID 6"));
    assert_eq!(pid_label(-3), "PID -3");
    let mac = MacOSProcessUtils::new();
    assert_eq!(mac.process_name(true, None), Some(String::from("unknown")));
    assert_eq!(mac.process_name(false, Some(String::from("x"))), None);
    let pnet = PnetMonitor::new();
    assert_eq!(pnet.name(), "pnet");
    assert!(pnet.capabilities().per_process);
}

#[test]
fn status_file_fields() {
    let status = "Name:\tfirefox\nState:\tS (sleeping)\nPPid:\t1\nThreads:\t42\nVmSize:\t  123456 kB\nVmRSS:\t 2048 kB\nUid:\t1000\t1000\t1000\t1000\nGid:\t100\t100\t100\t100\n";
    let f = ProcessDetails::parse_status(status);
    assert_eq!(f.state, Some(String::from("S")));
    assert_eq!(f.ppid, Some(1));
    assert_eq!(f.threads, Some(42));
    assert_eq!(f.memory_vms, Some(123456));
    assert_eq!(f.memory_rss, Some(2048));
    assert_eq!(f.uid, Some(1000));
    assert_eq!(f.gid, Some(100));
    let g = ProcessDetails::parse_status("PPid:\t7\nPPid:\tx\nState:\n");
    assert_eq!(g.ppid, None);
    assert_eq!(g.state, None);
}

#[test]
fn new_processes_start_without_traffic() {
    let p = ProcessInfo::new(9, String::from("nine"));
    assert_eq!(p.pid, 9);
    assert_eq!(p.total_download, 0);
    assert!(!p.is_throttled());
}

#[test]
fn keybinding_lists() {
    let all = get_all_keybindings();
    assert_eq!(all[0].key, "↑/k");
    assert_eq!(all[0].description, "Move selection up");
    let bar = get_status_bar_keybindings();
    assert_eq!(bar[0], ("↑↓", "Navigate"));
    assert_eq!(bar[1], ("i", "Interfaces"));
}

#[test]
fn bucket_never_passes_more_than_it_was_given() {
    let mut b = TokenBucket { capacity: 1000, tokens: 1000, last_update_ns: 1, rate_bps: 1000 };
    let mut passed: u64 = 0;
    // Start: 1000 tokens; one refill after a second earns 1000 more (capped).
    for (size, t) in [(600u64, 1u64), (600, 1), (300, 1), (600, 1_000_000_001), (600, 1_000_000_001)] {
        if token_bucket_allow(&mut b, size, t) {
            passed += size;
        }
    }
    assert_eq!(passed, 600 + 300 + 600);
    assert!(passed + b.tokens <= 1000 + 1000);
    assert_eq!(b.tokens, 400);
}

#[test]
fn capture_interfaces_are_up_with_an_address() {
    let c = |name: &str, is_up: bool, address_count: usize, all_unspecified: bool| CaptureCandidate {
        name: name.to_string(),
        is_up,
        address_count,
        all_unspecified,
    };
    let ifaces = vec![
        c("lo", true, 1, false),
        c("eth0", true, 2, false),
        c("eth1", false, 1, false),
        c("wlan0", true, 0, true),
        c("npcap0", false, 1, false),
        c("tun0", false, 1, true),
    ];
    assert_eq!(find_all_interfaces(&ifaces, false), vec!["lo", "eth0"]);
    // On Windows the up flag is not trusted; unconfigured addresses are skipped.
    assert_eq!(find_all_interfaces(&ifaces, true), vec!["lo", "eth0", "eth1", "npcap0"]);
}

#[test]
fn bucket_refills_from_elapsed_nanoseconds() {
    let mut b = TokenBucket { capacity: 10_000, tokens: 0, last_update_ns: 1, rate_bps: 1000 };
    // 1.5 s at 1000 B/s earns 1500 tokens.
    assert!(token_bucket_allow(&mut b, 1500, 1_500_000_001));
    assert_eq!(b.tokens, 0);
    assert_eq!(b.last_update_ns, 1_500_000_001);
    // 0.25 ms at 1000 B/s earns no whole token.
    assert!(!token_bucket_allow(&mut b, 1, 1_500_250_001));
}

#[test]
fn egress_reads_the_destination_from_the_ip_header() {
    let mut p = vec![0u8; 40];
    p[0] = 0x45;
    p[16..20].copy_from_slice(&[192, 168, 1, 2]);
    assert!(should_throttle_packet(&p, TRAFFIC_TYPE_LOCAL));
    assert!(!should_throttle_packet(&p, TRAFFIC_TYPE_INTERNET));
    assert!(should_throttle_ipv4(&p, TRAFFIC_TYPE_LOCAL));
    p[16..20].copy_from_slice(&[8, 8, 8, 8]);
    assert!(!should_throttle_packet(&p, TRAFFIC_TYPE_LOCAL));
    assert!(should_throttle_packet(&p, TRAFFIC_TYPE_INTERNET));
    // A truncated header is throttled.
    assert!(should_throttle_packet(&p[..10], TRAFFIC_TYPE_LOCAL));
}
