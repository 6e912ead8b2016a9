use bproc::common::{TRAFFIC_TYPE_ALL, TRAFFIC_TYPE_INTERNET, TRAFFIC_TYPE_LOCAL};
use bproc::traffic::{is_ipv4_local, is_ipv6_local, should_throttle_ip_packet};

fn classify(packet: &[u8], ingress: bool, traffic_type: u8) -> bool {
    should_throttle_ip_packet(traffic_type, ingress, packet)
}

#[test]
fn ipv4_uses_remote_endpoint_in_each_direction() {
    for remote in [[8, 8, 8, 8], [192, 168, 1, 2], [172, 32, 0, 1]] {
        for ingress in [false, true] {
            let mut packet = [0u8; 20];
            packet[0] = 0x45;
            let (source, destination) = if ingress {
                (remote, [10, 0, 0, 1])
            } else {
                ([10, 0, 0, 1], remote)
            };
            packet[12..16].copy_from_slice(&source);
            packet[16..20].copy_from_slice(&destination);
            assert_eq!(
                classify(&packet, ingress, TRAFFIC_TYPE_LOCAL),
                is_ipv4_local(&remote)
            );
            assert_eq!(
                classify(&packet, ingress, TRAFFIC_TYPE_INTERNET),
                !is_ipv4_local(&remote)
            );
        }
    }
}

#[test]
fn ipv6_is_not_misread_as_ipv4() {
    for remote in [
        [
            0x20, 1, 0x48, 0x60, 0x48, 0x60, 0, 0, 0, 0, 0, 0, 0, 0, 0x88, 0x88,
        ],
        [0xfd, 0, 0, 0, 0, 0, 0, 0, 0, 0, 0, 0, 0, 0, 0, 1],
        [0xfe, 0x80, 0, 0, 0, 0, 0, 0, 0, 0, 0, 0, 0, 0, 0, 1],
    ] {
        for ingress in [false, true] {
            let mut packet = [0u8; 40];
            packet[0] = 0x60;
            let offset = if ingress { 8 } else { 24 };
            packet[offset..offset + 16].copy_from_slice(&remote);
            assert_eq!(
                classify(&packet, ingress, TRAFFIC_TYPE_LOCAL),
                is_ipv6_local(&remote)
            );
            assert_eq!(
                classify(&packet, ingress, TRAFFIC_TYPE_INTERNET),
                !is_ipv6_local(&remote)
            );
        }
    }
}

#[test]
fn local_address_boundaries() {
    for ip in [
        [10, 0, 0, 1],
        [127, 1, 2, 3],
        [169, 254, 1, 2],
        [172, 16, 0, 1],
        [172, 31, 255, 255],
        [192, 168, 0, 1],
        [0; 4],
        [255; 4],
    ] {
        assert!(is_ipv4_local(&ip));
    }
    for ip in [
        [172, 15, 255, 255],
        [172, 32, 0, 0],
        [192, 169, 0, 1],
        [8, 8, 8, 8],
    ] {
        assert!(!is_ipv4_local(&ip));
    }
    assert!(is_ipv6_local(&[0; 16]));
    let mut loopback = [0; 16];
    loopback[15] = 1;
    assert!(is_ipv6_local(&loopback));
    loopback[15] = 2;
    assert!(!is_ipv6_local(&loopback));
}

#[test]
fn malformed_packets_are_conservatively_throttled() {
    for packet in [
        &[][..],
        &[0x45][..],
        &[0x60][..],
        &[0x30; 40][..],
        &[0x44; 20][..],
    ] {
        for ingress in [false, true] {
            for traffic_type in [
                TRAFFIC_TYPE_ALL,
                TRAFFIC_TYPE_LOCAL,
                TRAFFIC_TYPE_INTERNET,
                255,
            ] {
                assert!(classify(packet, ingress, traffic_type));
            }
        }
    }
}

#[test]
fn all_traffic_is_always_throttled() {
    let mut packet = [0u8; 20];
    packet[0] = 0x45;
    packet[16..20].copy_from_slice(&[8, 8, 8, 8]);
    assert!(classify(&packet, false, TRAFFIC_TYPE_ALL));
    packet[16..20].copy_from_slice(&[10, 0, 0, 1]);
    assert!(classify(&packet, false, TRAFFIC_TYPE_ALL));
}

#[test]
fn unknown_traffic_type_throttles_well_formed_packets() {
    let mut packet = [0u8; 20];
    packet[0] = 0x45;
    packet[16..20].copy_from_slice(&[8, 8, 8, 8]);
    assert!(classify(&packet, false, 7));
}

#[test]
fn ipv4_with_options_header_is_read() {
    let mut packet = [0u8; 24];
    packet[0] = 0x46;
    packet[16..20].copy_from_slice(&[192, 168, 0, 9]);
    assert!(classify(&packet, false, TRAFFIC_TYPE_LOCAL));
    assert!(!classify(&packet, false, TRAFFIC_TYPE_INTERNET));
}
