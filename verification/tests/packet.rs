use bproc::monitor::Protocol;
use bproc::packet::{process_packet, FrameError};
use bproc::traffic_classifier::IpAddress;

fn ipv4_frame(protocol: u8, ihl: u8, total_length: u16, transport: &[u8]) -> Vec<u8> {
    let mut f = vec![0u8; 14];
    f[12] = 0x08;
    f[13] = 0x00;
    let mut ip = vec![0u8; (ihl as usize) * 4];
    ip[0] = 0x40 | ihl;
    ip[2] = (total_length >> 8) as u8;
    ip[3] = (total_length & 0xff) as u8;
    ip[9] = protocol;
    ip[12..16].copy_from_slice(&[192, 168, 1, 10]);
    ip[16..20].copy_from_slice(&[8, 8, 8, 8]);
    f.extend_from_slice(&ip);
    f.extend_from_slice(transport);
    f
}

fn ports(src: u16, dst: u16, len: usize) -> Vec<u8> {
    let mut t = vec![0u8; len];
    t[0] = (src >> 8) as u8;
    t[1] = (src & 0xff) as u8;
    t[2] = (dst >> 8) as u8;
    t[3] = (dst & 0xff) as u8;
    t
}

#[test]
fn tcp_over_ipv4() {
    let f = ipv4_frame(6, 5, 40, &ports(51000, 443, 20));
    let info = process_packet(&f).unwrap().unwrap();
    assert_eq!(info.src_addr, IpAddress::v4(192, 168, 1, 10));
    assert_eq!(info.dst_addr, IpAddress::v4(8, 8, 8, 8));
    assert_eq!(info.src_port, 51000);
    assert_eq!(info.dst_port, 443);
    assert_eq!(info.protocol, Protocol::Tcp);
    assert_eq!(info.len, f.len() as u64);
}

#[test]
fn udp_over_ipv4_with_options() {
    let f = ipv4_frame(17, 6, 32, &ports(5353, 53, 8));
    let info = process_packet(&f).unwrap().unwrap();
    assert_eq!(info.protocol, Protocol::Udp);
    assert_eq!(info.src_port, 5353);
    assert_eq!(info.dst_port, 53);
}

#[test]
fn total_length_cuts_the_payload() {
    let f = ipv4_frame(6, 5, 30, &ports(1, 2, 20));
    assert_eq!(process_packet(&f), Ok(None));
    let f = ipv4_frame(17, 5, 28, &ports(1, 2, 20));
    assert!(process_packet(&f).unwrap().is_some());
}

#[test]
fn short_transport_headers_give_nothing() {
    let f = ipv4_frame(6, 5, 40, &ports(1, 2, 19));
    assert_eq!(process_packet(&f), Ok(None));
    let f = ipv4_frame(17, 5, 40, &ports(1, 2, 7));
    assert_eq!(process_packet(&f), Ok(None));
    let f = ipv4_frame(1, 5, 40, &ports(1, 2, 20));
    assert_eq!(process_packet(&f), Ok(None));
}

#[test]
fn tcp_over_ipv6() {
    let mut f = vec![0u8; 14];
    f[12] = 0x86;
    f[13] = 0xDD;
    let mut ip = vec![0u8; 40];
    ip[0] = 0x60;
    ip[5] = 20;
    ip[6] = 6;
    ip[8] = 0x20;
    ip[9] = 0x01;
    ip[23] = 1;
    ip[24] = 0xfe;
    ip[25] = 0x80;
    ip[39] = 2;
    f.extend_from_slice(&ip);
    f.extend_from_slice(&ports(40000, 22, 20));
    let info = process_packet(&f).unwrap().unwrap();
    assert_eq!(info.src_addr, IpAddress::v6([0x2001, 0, 0, 0, 0, 0, 0, 1]));
    assert_eq!(info.dst_addr, IpAddress::v6([0xfe80, 0, 0, 0, 0, 0, 0, 2]));
    assert_eq!(info.src_port, 40000);
    assert_eq!(info.dst_port, 22);
    assert_eq!(info.protocol, Protocol::Tcp);
}

#[test]
fn other_frames() {
    assert_eq!(process_packet(&[0u8; 13]), Err(FrameError::NotEthernet));
    let mut arp = vec![0u8; 42];
    arp[12] = 0x08;
    arp[13] = 0x06;
    assert_eq!(process_packet(&arp), Ok(None));
    let mut short_ip = vec![0u8; 30];
    short_ip[12] = 0x08;
    assert_eq!(process_packet(&short_ip), Ok(None));
}
