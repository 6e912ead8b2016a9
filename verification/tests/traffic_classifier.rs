use bproc::traffic_classifier::{categorize_traffic, is_local_traffic, IpAddress, TrafficCategory};

fn v4(a: u8, b: u8, c: u8, d: u8) -> IpAddress {
    IpAddress::v4(a, b, c, d)
}

#[test]
fn test_ipv4_private() {
    assert_eq!(categorize_traffic(&v4(192, 168, 1, 1)), TrafficCategory::Local);
    assert_eq!(categorize_traffic(&v4(10, 0, 0, 1)), TrafficCategory::Local);
    assert_eq!(categorize_traffic(&v4(172, 16, 0, 1)), TrafficCategory::Local);
    assert_eq!(categorize_traffic(&v4(172, 31, 255, 255)), TrafficCategory::Local);
}

#[test]
fn test_ipv4_loopback() {
    assert_eq!(categorize_traffic(&v4(127, 0, 0, 1)), TrafficCategory::Local);
    assert_eq!(categorize_traffic(&v4(127, 255, 255, 255)), TrafficCategory::Local);
}

#[test]
fn test_ipv4_link_local() {
    assert_eq!(categorize_traffic(&v4(169, 254, 1, 1)), TrafficCategory::Local);
}

#[test]
fn test_ipv4_internet() {
    assert_eq!(categorize_traffic(&v4(8, 8, 8, 8)), TrafficCategory::Internet);
    assert_eq!(categorize_traffic(&v4(1, 1, 1, 1)), TrafficCategory::Internet);
    assert_eq!(categorize_traffic(&v4(140, 82, 112, 4)), TrafficCategory::Internet);
}

#[test]
fn test_ipv6_loopback() {
    assert_eq!(
        categorize_traffic(&IpAddress::v6([0, 0, 0, 0, 0, 0, 0, 1])),
        TrafficCategory::Local
    );
}

#[test]
fn test_ipv6_link_local() {
    assert_eq!(
        categorize_traffic(&IpAddress::v6([0xfe80, 0, 0, 0, 0, 0, 0, 1])),
        TrafficCategory::Local
    );
    assert_eq!(
        categorize_traffic(&IpAddress::v6([0xfe80, 0, 0, 0, 0x1cd4, 0xa0ff, 0xfed4, 0xaa2a])),
        TrafficCategory::Local
    );
}

#[test]
fn test_ipv6_unique_local() {
    assert_eq!(
        categorize_traffic(&IpAddress::v6([0xfc00, 0, 0, 0, 0, 0, 0, 1])),
        TrafficCategory::Local
    );
    assert_eq!(
        categorize_traffic(&IpAddress::v6([0xfd00, 0, 0, 0, 0, 0, 0, 1])),
        TrafficCategory::Local
    );
}

#[test]
fn test_ipv6_internet() {
    assert_eq!(
        categorize_traffic(&IpAddress::v6([0x2001, 0x4860, 0x4860, 0, 0, 0, 0, 0x8888])),
        TrafficCategory::Internet
    );
    assert_eq!(
        categorize_traffic(&IpAddress::v6([0x2606, 0x4700, 0x4700, 0, 0, 0, 0, 0x1111])),
        TrafficCategory::Internet
    );
}

#[test]
fn unspecified_addresses_are_local() {
    assert!(is_local_traffic(&v4(0, 0, 0, 0)));
    assert!(is_local_traffic(&IpAddress::v6([0; 8])));
    assert!(IpAddress::v6([0; 8]).is_unspecified());
}

#[test]
fn ipv4_private_range_edges() {
    assert_eq!(categorize_traffic(&v4(172, 15, 255, 255)), TrafficCategory::Internet);
    assert_eq!(categorize_traffic(&v4(172, 32, 0, 0)), TrafficCategory::Internet);
    assert_eq!(categorize_traffic(&v4(11, 0, 0, 0)), TrafficCategory::Internet);
}

#[test]
fn documentation_ranges_are_internet() {
    assert_eq!(categorize_traffic(&v4(192, 0, 2, 1)), TrafficCategory::Internet);
    assert_eq!(categorize_traffic(&v4(198, 51, 100, 7)), TrafficCategory::Internet);
    assert_eq!(categorize_traffic(&v4(203, 0, 113, 5)), TrafficCategory::Internet);
    assert_eq!(categorize_traffic(&v4(0, 0, 0, 0)), TrafficCategory::Local);
    assert_eq!(categorize_traffic(&v4(255, 255, 255, 255)), TrafficCategory::Local);
}
