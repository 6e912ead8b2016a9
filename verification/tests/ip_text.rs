use bproc::ip_text::ip_text;
use bproc::traffic_classifier::IpAddress;

fn v6(s: [u16; 8]) -> String {
    ip_text(&IpAddress::v6(s))
}

#[test]
fn ipv4_is_dotted_decimal() {
    assert_eq!(ip_text(&IpAddress::v4(192, 168, 1, 10)), "192.168.1.10");
    assert_eq!(ip_text(&IpAddress::v4(0, 0, 0, 0)), "0.0.0.0");
    assert_eq!(ip_text(&IpAddress::v4(255, 255, 255, 255)), "255.255.255.255");
}

#[test]
fn ipv6_shortens_the_longest_zero_run() {
    assert_eq!(v6([0; 8]), "::");
    assert_eq!(v6([0, 0, 0, 0, 0, 0, 0, 1]), "::1");
    assert_eq!(v6([0x2001, 0xdb8, 0, 0, 0, 0, 0, 1]), "2001:db8::1");
    assert_eq!(v6([0xfe80, 0, 0, 0, 0x1cd4, 0xa0ff, 0xfed4, 0xaa2a]), "fe80::1cd4:a0ff:fed4:aa2a");
    assert_eq!(v6([1, 0, 0, 1, 0, 0, 0, 1]), "1:0:0:1::1");
    assert_eq!(v6([0, 0, 1, 0, 0, 1, 0, 0]), "::1:0:0:1:0:0");
    assert_eq!(v6([1, 0, 1, 0, 1, 0, 1, 0]), "1:0:1:0:1:0:1:0");
    assert_eq!(v6([1, 2, 3, 4, 5, 6, 7, 0]), "1:2:3:4:5:6:7:0");
    assert_eq!(v6([1, 2, 3, 4, 5, 6, 0, 0]), "1:2:3:4:5:6::");
}

#[test]
fn ipv4_mapped_addresses_show_the_ipv4_address() {
    assert_eq!(v6([0, 0, 0, 0, 0, 0xffff, 0xc0a8, 0x0101]), "::ffff:192.168.1.1");
    assert_eq!(v6([0, 0, 0, 0, 0, 0, 0x0102, 0x0304]), "::102:304");
}
