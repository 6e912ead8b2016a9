use bproc::backends::BackendPriority;
use bproc::socket_mapper::linux::{self as linux_mapper, LinuxSocketMapper};
use bproc::socket_mapper::macos::{
    self as macos_mapper, InSockFields, LibprocSocketMapper, LsofAddress, LsofHostKind, LsofSocketMapper, MacosSocketMapper,
};
use bproc::socket_mapper::windows::{
    self as windows_mapper, row_port, IpHelperSocketMapper, Tcp6OwnerRow, TcpOwnerRow, Udp6OwnerRow,
    UdpOwnerRow,
};
use bproc::traffic_classifier::IpAddress;
use bproc::socket_mapper::MapperError;

fn addr(a: &LsofAddress) -> (LsofHostKind, String, u16) {
    (a.kind, a.host.clone(), a.port)
}

#[test]
fn lsof_output_lists_network_lines_of_known_processes() {
    let out = "p1234\ncFirefox\nn127.0.0.1:8080->93.184.216.34:80\nn*:5353\nn[::1]:8080->[::1]:54321\n";
    let conns = LsofSocketMapper::parse_lsof_output(out);
    assert_eq!(conns.len(), 3);

    assert_eq!(conns[0].pid, 1234);
    assert_eq!(conns[0].name, "Firefox");
    assert_eq!(addr(&conns[0].local), (LsofHostKind::Plain, "127.0.0.1".to_string(), 8080));
    assert_eq!(
        conns[0].remote.as_ref().map(addr),
        Some((LsofHostKind::Plain, "93.184.216.34".to_string(), 80))
    );
    assert!(conns[0].is_tcp);

    assert_eq!(addr(&conns[1].local), (LsofHostKind::Any, String::new(), 5353));
    assert!(conns[1].remote.is_none());
    assert!(!conns[1].is_tcp);

    assert_eq!(addr(&conns[2].local), (LsofHostKind::Bracketed, "::1".to_string(), 8080));
    assert_eq!(
        conns[2].remote.as_ref().map(addr),
        Some((LsofHostKind::Bracketed, "::1".to_string(), 54321))
    );
    assert!(conns[2].is_tcp);
}

#[test]
fn lsof_lines_before_process_and_command_are_ignored() {
    let out = "n1.2.3.4:80\np10\nn1.2.3.4:81\ncsshd\nn1.2.3.4:22\npabc\nn1.2.3.4:23\n";
    let conns = LsofSocketMapper::parse_lsof_output(out);
    // Only the line after both `p10` and `csshd` counts; `pabc` forgets the process.
    assert_eq!(conns.len(), 1);
    assert_eq!(conns[0].pid, 10);
    assert_eq!(conns[0].name, "sshd");
    assert_eq!(conns[0].local.port, 22);
}

#[test]
fn lsof_handles_carriage_returns_and_other_fields() {
    let out = "p7\r\ncnc\r\nf3\r\ntIPv4\r\nn10.0.0.1:9->10.0.0.2:10\r\n";
    let conns = LsofSocketMapper::parse_lsof_output(out);
    assert_eq!(conns.len(), 1);
    assert_eq!(conns[0].name, "nc");
    assert_eq!(conns[0].local.port, 9);
    assert_eq!(conns[0].remote.as_ref().unwrap().port, 10);
}

#[test]
fn lsof_address_forms() {
    assert_eq!(
        LsofSocketMapper::parse_address("[fe80::1]:443").map(|a| addr(&a)),
        Some((LsofHostKind::Bracketed, "fe80::1".to_string(), 443))
    );
    assert_eq!(
        LsofSocketMapper::parse_address("*:22").map(|a| addr(&a)),
        Some((LsofHostKind::Any, String::new(), 22))
    );
    assert_eq!(
        LsofSocketMapper::parse_address("192.168.1.5:+53").map(|a| addr(&a)),
        Some((LsofHostKind::Plain, "192.168.1.5".to_string(), 53))
    );
    // Port out of range, missing port, extra colon, unclosed bracket.
    assert!(LsofSocketMapper::parse_address("1.2.3.4:65536").is_none());
    assert!(LsofSocketMapper::parse_address("1.2.3.4").is_none());
    assert!(LsofSocketMapper::parse_address("a:b:1").is_none());
    assert!(LsofSocketMapper::parse_address("[::1:80").is_none());
    assert!(LsofSocketMapper::parse_address("[::1]:").is_none());
    assert!(LsofSocketMapper::parse_address("").is_none());
}

#[test]
fn lsof_connection_needs_both_addresses() {
    let (l, r, tcp) = LsofSocketMapper::parse_connection("1.1.1.1:1->2.2.2.2:2->3.3.3.3:3").unwrap();
    assert_eq!(l.port, 1);
    assert_eq!(r.unwrap().port, 2);
    assert!(tcp);
    assert!(LsofSocketMapper::parse_connection("1.1.1.1:1->nothing").is_none());
    assert!(LsofSocketMapper::parse_connection("").is_none());
}

#[test]
fn tcp_state_names() {
    assert_eq!(macos_mapper::LibprocSocketMapper::tcp_state_to_string(4), "ESTABLISHED");
    assert_eq!(macos_mapper::LibprocSocketMapper::tcp_state_to_string(1), "LISTEN");
    assert_eq!(macos_mapper::LibprocSocketMapper::tcp_state_to_string(42), "UNKNOWN(42)");
    assert_eq!(macos_mapper::LibprocSocketMapper::tcp_state_to_string(-1), "UNKNOWN(-1)");
}

#[test]
fn linux_mapper_selection() {
    let infos = linux_mapper::detect_socket_mappers(true, false);
    assert_eq!(infos.len(), 2);
    assert_eq!(infos[0].name, "procfs");
    assert_eq!(infos[0].priority, BackendPriority::Best);
    assert!(!infos[1].available);
    assert!(matches!(linux_mapper::select_socket_mapper(None, true, true), Ok(LinuxSocketMapper::Procfs(_))));
    assert!(matches!(linux_mapper::select_socket_mapper(None, false, true), Ok(LinuxSocketMapper::Libproc(_))));
    assert!(matches!(linux_mapper::select_socket_mapper(None, false, false), Err(MapperError::NoneAvailable)));
    assert!(matches!(
        linux_mapper::select_socket_mapper(Some("libproc"), true, false),
        Err(MapperError::Unavailable(_))
    ));
    match linux_mapper::select_socket_mapper(Some("bogus"), true, true) {
        Err(MapperError::Unknown(n)) => assert_eq!(n, "bogus"),
        _ => panic!("expected an unknown-mapper error"),
    }
}

#[test]
fn macos_and_windows_mapper_selection() {
    assert!(matches!(macos_mapper::select_socket_mapper(None, false, true), Ok(MacosSocketMapper::Lsof(_))));
    assert!(matches!(macos_mapper::select_socket_mapper(Some("lsof"), true, true), Ok(MacosSocketMapper::Lsof(_))));
    assert!(windows_mapper::select_socket_mapper(None, true).is_ok());
    assert!(matches!(windows_mapper::select_socket_mapper(None, false), Err(MapperError::NoneAvailable)));
    let infos = windows_mapper::detect_socket_mappers(true);
    assert_eq!(infos[0].name, "iphelper");
}

#[test]
fn iphelper_rows_decode_network_order() {
    assert_eq!(row_port(0x5000), 80);
    assert_eq!(row_port(0xBB01), 443);
    let e = IpHelperSocketMapper::tcp_entry(&TcpOwnerRow {
        local_addr: 0x0100_007F,
        local_port: 0x901F,
        remote_addr: 0x0101_A8C0,
        remote_port: 0x5000,
        owning_pid: 4242,
    });
    assert_eq!(e.local_addr, IpAddress::V4(0x7F00_0001));
    assert_eq!(e.local_port, 8080);
    assert_eq!(e.remote_addr, IpAddress::V4(0xC0A8_0101));
    assert_eq!(e.remote_port, 80);
    assert_eq!(e.pid, 4242);
    let mut loopback = [0u8; 16];
    loopback[15] = 1;
    let e6 = IpHelperSocketMapper::tcp6_entry(&Tcp6OwnerRow {
        local_addr: loopback,
        local_port: 0x3500,
        remote_addr: [0u8; 16],
        remote_port: 0,
        owning_pid: u32::MAX,
    });
    assert_eq!(e6.local_addr, IpAddress::V6(1));
    assert_eq!(e6.local_port, 53);
    assert_eq!(e6.pid, -1);
    let u = IpHelperSocketMapper::udp_entry(&UdpOwnerRow { local_addr: 0, local_port: 0x3500, owning_pid: 7 });
    assert_eq!(u.remote_addr, IpAddress::V4(0));
    assert_eq!(u.remote_port, 0);
    assert_eq!(u.local_port, 53);
    let u6 = IpHelperSocketMapper::udp6_entry(&Udp6OwnerRow { local_addr: loopback, local_port: 0, owning_pid: 7 });
    assert_eq!(u6.remote_addr, IpAddress::V6(0));
    assert_eq!(u6.local_addr, IpAddress::V6(1));
}

#[test]
fn libproc_socket_endpoints() {
    let mut l6 = [0u8; 16];
    l6[15] = 1;
    let info = InSockFields {
        vflag: 0x1,
        lport: 0x5000,
        fport: 0xBB01,
        laddr4: 0x0100_007F,
        faddr4: 0x0101_A8C0,
        laddr6: l6,
        faddr6: [0u8; 16],
    };
    assert_eq!(LibprocSocketMapper::parse_in_sockaddr(&info, true), (IpAddress::V4(0x7F00_0001), 80));
    assert_eq!(LibprocSocketMapper::parse_in_sockaddr(&info, false), (IpAddress::V4(0xC0A8_0101), 443));
    let v6 = InSockFields { vflag: 0x2, ..info };
    assert_eq!(LibprocSocketMapper::parse_in_sockaddr(&v6, true), (IpAddress::V6(1), 80));
    assert_eq!(LibprocSocketMapper::parse_in_sockaddr(&v6, false), (IpAddress::V6(0), 443));
}
