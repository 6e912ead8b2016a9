//! macOS socket mappers: the native process library, or the `lsof` tool.
use crate::backends::{BackendCapabilities, BackendPriority};
use crate::socket_mapper::{
    full_capabilities, mapper_info, spec_full_capabilities, MapperError, SocketMapperInfo,
};
use crate::packet::{read_be, spec_be};
use crate::traffic_classifier::IpAddress;
use crate::windows_poll::{spec_swap_bytes, swap_bytes};
use crate::parse::{parse_i32, parse_u32, spec_signed, spec_unsigned};
use crate::text::{first, lines, push_i64, spec_first, spec_int_text, spec_lines, str_eq};
use vstd::prelude::*;

verus! {

/// Enumerates sockets through the native process library.
#[derive(Clone, Copy, Debug)]
pub struct LibprocSocketMapper;

/// Enumerates sockets by running `lsof`.
#[derive(Clone, Copy, Debug)]
pub struct LsofSocketMapper;

/// The name of a BSD TCP state: `CLOSED` (0) through `TIME_WAIT` (10),
/// `UNKNOWN(<state>)` otherwise.
pub open spec fn spec_tcp_state_name(state: i32) -> Seq<char> {
    if state == 0 {
        "CLOSED"@
    } else if state == 1 {
        "LISTEN"@
    } else if state == 2 {
        "SYN_SENT"@
    } else if state == 3 {
        "SYN_RCVD"@
    } else if state == 4 {
        "ESTABLISHED"@
    } else if state == 5 {
        "CLOSE_WAIT"@
    } else if state == 6 {
        "FIN_WAIT1"@
    } else if state == 7 {
        "CLOSING"@
    } else if state == 8 {
        "LAST_ACK"@
    } else if state == 9 {
        "FIN_WAIT2"@
    } else if state == 10 {
        "TIME_WAIT"@
    } else {
        "UNKNOWN("@ + spec_int_text(state as int) + ")"@
    }
}

impl LibprocSocketMapper {
    /// A library-based mapper; refused when the library is not available.
    pub fn new(available: bool) -> (r: Result<Self, MapperError>)
        ensures
            available <==> r is Ok,
            r matches Err(MapperError::Unavailable(n)) ==> n@ == "libproc"@,
            r is Err ==> r matches Err(MapperError::Unavailable(_)),
    {
        if !available {
            return Err(MapperError::Unavailable(String::from_str("libproc")));
        }
        Ok(LibprocSocketMapper)
    }

    pub fn name(&self) -> (r: &'static str)
        ensures
            r@ == "libproc"@,
    {
        "libproc"
    }

    pub fn priority(&self) -> (r: BackendPriority)
        ensures
            r == BackendPriority::Best,
    {
        BackendPriority::Best
    }

    pub fn capabilities(&self) -> (r: BackendCapabilities)
        ensures
            r == spec_full_capabilities(),
    {
        full_capabilities()
    }

    /// The name of a TCP connection state.
    pub fn tcp_state_to_string(state: i32) -> (r: String)
        ensures
            r@ == spec_tcp_state_name(state),
    {
        if state == 0 {
            String::from_str("CLOSED")
        } else if state == 1 {
            String::from_str("LISTEN")
        } else if state == 2 {
            String::from_str("SYN_SENT")
        } else if state == 3 {
            String::from_str("SYN_RCVD")
        } else if state == 4 {
            String::from_str("ESTABLISHED")
        } else if state == 5 {
            String::from_str("CLOSE_WAIT")
        } else if state == 6 {
            String::from_str("FIN_WAIT1")
        } else if state == 7 {
            String::from_str("CLOSING")
        } else if state == 8 {
            String::from_str("LAST_ACK")
        } else if state == 9 {
            String::from_str("FIN_WAIT2")
        } else if state == 10 {
            String::from_str("TIME_WAIT")
        } else {
            let mut s = String::from_str("UNKNOWN(");
            push_i64(&mut s, state as i64);
            s.append(")");
            s
        }
    }
}

impl LsofSocketMapper {
    /// An `lsof` mapper; refused when the tool is not installed.
    pub fn new(available: bool) -> (r: Result<Self, MapperError>)
        ensures
            available <==> r is Ok,
            r matches Err(MapperError::Unavailable(n)) ==> n@ == "lsof"@,
            r is Err ==> r matches Err(MapperError::Unavailable(_)),
    {
        if !available {
            return Err(MapperError::Unavailable(String::from_str("lsof")));
        }
        Ok(LsofSocketMapper)
    }

    pub fn name(&self) -> (r: &'static str)
        ensures
            r@ == "lsof"@,
    {
        "lsof"
    }

    pub fn priority(&self) -> (r: BackendPriority)
        ensures
            r == BackendPriority::Good,
    {
        BackendPriority::Good
    }

    pub fn capabilities(&self) -> (r: BackendCapabilities)
        ensures
            r == spec_full_capabilities(),
    {
        full_capabilities()
    }
}

/// Flag of an Internet socket whose addresses are IPv4.
pub const INI_IPV4: u8 = 0x1;

/// The fields of a socket's Internet information that name its endpoints,
/// as the process library reports them on the little-endian machines macOS
/// runs on: ports in network order in the low 16 bits, IPv4 addresses as
/// 32-bit words read from network order, IPv6 addresses as bytes.
#[derive(Clone, Copy, Debug)]
pub struct InSockFields {
    pub vflag: u8,
    pub lport: i32,
    pub fport: i32,
    pub laddr4: u32,
    pub faddr4: u32,
    pub laddr6: [u8; 16],
    pub faddr6: [u8; 16],
}

/// A 16-bit value with its two bytes swapped.
pub open spec fn spec_swap16(x: u16) -> u16 {
    (((x & 0xFFu16) << 8u16) | (x >> 8u16)) as u16
}

/// The address and port of one end of a socket (local or foreign).
pub open spec fn spec_in_sockaddr(info: InSockFields, is_local: bool) -> (IpAddress, u16) {
    let port = spec_swap16((if is_local { info.lport } else { info.fport }) as u16);
    if info.vflag & INI_IPV4 != 0 {
        (IpAddress::V4(spec_swap_bytes(if is_local { info.laddr4 } else { info.faddr4 })), port)
    } else {
        (IpAddress::V6(spec_be((if is_local { info.laddr6 } else { info.faddr6 })@, 0, 16) as u128), port)
    }
}

impl LibprocSocketMapper {
    /// The address and port of one end of a socket; IPv4 when the flag says
    /// so, IPv6 otherwise.
    pub fn parse_in_sockaddr(in_info: &InSockFields, is_local: bool) -> (r: (IpAddress, u16))
        ensures
            r == spec_in_sockaddr(*in_info, is_local),
    {
        let raw: u16 = (if is_local { in_info.lport } else { in_info.fport }) as u16;
        let port: u16 = ((raw & 0xFFu16) << 8u16) | (raw >> 8u16);
        if in_info.vflag & INI_IPV4 != 0 {
            let a = if is_local { in_info.laddr4 } else { in_info.faddr4 };
            (IpAddress::V4(swap_bytes(a)), port)
        } else {
            let bytes: &[u8; 16] = if is_local { &in_info.laddr6 } else { &in_info.faddr6 };
            (IpAddress::V6(read_be(bytes.as_slice(), 0, 16)), port)
        }
    }
}

/// How `lsof` printed the host of an address.
#[derive(Clone, Copy, Debug, PartialEq, Eq, Structural)]
pub enum LsofHostKind {
    /// `*`: any address.
    Any,
    /// A plain host, such as `127.0.0.1`.
    Plain,
    /// A host in brackets, such as `[::1]`.
    Bracketed,
}

/// An address as `lsof` prints it; the host stays text (empty for `*`).
#[derive(Clone, Debug)]
pub struct LsofAddress {
    pub kind: LsofHostKind,
    pub host: String,
    pub port: u16,
}

impl View for LsofAddress {
    type V = (LsofHostKind, Seq<char>, u16);

    open spec fn view(&self) -> (LsofHostKind, Seq<char>, u16) {
        (self.kind, self.host@, self.port)
    }
}

/// The view of an optional address.
pub open spec fn spec_opt_address(a: Option<LsofAddress>) -> Option<(LsofHostKind, Seq<char>, u16)> {
    match a {
        Some(x) => Some(x@),
        None => None,
    }
}

/// A network line of `lsof` output with the process it belongs to.
#[derive(Clone, Debug)]
pub struct LsofConnection {
    pub pid: i32,
    pub name: String,
    pub local: LsofAddress,
    /// `None` for a socket without a peer.
    pub remote: Option<LsofAddress>,
    /// Whether the line names a peer (`->`); such sockets are taken as TCP.
    pub is_tcp: bool,
}

impl View for LsofConnection {
    type V = (
        i32,
        Seq<char>,
        (LsofHostKind, Seq<char>, u16),
        Option<(LsofHostKind, Seq<char>, u16)>,
        bool,
    );

    open spec fn view(&self) -> Self::V {
        (self.pid, self.name@, self.local@, spec_opt_address(self.remote), self.is_tcp)
    }
}

/// A port: an unsigned number that fits in 16 bits.
pub open spec fn spec_port(s: Seq<char>) -> Option<u16> {
    match spec_unsigned(s) {
        Some(v) => if v <= 65535 {
            Some(v as u16)
        } else {
            None
        },
        None => None,
    }
}

/// An `lsof` address: `[host]:port` (the character after the bracket is
/// skipped), or `host:port` with exactly one colon, `*` for any host.
pub open spec fn spec_lsof_address(s: Seq<char>) -> Option<(LsofHostKind, Seq<char>, u16)> {
    if s.len() > 0 && s[0] == '[' {
        match spec_first(s, seq![']']) {
            Some(e) => if e + 2 <= s.len() {
                match spec_port(s.subrange(e + 2, s.len() as int)) {
                    Some(p) => Some((LsofHostKind::Bracketed, s.subrange(1, e), p)),
                    None => None,
                }
            } else {
                None
            },
            None => None,
        }
    } else {
        match spec_first(s, seq![':']) {
            Some(c) => {
                let rest = s.subrange(c + 1, s.len() as int);
                if spec_first(rest, seq![':']) is Some {
                    None
                } else {
                    match spec_port(rest) {
                        Some(p) => if s.subrange(0, c) == seq!['*'] {
                            Some((LsofHostKind::Any, Seq::empty(), p))
                        } else {
                            Some((LsofHostKind::Plain, s.subrange(0, c), p))
                        },
                        None => None,
                    }
                }
            },
            None => None,
        }
    }
}

/// An `lsof` connection: the local address, then after `->` the peer's up
/// to any further `->`; both must be addresses.
pub open spec fn spec_lsof_connection(v: Seq<char>) -> Option<
    ((LsofHostKind, Seq<char>, u16), Option<(LsofHostKind, Seq<char>, u16)>, bool),
> {
    match spec_first(v, seq!['-', '>']) {
        None => match spec_lsof_address(v) {
            Some(l) => Some((l, None, false)),
            None => None,
        },
        Some(i) => {
            let rest = v.subrange(i + 2, v.len() as int);
            let remote = match spec_first(rest, seq!['-', '>']) {
                Some(k) => rest.subrange(0, k),
                None => rest,
            };
            match (spec_lsof_address(v.subrange(0, i)), spec_lsof_address(remote)) {
                (Some(l), Some(r)) => Some((l, Some(r), true)),
                _ => None,
            }
        },
    }
}

/// A process id as `lsof` prints it.
pub open spec fn spec_pid(s: Seq<char>) -> Option<i32> {
    match spec_signed(s) {
        Some(v) => if i32::MIN <= v <= i32::MAX {
            Some(v as i32)
        } else {
            None
        },
        None => None,
    }
}

/// The process and command known after a line: `p` sets the process (none
/// when it is not a number), `c` the command; other lines keep both.
pub open spec fn spec_lsof_state(st: (Option<i32>, Option<Seq<char>>), line: Seq<char>) -> (
    Option<i32>,
    Option<Seq<char>>,
) {
    if line.len() == 0 {
        st
    } else if line[0] == 'p' {
        (spec_pid(line.drop_first()), st.1)
    } else if line[0] == 'c' {
        (st.0, Some(line.drop_first()))
    } else {
        st
    }
}

/// The connection an `n` line gives, once process and command are known.
pub open spec fn spec_lsof_record(st: (Option<i32>, Option<Seq<char>>), line: Seq<char>) -> Option<
    <LsofConnection as View>::V,
> {
    if line.len() > 0 && line[0] == 'n' {
        match (st.0, st.1, spec_lsof_connection(line.drop_first())) {
            (Some(pid), Some(name), Some(c)) => Some((pid, name, c.0, c.1, c.2)),
            _ => None,
        }
    } else {
        None
    }
}

/// The state and the connections after reading `lines` in order.
pub open spec fn spec_lsof_fold(lines: Seq<Seq<char>>) -> (
    (Option<i32>, Option<Seq<char>>),
    Seq<<LsofConnection as View>::V>,
)
    decreases lines.len(),
{
    if lines.len() == 0 {
        ((None, None), Seq::empty())
    } else {
        let prev = spec_lsof_fold(lines.drop_last());
        let out = match spec_lsof_record(prev.0, lines.last()) {
            Some(c) => prev.1.push(c),
            None => prev.1,
        };
        (spec_lsof_state(prev.0, lines.last()), out)
    }
}

/// The connections of `lsof -F pcn` output.
pub open spec fn spec_lsof_output(output: Seq<char>) -> Seq<<LsofConnection as View>::V> {
    spec_lsof_fold(spec_lines(output)).1
}

fn parse_port(s: &str) -> (r: Option<u16>)
    ensures
        r == spec_port(s@),
{
    match parse_u32(s) {
        Some(v) => if v <= 65535 {
            Some(v as u16)
        } else {
            None
        },
        None => None,
    }
}

impl LsofSocketMapper {
    /// Read an address as `lsof` prints it.
    pub fn parse_address(addr_str: &str) -> (r: Option<LsofAddress>)
        ensures
            spec_opt_address(r) == spec_lsof_address(addr_str@),
    {
        proof {
            reveal_strlit("]");
            reveal_strlit(":");
            reveal_strlit("*");
            assert("]"@ =~= seq![']']);
            assert(":"@ =~= seq![':']);
            assert("*"@ =~= seq!['*']);
        }
        let n = addr_str.unicode_len();
        if n > 0 && addr_str.get_char(0) == '[' {
            match first(addr_str, "]") {
                Some(e) => {
                    if e + 1 >= n {
                        return None;
                    }
                    assert(addr_str@.subrange(e as int, e + 1)[0] == ']');
                    assert(e >= 1);
                    match parse_port(addr_str.substring_char(e + 2, n)) {
                        Some(port) => Some(
                            LsofAddress {
                                kind: LsofHostKind::Bracketed,
                                host: String::from_str(addr_str.substring_char(1, e)),
                                port,
                            },
                        ),
                        None => None,
                    }
                },
                None => None,
            }
        } else {
            match first(addr_str, ":") {
                Some(c) => {
                    let rest = addr_str.substring_char(c + 1, n);
                    if first(rest, ":").is_some() {
                        return None;
                    }
                    match parse_port(rest) {
                        Some(port) => {
                            let host = addr_str.substring_char(0, c);
                            if str_eq(host, "*") {
                                Some(LsofAddress { kind: LsofHostKind::Any, host: String::new(), port })
                            } else {
                                Some(
                                    LsofAddress {
                                        kind: LsofHostKind::Plain,
                                        host: String::from_str(host),
                                        port,
                                    },
                                )
                            }
                        },
                        None => None,
                    }
                },
                None => None,
            }
        }
    }

    /// Read a connection as `lsof` prints it: local address, peer, and
    /// whether it has a peer.
    pub fn parse_connection(conn_str: &str) -> (r: Option<(LsofAddress, Option<LsofAddress>, bool)>)
        ensures
            match r {
                Some(t) => Some((t.0@, spec_opt_address(t.1), t.2)),
                None => None,
            } == spec_lsof_connection(conn_str@),
    {
        proof {
            reveal_strlit("->");
            assert("->"@ =~= seq!['-', '>']);
        }
        let n = conn_str.unicode_len();
        match first(conn_str, "->") {
            None => match Self::parse_address(conn_str) {
                Some(l) => Some((l, None, false)),
                None => None,
            },
            Some(i) => {
                let rest = conn_str.substring_char(i + 2, n);
                let remote = match first(rest, "->") {
                    Some(k) => rest.substring_char(0, k),
                    None => rest,
                };
                let local = Self::parse_address(conn_str.substring_char(0, i));
                let peer = Self::parse_address(remote);
                match (local, peer) {
                    (Some(l), Some(r)) => Some((l, Some(r), true)),
                    _ => None,
                }
            },
        }
    }

    /// The connections listed by `lsof -i -n -P -F pcn`: each `n` line after
    /// the `p` (process) and `c` (command) lines that name its owner.
    pub fn parse_lsof_output(output: &str) -> (r: Vec<LsofConnection>)
        ensures
            r@.len() == spec_lsof_output(output@).len(),
            forall|j: int| 0 <= j < r@.len() ==> (#[trigger] r@[j])@ == spec_lsof_output(output@)[j],
    {
        let ls = lines(output);
        let ghost all = spec_lines(output@);
        let mut pid: Option<i32> = None;
        let mut name: Option<String> = None;
        let mut out: Vec<LsofConnection> = Vec::new();
        let mut i: usize = 0;
        while i < ls.len()
            invariant
                ls@.len() == all.len(),
                forall|j: int| 0 <= j < ls@.len() ==> (#[trigger] ls@[j])@ == all[j],
                i <= ls@.len(),
                spec_lsof_fold(all.subrange(0, i as int)).0 == (pid, match name {
                    Some(t) => Some(t@),
                    None => None::<Seq<char>>,
                }),
                out@.len() == spec_lsof_fold(all.subrange(0, i as int)).1.len(),
                forall|k: int|
                    0 <= k < out@.len() ==> (#[trigger] out@[k])@ == spec_lsof_fold(
                        all.subrange(0, i as int),
                    ).1[k],
            decreases ls@.len() - i,
        {
            let ghost before = all.subrange(0, i as int);
            let ghost out_before = out@;
            proof {
                assert(all.subrange(0, i + 1).drop_last() =~= before);
                assert(all.subrange(0, i + 1).last() == all[i as int]);
            }
            let line = ls[i].as_str();
            let n = line.unicode_len();
            if n > 0 {
                let c = line.get_char(0);
                let rest = line.substring_char(1, n);
                assert(rest@ =~= line@.drop_first());
                if c == 'p' {
                    pid = parse_i32(rest);
                } else if c == 'c' {
                    name = Some(String::from_str(rest));
                } else if c == 'n' {
                    match (pid, &name) {
                        (Some(p), Some(nm)) => match Self::parse_connection(rest) {
                            Some((local, remote, is_tcp)) => {
                                out.push(LsofConnection { pid: p, name: nm.clone(), local, remote, is_tcp });
                            },
                            None => {},
                        },
                        _ => {},
                    }
                }
            }
            proof {
                let after = all.subrange(0, i + 1);
                assert forall|k: int| 0 <= k < out@.len() implies (#[trigger] out@[k])@ == spec_lsof_fold(after).1[k] by {
                    if k < out_before.len() {
                        assert(out@[k] == out_before[k]);
                    }
                }
            }
            i = i + 1;
        }
        assert(all.subrange(0, ls@.len() as int) =~= all);
        out
    }
}

/// A macOS socket mapper.
#[derive(Clone, Copy, Debug)]
pub enum MacosSocketMapper {
    Libproc(LibprocSocketMapper),
    Lsof(LsofSocketMapper),
}

/// The macOS socket mappers: libproc (best), then lsof (good).
pub fn detect_socket_mappers(libproc_available: bool, lsof_available: bool) -> (r: Vec<
    SocketMapperInfo,
>)
    ensures
        r@.len() == 2,
        r@[0].name@ == "libproc"@ && r@[0].priority == BackendPriority::Best && r@[0].available
            == libproc_available,
        r@[1].name@ == "lsof"@ && r@[1].priority == BackendPriority::Good && r@[1].available
            == lsof_available,
{
    let mut v = Vec::new();
    v.push(mapper_info("libproc", BackendPriority::Best, libproc_available));
    v.push(mapper_info("lsof", BackendPriority::Good, lsof_available));
    v
}

/// The mapper to use: the named one, or libproc when available, else lsof
/// when available.
pub fn select_socket_mapper(
    preference: Option<&str>,
    libproc_available: bool,
    lsof_available: bool,
) -> (r: Result<MacosSocketMapper, MapperError>)
    ensures
        match preference {
            Some(p) => if p@ == "libproc"@ {
                if libproc_available {
                    r matches Ok(MacosSocketMapper::Libproc(_))
                } else {
                    r matches Err(MapperError::Unavailable(_))
                }
            } else if p@ == "lsof"@ {
                if lsof_available {
                    r matches Ok(MacosSocketMapper::Lsof(_))
                } else {
                    r matches Err(MapperError::Unavailable(_))
                }
            } else {
                r matches Err(MapperError::Unknown(n)) && n@ == p@
            },
            None => if libproc_available {
                r matches Ok(MacosSocketMapper::Libproc(_))
            } else if lsof_available {
                r matches Ok(MacosSocketMapper::Lsof(_))
            } else {
                r matches Err(MapperError::NoneAvailable)
            },
        },
{
    if let Some(name) = preference {
        if str_eq(name, "libproc") {
            match LibprocSocketMapper::new(libproc_available) {
                Ok(m) => Ok(MacosSocketMapper::Libproc(m)),
                Err(e) => Err(e),
            }
        } else if str_eq(name, "lsof") {
            match LsofSocketMapper::new(lsof_available) {
                Ok(m) => Ok(MacosSocketMapper::Lsof(m)),
                Err(e) => Err(e),
            }
        } else {
            Err(MapperError::Unknown(String::from_str(name)))
        }
    } else if libproc_available {
        Ok(MacosSocketMapper::Libproc(LibprocSocketMapper))
    } else if lsof_available {
        Ok(MacosSocketMapper::Lsof(LsofSocketMapper))
    } else {
        Err(MapperError::NoneAvailable)
    }
}

} // verus!
