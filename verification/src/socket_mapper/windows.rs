//! The Windows socket mapper: the IP Helper API.
use crate::backends::{BackendCapabilities, BackendPriority};
use crate::socket_mapper::{
    full_capabilities, mapper_info, spec_full_capabilities, MapperError, SocketMapperInfo,
};
use crate::packet::{read_be, spec_be};
use crate::text::str_eq;
use crate::traffic_classifier::IpAddress;
use crate::windows_poll::{spec_port_field, spec_swap_bytes, swap_bytes};
use vstd::prelude::*;

verus! {

/// Lists TCP and UDP tables with their owning processes through the IP Helper API.
#[derive(Clone, Copy, Debug)]
pub struct IpHelperSocketMapper;

impl IpHelperSocketMapper {
    /// An IP Helper mapper; refused off Windows.
    pub fn new(available: bool) -> (r: Result<Self, MapperError>)
        ensures
            available <==> r is Ok,
            r matches Err(MapperError::Unavailable(n)) ==> n@ == "iphelper"@,
            r is Err ==> r matches Err(MapperError::Unavailable(_)),
    {
        if !available {
            return Err(MapperError::Unavailable(String::from_str("iphelper")));
        }
        Ok(IpHelperSocketMapper)
    }

    pub fn name(&self) -> (r: &'static str)
        ensures
            r@ == "iphelper"@,
    {
        "iphelper"
    }

    pub fn priority(&self) -> (r: BackendPriority)
        ensures
            r == BackendPriority::Best,
    {
        BackendPriority::Best
    }

    pub fn capabilities(&self) -> (r: BackendCapabilities)
        ensures
            r == spec_full_capabilities(),
    {
        full_capabilities()
    }
}

/// The Windows socket mappers: iphelper (best).
pub fn detect_socket_mappers(iphelper_available: bool) -> (r: Vec<SocketMapperInfo>)
    ensures
        r@.len() == 1,
        r@[0].name@ == "iphelper"@ && r@[0].priority == BackendPriority::Best && r@[0].available
            == iphelper_available,
{
    let mut v = Vec::new();
    v.push(mapper_info("iphelper", BackendPriority::Best, iphelper_available));
    v
}

/// The mapper to use: iphelper when named or by default, if available.
pub fn select_socket_mapper(preference: Option<&str>, iphelper_available: bool) -> (r: Result<
    IpHelperSocketMapper,
    MapperError,
>)
    ensures
        match preference {
            Some(p) => if p@ == "iphelper"@ {
                iphelper_available <==> r is Ok
            } else {
                r matches Err(MapperError::Unknown(n)) && n@ == p@
            },
            None => if iphelper_available {
                r is Ok
            } else {
                r matches Err(MapperError::NoneAvailable)
            },
        },
{
    if let Some(name) = preference {
        if str_eq(name, "iphelper") {
            IpHelperSocketMapper::new(iphelper_available)
        } else {
            Err(MapperError::Unknown(String::from_str(name)))
        }
    } else if iphelper_available {
        Ok(IpHelperSocketMapper)
    } else {
        Err(MapperError::NoneAvailable)
    }
}

/// The port of an IP Helper table row: network byte order in the low 16 bits.
pub open spec fn spec_row_port(dw: u32) -> u16 {
    (((dw >> 8u32) & 0xFFu32) | (((dw & 0xFFu32) << 8u32) & 0xFF00u32)) as u16
}

/// The port of an IP Helper table row.
pub fn row_port(dw: u32) -> (r: u16)
    ensures
        r == spec_row_port(dw),
{
    (((dw >> 8u32) & 0xFFu32) | (((dw & 0xFFu32) << 8u32) & 0xFF00u32)) as u16
}

/// Reading a port from a row undoes the byte swap with which the
/// statistics row of a polled connection stores it.
pub proof fn lemma_row_port_reads_port_field(port: u16)
    ensures
        spec_row_port(spec_port_field(port)) == port,
{
    assert((((((((port & 0xFFu16) << 8u16) | (port >> 8u16)) as u32) >> 8u32) & 0xFFu32) | ((((((
    (port & 0xFFu16) << 8u16) | (port >> 8u16)) as u32) & 0xFFu32) << 8u32) & 0xFF00u32)) as u16
        == port) by (bit_vector);
}

/// A row of the IPv4 TCP table with its owning process: addresses as the
/// little-endian machines Windows runs on read network order, ports as
/// table rows hold them.
#[derive(Clone, Copy, Debug)]
pub struct TcpOwnerRow {
    pub local_addr: u32,
    pub local_port: u32,
    pub remote_addr: u32,
    pub remote_port: u32,
    pub owning_pid: u32,
}

/// A row of the IPv6 TCP table with its owning process; addresses are
/// bytes in network order.
#[derive(Clone, Copy, Debug)]
pub struct Tcp6OwnerRow {
    pub local_addr: [u8; 16],
    pub local_port: u32,
    pub remote_addr: [u8; 16],
    pub remote_port: u32,
    pub owning_pid: u32,
}

/// A row of the IPv4 UDP table with its owning process.
#[derive(Clone, Copy, Debug)]
pub struct UdpOwnerRow {
    pub local_addr: u32,
    pub local_port: u32,
    pub owning_pid: u32,
}

/// A row of the IPv6 UDP table with its owning process.
#[derive(Clone, Copy, Debug)]
pub struct Udp6OwnerRow {
    pub local_addr: [u8; 16],
    pub local_port: u32,
    pub owning_pid: u32,
}

/// A socket of the IP Helper tables; UDP sockets have the unspecified
/// address of their family and port 0 as peer.
#[derive(Clone, Copy, Debug, PartialEq, Eq, Structural)]
pub struct TableEntry {
    pub local_addr: IpAddress,
    pub local_port: u16,
    pub remote_addr: IpAddress,
    pub remote_port: u16,
    pub pid: i32,
}

/// The entry of an IPv4 TCP row.
pub open spec fn spec_tcp_entry(row: TcpOwnerRow) -> TableEntry {
    TableEntry {
        local_addr: IpAddress::V4(spec_swap_bytes(row.local_addr)),
        local_port: spec_row_port(row.local_port),
        remote_addr: IpAddress::V4(spec_swap_bytes(row.remote_addr)),
        remote_port: spec_row_port(row.remote_port),
        pid: row.owning_pid as i32,
    }
}

/// The entry of an IPv6 TCP row.
pub open spec fn spec_tcp6_entry(row: Tcp6OwnerRow) -> TableEntry {
    TableEntry {
        local_addr: IpAddress::V6(spec_be(row.local_addr@, 0, 16) as u128),
        local_port: spec_row_port(row.local_port),
        remote_addr: IpAddress::V6(spec_be(row.remote_addr@, 0, 16) as u128),
        remote_port: spec_row_port(row.remote_port),
        pid: row.owning_pid as i32,
    }
}

/// The entry of an IPv4 UDP row.
pub open spec fn spec_udp_entry(row: UdpOwnerRow) -> TableEntry {
    TableEntry {
        local_addr: IpAddress::V4(spec_swap_bytes(row.local_addr)),
        local_port: spec_row_port(row.local_port),
        remote_addr: IpAddress::V4(0),
        remote_port: 0,
        pid: row.owning_pid as i32,
    }
}

/// The entry of an IPv6 UDP row.
pub open spec fn spec_udp6_entry(row: Udp6OwnerRow) -> TableEntry {
    TableEntry {
        local_addr: IpAddress::V6(spec_be(row.local_addr@, 0, 16) as u128),
        local_port: spec_row_port(row.local_port),
        remote_addr: IpAddress::V6(0),
        remote_port: 0,
        pid: row.owning_pid as i32,
    }
}

fn address6(bytes: &[u8; 16]) -> (r: u128)
    ensures
        r == spec_be(bytes@, 0, 16),
{
    let s: &[u8] = bytes.as_slice();
    read_be(s, 0, 16)
}

impl IpHelperSocketMapper {
    /// The entry of an IPv4 TCP row.
    pub fn tcp_entry(row: &TcpOwnerRow) -> (r: TableEntry)
        ensures
            r == spec_tcp_entry(*row),
    {
        TableEntry {
            local_addr: IpAddress::V4(swap_bytes(row.local_addr)),
            local_port: row_port(row.local_port),
            remote_addr: IpAddress::V4(swap_bytes(row.remote_addr)),
            remote_port: row_port(row.remote_port),
            pid: row.owning_pid as i32,
        }
    }

    /// The entry of an IPv6 TCP row.
    pub fn tcp6_entry(row: &Tcp6OwnerRow) -> (r: TableEntry)
        ensures
            r == spec_tcp6_entry(*row),
    {
        TableEntry {
            local_addr: IpAddress::V6(address6(&row.local_addr)),
            local_port: row_port(row.local_port),
            remote_addr: IpAddress::V6(address6(&row.remote_addr)),
            remote_port: row_port(row.remote_port),
            pid: row.owning_pid as i32,
        }
    }

    /// The entry of an IPv4 UDP row.
    pub fn udp_entry(row: &UdpOwnerRow) -> (r: TableEntry)
        ensures
            r == spec_udp_entry(*row),
    {
        TableEntry {
            local_addr: IpAddress::V4(swap_bytes(row.local_addr)),
            local_port: row_port(row.local_port),
            remote_addr: IpAddress::V4(0),
            remote_port: 0,
            pid: row.owning_pid as i32,
        }
    }

    /// The entry of an IPv6 UDP row.
    pub fn udp6_entry(row: &Udp6OwnerRow) -> (r: TableEntry)
        ensures
            r == spec_udp6_entry(*row),
    {
        TableEntry {
            local_addr: IpAddress::V6(address6(&row.local_addr)),
            local_port: row_port(row.local_port),
            remote_addr: IpAddress::V6(0),
            remote_port: 0,
            pid: row.owning_pid as i32,
        }
    }
}

} // verus!
