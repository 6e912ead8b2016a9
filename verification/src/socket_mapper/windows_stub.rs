//! A placeholder Windows mapper that reports no sockets.
use crate::backends::{BackendCapabilities, BackendPriority};
use crate::socket_mapper::{mapper_info, SocketMapperInfo};
use vstd::prelude::*;

verus! {

/// Always available; reports no sockets and no capability.
#[derive(Clone, Copy, Debug)]
pub struct WindowsStubMapper;

impl WindowsStubMapper {
    pub fn name(&self) -> (r: &'static str)
        ensures
            r@ == "windows-stub"@,
    {
        "windows-stub"
    }

    pub fn priority(&self) -> (r: BackendPriority)
        ensures
            r == BackendPriority::Fallback,
    {
        BackendPriority::Fallback
    }

    pub fn capabilities(&self) -> (r: BackendCapabilities)
        ensures
            r == (BackendCapabilities {
                ipv4_support: false,
                ipv6_support: false,
                per_process: false,
                per_connection: false,
            }),
    {
        BackendCapabilities::none()
    }
}

/// The placeholder mapper, always available, at fallback priority.
pub fn detect_socket_mappers() -> (r: Vec<SocketMapperInfo>)
    ensures
        r@.len() == 1,
        r@[0].name@ == "windows-stub"@ && r@[0].priority == BackendPriority::Fallback
            && r@[0].available,
{
    let mut v = Vec::new();
    v.push(mapper_info("windows-stub", BackendPriority::Fallback, true));
    v
}

/// The placeholder mapper, whatever the preference.
pub fn select_socket_mapper(preference: Option<&str>) -> (r: WindowsStubMapper) {
    WindowsStubMapper
}

} // verus!
