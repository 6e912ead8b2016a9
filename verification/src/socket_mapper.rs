//! Socket-to-process mappers: the ways each platform lists which process
//! owns which socket, and the choice among them.
use crate::backends::{BackendCapabilities, BackendPriority};
use vstd::prelude::*;

pub mod linux;
pub mod macos;
pub mod windows;
pub mod windows_stub;

verus! {

/// A socket mapper offered on this platform.
#[derive(Clone, Debug)]
pub struct SocketMapperInfo {
    pub name: String,
    pub priority: BackendPriority,
    pub available: bool,
}

/// Errors of socket mapper selection.
#[derive(Clone, Debug)]
pub enum MapperError {
    /// No mapper of this name exists on this platform.
    Unknown(String),
    /// The named mapper cannot run here.
    Unavailable(String),
    /// No mapper can run here.
    NoneAvailable,
}

/// Capabilities of a mapper that lists every socket of every process.
pub open spec fn spec_full_capabilities() -> BackendCapabilities {
    BackendCapabilities { ipv4_support: true, ipv6_support: true, per_process: true, per_connection: true }
}

/// Capabilities of a mapper that lists every socket of every process.
pub fn full_capabilities() -> (r: BackendCapabilities)
    ensures
        r == spec_full_capabilities(),
{
    BackendCapabilities { ipv4_support: true, ipv6_support: true, per_process: true, per_connection: true }
}

/// The info entry (name, priority, available).
pub fn mapper_info(name: &str, priority: BackendPriority, available: bool) -> (r: SocketMapperInfo)
    ensures
        r.name@ == name@,
        r.priority == priority,
        r.available == available,
{
    SocketMapperInfo { name: String::from_str(name), priority, available }
}

} // verus!
