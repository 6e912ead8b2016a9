//! Linux socket mappers: reading procfs directly, or through a process
//! library.
use crate::backends::{BackendCapabilities, BackendPriority};
use crate::socket_mapper::{
    full_capabilities, mapper_info, spec_full_capabilities, MapperError, SocketMapperInfo,
};
use crate::text::str_eq;
use vstd::prelude::*;

verus! {

/// Reads the socket tables and file descriptors under `/proc`.
#[derive(Clone, Copy, Debug)]
pub struct ProcfsSocketMapper;

/// Lists processes through a process library, then reads `/proc`.
#[derive(Clone, Copy, Debug)]
pub struct LibprocSocketMapper;

impl ProcfsSocketMapper {
    /// A procfs mapper; refused when `/proc` is not available.
    pub fn new(available: bool) -> (r: Result<Self, MapperError>)
        ensures
            available <==> r is Ok,
            r matches Err(MapperError::Unavailable(n)) ==> n@ == "procfs"@,
            r is Err ==> r matches Err(MapperError::Unavailable(_)),
    {
        if !available {
            return Err(MapperError::Unavailable(String::from_str("procfs")));
        }
        Ok(ProcfsSocketMapper)
    }

    pub fn name(&self) -> (r: &'static str)
        ensures
            r@ == "procfs"@,
    {
        "procfs"
    }

    pub fn priority(&self) -> (r: BackendPriority)
        ensures
            r == BackendPriority::Best,
    {
        BackendPriority::Best
    }

    pub fn capabilities(&self) -> (r: BackendCapabilities)
        ensures
            r == spec_full_capabilities(),
    {
        full_capabilities()
    }
}

impl LibprocSocketMapper {
    /// A library-based mapper; refused when `/proc` is not available.
    pub fn new(available: bool) -> (r: Result<Self, MapperError>)
        ensures
            available <==> r is Ok,
            r matches Err(MapperError::Unavailable(n)) ==> n@ == "libproc"@,
            r is Err ==> r matches Err(MapperError::Unavailable(_)),
    {
        if !available {
            return Err(MapperError::Unavailable(String::from_str("libproc")));
        }
        Ok(LibprocSocketMapper)
    }

    pub fn name(&self) -> (r: &'static str)
        ensures
            r@ == "libproc"@,
    {
        "libproc"
    }

    pub fn priority(&self) -> (r: BackendPriority)
        ensures
            r == BackendPriority::Good,
    {
        BackendPriority::Good
    }

    pub fn capabilities(&self) -> (r: BackendCapabilities)
        ensures
            r == spec_full_capabilities(),
    {
        full_capabilities()
    }
}

/// A Linux socket mapper.
#[derive(Clone, Copy, Debug)]
pub enum LinuxSocketMapper {
    Procfs(ProcfsSocketMapper),
    Libproc(LibprocSocketMapper),
}

/// The Linux socket mappers: procfs (best), then libproc (good).
pub fn detect_socket_mappers(procfs_available: bool, libproc_available: bool) -> (r: Vec<
    SocketMapperInfo,
>)
    ensures
        r@.len() == 2,
        r@[0].name@ == "procfs"@ && r@[0].priority == BackendPriority::Best && r@[0].available
            == procfs_available,
        r@[1].name@ == "libproc"@ && r@[1].priority == BackendPriority::Good && r@[1].available
            == libproc_available,
{
    let mut v = Vec::new();
    v.push(mapper_info("procfs", BackendPriority::Best, procfs_available));
    v.push(mapper_info("libproc", BackendPriority::Good, libproc_available));
    v
}

/// The mapper to use: the named one, or procfs when available, else libproc
/// when available.
pub fn select_socket_mapper(
    preference: Option<&str>,
    procfs_available: bool,
    libproc_available: bool,
) -> (r: Result<LinuxSocketMapper, MapperError>)
    ensures
        match preference {
            Some(p) => if p@ == "procfs"@ {
                if procfs_available {
                    r matches Ok(LinuxSocketMapper::Procfs(_))
                } else {
                    r matches Err(MapperError::Unavailable(_))
                }
            } else if p@ == "libproc"@ {
                if libproc_available {
                    r matches Ok(LinuxSocketMapper::Libproc(_))
                } else {
                    r matches Err(MapperError::Unavailable(_))
                }
            } else {
                r matches Err(MapperError::Unknown(n)) && n@ == p@
            },
            None => if procfs_available {
                r matches Ok(LinuxSocketMapper::Procfs(_))
            } else if libproc_available {
                r matches Ok(LinuxSocketMapper::Libproc(_))
            } else {
                r matches Err(MapperError::NoneAvailable)
            },
        },
{
    if let Some(name) = preference {
        if str_eq(name, "procfs") {
            match ProcfsSocketMapper::new(procfs_available) {
                Ok(m) => Ok(LinuxSocketMapper::Procfs(m)),
                Err(e) => Err(e),
            }
        } else if str_eq(name, "libproc") {
            match LibprocSocketMapper::new(libproc_available) {
                Ok(m) => Ok(LinuxSocketMapper::Libproc(m)),
                Err(e) => Err(e),
            }
        } else {
            Err(MapperError::Unknown(String::from_str(name)))
        }
    } else if procfs_available {
        Ok(LinuxSocketMapper::Procfs(ProcfsSocketMapper))
    } else if libproc_available {
        Ok(LinuxSocketMapper::Libproc(LibprocSocketMapper))
    } else {
        Err(MapperError::NoneAvailable)
    }
}

} // verus!
