//! Saved throttles and preferences.
use crate::process::TrafficType;
use std::collections::HashMap;
use vstd::prelude::*;

verus! {

broadcast use vstd::std_specs::hash::group_hash_axioms;

/// Directory of the configuration file, relative to the home directory.
pub const CONFIG_DIR: &'static str = ".config/chadthrottle";

/// Name of the configuration file.
pub const CONFIG_FILE: &'static str = "throttles.json";

/// A saved throttle of a process.
#[derive(Clone, Debug)]
pub struct SavedThrottle {
    pub process_name: String,
    pub upload_limit: Option<u64>,
    pub download_limit: Option<u64>,
}

/// Saved throttles and preferences.
#[derive(Clone, Debug)]
pub struct Config {
    /// Throttles by process id.
    pub throttles: HashMap<i32, SavedThrottle>,
    /// Whether saved throttles are restored on startup.
    pub auto_restore: bool,
    pub preferred_upload_backend: Option<String>,
    pub preferred_download_backend: Option<String>,
    pub preferred_socket_mapper: Option<String>,
    /// Interfaces to show: all when `None`.
    pub filtered_interfaces: Option<Vec<String>>,
    /// Traffic shown: all when `None`.
    pub traffic_view_mode: Option<TrafficType>,
}

/// Saved throttles are restored unless the configuration says otherwise.
pub fn default_auto_restore() -> (r: bool)
    ensures
        r,
{
    true
}

/// The configuration has no throttles and no preferences, and restores on startup.
pub open spec fn spec_is_default(c: Config) -> bool {
    &&& c.throttles@ == Map::<i32, SavedThrottle>::empty()
    &&& c.auto_restore
    &&& c.preferred_upload_backend is None
    &&& c.preferred_download_backend is None
    &&& c.preferred_socket_mapper is None
    &&& c.filtered_interfaces is None
    &&& c.traffic_view_mode is None
}

impl Default for Config {
    fn default() -> (r: Self)
        ensures
            spec_is_default(r),
    {
        Config {
            throttles: HashMap::new(),
            auto_restore: default_auto_restore(),
            preferred_upload_backend: None,
            preferred_download_backend: None,
            preferred_socket_mapper: None,
            filtered_interfaces: None,
            traffic_view_mode: None,
        }
    }
}

impl Config {
    /// Save (or replace) the throttle of a process.
    pub fn set_throttle(&mut self, pid: i32, throttle: SavedThrottle)
        ensures
            final(self).throttles@ == old(self).throttles@.insert(pid, throttle),
            final(self).auto_restore == old(self).auto_restore,
            final(self).preferred_upload_backend == old(self).preferred_upload_backend,
            final(self).preferred_download_backend == old(self).preferred_download_backend,
            final(self).preferred_socket_mapper == old(self).preferred_socket_mapper,
            final(self).traffic_view_mode == old(self).traffic_view_mode,
            final(self).filtered_interfaces == old(self).filtered_interfaces,
    {
        self.throttles.insert(pid, throttle);
    }

    /// Forget the throttle of a process.
    pub fn remove_throttle(&mut self, pid: i32)
        ensures
            final(self).throttles@ == old(self).throttles@.remove(pid),
            final(self).auto_restore == old(self).auto_restore,
            final(self).preferred_upload_backend == old(self).preferred_upload_backend,
            final(self).preferred_download_backend == old(self).preferred_download_backend,
            final(self).preferred_socket_mapper == old(self).preferred_socket_mapper,
            final(self).traffic_view_mode == old(self).traffic_view_mode,
            final(self).filtered_interfaces == old(self).filtered_interfaces,
    {
        self.throttles.remove(&pid);
    }

    /// The saved throttles.
    pub fn get_throttles(&self) -> (r: &HashMap<i32, SavedThrottle>)
        ensures
            r@ == self.throttles@,
    {
        &self.throttles
    }

    /// Forget every saved throttle.
    pub fn clear_throttles(&mut self)
        ensures
            final(self).throttles@ == Map::<i32, SavedThrottle>::empty(),
            final(self).auto_restore == old(self).auto_restore,
            final(self).preferred_upload_backend == old(self).preferred_upload_backend,
            final(self).preferred_download_backend == old(self).preferred_download_backend,
            final(self).preferred_socket_mapper == old(self).preferred_socket_mapper,
            final(self).traffic_view_mode == old(self).traffic_view_mode,
            final(self).filtered_interfaces == old(self).filtered_interfaces,
    {
        self.throttles.clear();
    }
}

/// A saved throttle is found again under its process; saving it leaves the
/// other processes' throttles and the count of others as they were, and a
/// removed throttle is gone.
pub proof fn lemma_saved_throttle_found(
    m: Map<i32, SavedThrottle>,
    pid: i32,
    t: SavedThrottle,
    other: i32,
)
    ensures
        m.insert(pid, t).contains_key(pid) && m.insert(pid, t)[pid] == t,
        other != pid ==> m.insert(pid, t).contains_key(other) == m.contains_key(other),
        other != pid && m.contains_key(other) ==> m.insert(pid, t)[other] == m[other],
        !m.remove(pid).contains_key(pid),
        other != pid ==> m.remove(pid).contains_key(other) == m.contains_key(other),
{
}

} // verus!
