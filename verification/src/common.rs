//! Plain data shared between the packet filters and the userspace side:
//! traffic classes, the token bucket, the per-cgroup configuration and the
//! per-cgroup counters.
use vstd::prelude::*;

verus! {

/// Throttle every packet regardless of the remote endpoint.
pub const TRAFFIC_TYPE_ALL: u8 = 0;

/// Throttle only packets whose remote endpoint is outside local address space.
pub const TRAFFIC_TYPE_INTERNET: u8 = 1;

/// Throttle only packets whose remote endpoint is in local address space.
pub const TRAFFIC_TYPE_LOCAL: u8 = 2;

/// Token bucket state for rate limiting.
#[derive(Clone, Copy, Debug, PartialEq, Eq, Structural)]
pub struct TokenBucket {
    /// Maximum tokens (the burst size in bytes).
    pub capacity: u64,
    /// Tokens currently available.
    pub tokens: u64,
    /// Time of the last refill in nanoseconds; zero before the first packet.
    pub last_update_ns: u64,
    /// Sustained rate in bytes per second.
    pub rate_bps: u64,
}

impl TokenBucket {
    /// An empty bucket: no capacity, no tokens, never refilled.
    pub fn new() -> (r: Self)
        ensures
            r == (TokenBucket { capacity: 0, tokens: 0, last_update_ns: 0, rate_bps: 0 }),
    {
        TokenBucket { capacity: 0, tokens: 0, last_update_ns: 0, rate_bps: 0 }
    }
}

/// Configuration of one throttled cgroup.
#[derive(Clone, Copy, Debug)]
pub struct CgroupThrottleConfig {
    /// cgroup inode number.
    pub cgroup_id: u64,
    /// PID of the throttled process.
    pub pid: u32,
    /// Traffic class to throttle (`TRAFFIC_TYPE_*`).
    pub traffic_type: u8,
    /// Alignment padding, always zero.
    pub _padding: [u8; 3],
    /// Sustained rate in bytes per second.
    pub rate_bps: u64,
    /// Burst size in bytes (capacity of the bucket).
    pub burst_size: u64,
}

impl CgroupThrottleConfig {
    /// An all-zero configuration that throttles all traffic.
    pub fn new() -> (r: Self)
        ensures
            r.cgroup_id == 0,
            r.pid == 0,
            r.traffic_type == TRAFFIC_TYPE_ALL,
            r._padding@ == seq![0u8, 0u8, 0u8],
            r.rate_bps == 0,
            r.burst_size == 0,
    {
        let r = CgroupThrottleConfig {
            cgroup_id: 0,
            pid: 0,
            traffic_type: TRAFFIC_TYPE_ALL,
            _padding: [0, 0, 0],
            rate_bps: 0,
            burst_size: 0,
        };
        assert(r._padding@ =~= seq![0u8, 0u8, 0u8]);
        r
    }
}

/// Counters kept for one throttled cgroup.
#[derive(Clone, Copy, Debug, PartialEq, Eq, Structural)]
pub struct ThrottleStats {
    /// Packets that went through the bucket.
    pub packets_total: u64,
    /// Bytes that went through the bucket.
    pub bytes_total: u64,
    /// Packets dropped for lack of tokens.
    pub packets_dropped: u64,
    /// Bytes dropped for lack of tokens.
    pub bytes_dropped: u64,
    /// Number of times the filter ran.
    pub program_calls: u64,
    /// Number of times no configuration was present.
    pub config_misses: u64,
    /// The cgroup id of the configuration last applied.
    pub cgroup_id_seen: u64,
    /// Unused.
    pub _reserved: u64,
}

impl ThrottleStats {
    /// All counters zero.
    pub fn new() -> (r: Self)
        ensures
            r == (ThrottleStats {
                packets_total: 0,
                bytes_total: 0,
                packets_dropped: 0,
                bytes_dropped: 0,
                program_calls: 0,
                config_misses: 0,
                cgroup_id_seen: 0,
                _reserved: 0,
            }),
    {
        ThrottleStats {
            packets_total: 0,
            bytes_total: 0,
            packets_dropped: 0,
            bytes_dropped: 0,
            program_calls: 0,
            config_misses: 0,
            cgroup_id_seen: 0,
            _reserved: 0,
        }
    }
}

} // verus!
