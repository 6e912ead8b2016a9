//! The egress packet filter: traffic-class filtering on the destination
//! address of packets that start at the IP header, a token bucket per cgroup, and the counters it keeps.
//!
//! The filter state lives in three maps keyed by a fixed key; `egress_step`
//! takes what the maps hold and returns what to store back and the verdict.
use crate::common::{
    CgroupThrottleConfig, ThrottleStats, TokenBucket, TRAFFIC_TYPE_ALL, TRAFFIC_TYPE_INTERNET,
    TRAFFIC_TYPE_LOCAL,
};
use crate::traffic::{should_throttle_ip_packet, spec_ipv4_local, spec_ipv6_local, spec_should_throttle};
use vstd::prelude::*;

verus! {

/// Verdict that lets a packet through.
pub const VERDICT_ALLOW: i32 = 1;

/// Verdict that drops a packet.
pub const VERDICT_DROP: i32 = 0;

/// Traffic-control action: accept the packet.
pub const TC_ACT_OK: i32 = 0;

/// Traffic-control action: continue with the next classifier action.
pub const TC_ACT_PIPE: i32 = 3;

/// Offset of the IPv4 destination address in the IP header.
pub const IPV4_DEST_OFFSET: usize = 16;

/// Offset of the IPv6 destination address in the IP header.
pub const IPV6_DEST_OFFSET: usize = 24;

/// Whether a packet whose locality is `local` is throttled under `traffic_type`.
pub open spec fn spec_class_throttled(traffic_type: u8, local: bool) -> bool {
    if traffic_type == TRAFFIC_TYPE_INTERNET {
        !local
    } else if traffic_type == TRAFFIC_TYPE_LOCAL {
        local
    } else {
        true
    }
}

/// Traffic-class decision on an outgoing packet, whose data starts at the
/// IP header: the remote endpoint is the destination address.
pub open spec fn spec_should_throttle_packet(packet: Seq<u8>, traffic_type: u8) -> bool {
    spec_should_throttle(traffic_type, false, packet)
}

fn class_throttled(traffic_type: u8, local: bool) -> (r: bool)
    ensures
        r == spec_class_throttled(traffic_type, local),
{
    if traffic_type == TRAFFIC_TYPE_INTERNET {
        !local
    } else if traffic_type == TRAFFIC_TYPE_LOCAL {
        local
    } else {
        true
    }
}

/// Copy `out.len()` bytes of `frame` from `offset`; false when they are not all there.
fn load_bytes(frame: &[u8], offset: usize, out: &mut [u8]) -> (ok: bool)
    ensures
        ok == (offset + old(out)@.len() <= frame@.len()),
        final(out)@.len() == old(out)@.len(),
        ok ==> final(out)@ == frame@.subrange(offset as int, offset + old(out)@.len()),
        !ok ==> final(out)@ == old(out)@,
{
    let n = out.len();
    if offset > frame.len() || n > frame.len() - offset {
        return false;
    }
    let mut i: usize = 0;
    while i < n
        invariant
            n == out@.len(),
            n == old(out)@.len(),
            offset + n <= frame@.len(),
            offset + n <= frame.len(),
            i <= n,
            forall|j: int| 0 <= j < i ==> out@[j] == frame@[offset + j],
        decreases n - i,
    {
        out[i] = frame[offset + i];
        i = i + 1;
    }
    assert(out@ =~= frame@.subrange(offset as int, offset + n));
    true
}

/// Traffic-class decision of the egress filter on an outgoing packet, whose
/// data starts at the IP header. Unknown versions and truncated headers are
/// throttled.
pub fn should_throttle_packet(packet: &[u8], traffic_type: u8) -> (r: bool)
    ensures
        r == spec_should_throttle_packet(packet@, traffic_type),
{
    should_throttle_ip_packet(traffic_type, false, packet)
}

/// Whether an IPv4 address lies in local address space.
pub fn is_ipv4_local(ip: &[u8; 4]) -> (r: bool)
    ensures
        r == spec_ipv4_local(ip@),
{
    crate::traffic::is_ipv4_local(ip)
}

/// Whether an IPv6 address lies in local address space.
pub fn is_ipv6_local(ip: &[u8; 16]) -> (r: bool)
    ensures
        r == spec_ipv6_local(ip@),
{
    crate::traffic::is_ipv6_local(ip)
}

/// Decision on the IPv4 destination address of a packet starting at the IP
/// header; packets shorter than the 20-byte header are throttled.
pub fn should_throttle_ipv4(packet: &[u8], traffic_type: u8) -> (r: bool)
    ensures
        r == (if packet@.len() < 20 {
            true
        } else {
            spec_class_throttled(traffic_type, spec_ipv4_local(packet@.subrange(16, 20)))
        }),
{
    if packet.len() < 20 {
        return true;
    }
    let mut dest_ip = [0u8, 0u8, 0u8, 0u8];
    if !load_bytes(packet, IPV4_DEST_OFFSET, &mut dest_ip) {
        return true;
    }
    let is_local = is_ipv4_local(&dest_ip);
    class_throttled(traffic_type, is_local)
}

/// Decision on the IPv6 destination address of a packet starting at the IP
/// header; packets shorter than the 40-byte header are throttled.
pub fn should_throttle_ipv6(packet: &[u8], traffic_type: u8) -> (r: bool)
    ensures
        r == (if packet@.len() < 40 {
            true
        } else {
            spec_class_throttled(traffic_type, spec_ipv6_local(packet@.subrange(24, 40)))
        }),
{
    if packet.len() < 40 {
        return true;
    }
    let mut dest_ip = [0u8; 16];
    if !load_bytes(packet, IPV6_DEST_OFFSET, &mut dest_ip) {
        return true;
    }
    let is_local = is_ipv6_local(&dest_ip);
    class_throttled(traffic_type, is_local)
}

/// Tokens earned over `elapsed_ns` at `rate_bps`: `elapsed_ns * rate_bps /
/// 1e9`, rounded down, saturating at `u64::MAX`.
pub open spec fn spec_tokens_earned(elapsed_ns: u64, rate_bps: u64) -> u64 {
    let t = elapsed_ns * rate_bps / 1_000_000_000;
    if t > u64::MAX { u64::MAX } else { t as u64 }
}

fn tokens_earned(elapsed_ns: u64, rate_bps: u64) -> (r: u64)
    ensures
        r == spec_tokens_earned(elapsed_ns, rate_bps),
{
    assert(elapsed_ns * rate_bps <= u64::MAX * u64::MAX) by (nonlinear_arith);
    let product: u128 = (elapsed_ns as u128) * (rate_bps as u128);
    let t: u128 = product / 1_000_000_000;
    if t > u64::MAX as u128 {
        u64::MAX
    } else {
        t as u64
    }
}

/// Tokens after the refill at `now_ns`: saturating add, then capped at capacity.
pub open spec fn spec_refilled_tokens(b: TokenBucket, now_ns: u64) -> u64 {
    let elapsed = if now_ns >= b.last_update_ns { (now_ns - b.last_update_ns) as u64 } else { 0u64 };
    let sum = b.tokens + spec_tokens_earned(elapsed, b.rate_bps);
    let added: u64 = if sum > u64::MAX { u64::MAX } else { sum as u64 };
    if added > b.capacity { b.capacity } else { added }
}

/// The bucket after a packet of `size` bytes at `now_ns`, and whether the
/// packet is allowed. A bucket never refilled before (time zero) takes the
/// time and spends from the tokens it has; otherwise it is refilled first.
pub open spec fn spec_bucket_allow(b: TokenBucket, size: u64, now_ns: u64) -> (TokenBucket, bool) {
    let available = if b.last_update_ns == 0 { b.tokens } else { spec_refilled_tokens(b, now_ns) };
    let allowed = available >= size;
    let tokens = if allowed { (available - size) as u64 } else { available };
    (TokenBucket { tokens, last_update_ns: now_ns, ..b }, allowed)
}

/// Token bucket step: returns whether a packet of `packet_size` bytes may
/// pass at time `now_ns`, and debits the bucket when it may.
pub fn token_bucket_allow(bucket: &mut TokenBucket, packet_size: u64, now_ns: u64) -> (allowed:
    bool)
    ensures
        (*final(bucket), allowed) == spec_bucket_allow(*old(bucket), packet_size, now_ns),
{
    if bucket.last_update_ns == 0 {
        bucket.last_update_ns = now_ns;
        if bucket.tokens >= packet_size {
            bucket.tokens = bucket.tokens.saturating_sub(packet_size);
            return true;
        } else {
            return false;
        }
    }
    let elapsed_ns = now_ns.saturating_sub(bucket.last_update_ns);
    let tokens_to_add = tokens_earned(elapsed_ns, bucket.rate_bps);
    bucket.tokens = bucket.tokens.saturating_add(tokens_to_add);
    if bucket.tokens > bucket.capacity {
        bucket.tokens = bucket.capacity;
    }
    bucket.last_update_ns = now_ns;
    if bucket.tokens >= packet_size {
        bucket.tokens = bucket.tokens.saturating_sub(packet_size);
        true
    } else {
        false
    }
}

/// After a refill, a bucket never holds more than its capacity, and an
/// allowed packet is paid for in full: the tokens left plus the packet size
/// are the tokens available before it.
pub proof fn lemma_bucket_bounded(b: TokenBucket, size: u64, now_ns: u64)
    requires
        b.last_update_ns != 0,
    ensures
        spec_bucket_allow(b, size, now_ns).0.tokens <= b.capacity,
        spec_bucket_allow(b, size, now_ns).1 ==> spec_bucket_allow(b, size, now_ns).0.tokens + size
            == spec_refilled_tokens(b, now_ns),
        !spec_bucket_allow(b, size, now_ns).1 ==> spec_bucket_allow(b, size, now_ns).0.tokens
            == spec_refilled_tokens(b, now_ns) < size,
        spec_bucket_allow(b, size, now_ns).0.capacity == b.capacity,
        spec_bucket_allow(b, size, now_ns).0.rate_bps == b.rate_bps,
{
}

/// Tokens a refill at `now_ns` earns the bucket (before saturation and the
/// capacity cap); none for a bucket never refilled before.
pub open spec fn spec_step_earned(b: TokenBucket, now_ns: u64) -> nat {
    if b.last_update_ns == 0 {
        0
    } else {
        let elapsed = if now_ns >= b.last_update_ns { (now_ns - b.last_update_ns) as u64 } else { 0u64 };
        spec_tokens_earned(elapsed, b.rate_bps) as nat
    }
}

/// A run of packets, each (size, time), through a bucket: the bucket after
/// it, the bytes let through, and the tokens earned by its refills.
pub open spec fn spec_bucket_run(b: TokenBucket, packets: Seq<(u64, u64)>) -> (TokenBucket, nat, nat)
    decreases packets.len(),
{
    if packets.len() == 0 {
        (b, 0, 0)
    } else {
        let prev = spec_bucket_run(b, packets.drop_last());
        let (size, now) = packets.last();
        let step = spec_bucket_allow(prev.0, size, now);
        let passed: nat = if step.1 { size as nat } else { 0 };
        (step.0, prev.1 + passed, prev.2 + spec_step_earned(prev.0, now))
    }
}

/// Over any run of packets, the bytes let through plus the tokens left never
/// exceed the tokens at the start plus the tokens the refills earned: the
/// bucket polices, it never lets through more than it was given.
pub proof fn lemma_bucket_run_bounded(b: TokenBucket, packets: Seq<(u64, u64)>)
    ensures
        spec_bucket_run(b, packets).1 + spec_bucket_run(b, packets).0.tokens <= b.tokens
            + spec_bucket_run(b, packets).2,
    decreases packets.len(),
{
    if packets.len() > 0 {
        lemma_bucket_run_bounded(b, packets.drop_last());
    }
}

/// What the egress filter stores back and answers for one packet.
#[derive(Clone, Copy, Debug)]
pub struct EgressStep {
    /// `VERDICT_ALLOW` or `VERDICT_DROP`.
    pub verdict: i32,
    /// Counters to store, when they are to be stored.
    pub stats: Option<ThrottleStats>,
    /// Bucket to store, when it is to be stored.
    pub bucket: Option<TokenBucket>,
}

/// `x + 1` saturating at `u64::MAX`.
pub open spec fn spec_sat_inc(x: u64, by: u64) -> u64 {
    if x + by > u64::MAX { u64::MAX } else { (x + by) as u64 }
}

/// The bucket used for a packet: the stored one, or a full bucket made from
/// the configuration at `init_ns`.
pub open spec fn spec_initial_bucket(
    stored: Option<TokenBucket>,
    config: CgroupThrottleConfig,
    init_ns: u64,
) -> TokenBucket {
    match stored {
        Some(b) => b,
        None => TokenBucket {
            capacity: config.burst_size,
            tokens: config.burst_size,
            last_update_ns: init_ns,
            rate_bps: config.rate_bps,
        },
    }
}

/// Whether `r` is what one run of the egress filter gives (see `egress_step`).
pub open spec fn spec_egress_result(
    stats: Option<ThrottleStats>,
    config: Option<CgroupThrottleConfig>,
    bucket: Option<TokenBucket>,
    frame: Seq<u8>,
    init_ns: u64,
    now_ns: u64,
    r: EgressStep,
) -> bool {
    let s0 = match stats {
        Some(s) => s,
        None => ThrottleStats {
            packets_total: 0,
            bytes_total: 0,
            packets_dropped: 0,
            bytes_dropped: 0,
            program_calls: 0,
            config_misses: 0,
            cgroup_id_seen: 0,
            _reserved: 0,
        },
    };
    let s1 = ThrottleStats { program_calls: spec_sat_inc(s0.program_calls, 1), ..s0 };
    match config {
        None => r.verdict == VERDICT_ALLOW && r.bucket is None && r.stats == Some(
            ThrottleStats { config_misses: spec_sat_inc(s1.config_misses, 1), ..s1 },
        ),
        Some(cfg) => if !spec_should_throttle_packet(frame, cfg.traffic_type) {
            r.verdict == VERDICT_ALLOW && r.bucket is None && r.stats is None
        } else {
            let size = frame.len() as u64;
            let step = spec_bucket_allow(spec_initial_bucket(bucket, cfg, init_ns), size, now_ns);
            let s2 = ThrottleStats {
                packets_total: spec_sat_inc(s1.packets_total, 1),
                bytes_total: spec_sat_inc(s1.bytes_total, size),
                ..s1
            };
            let s3 = if step.1 {
                s2
            } else {
                ThrottleStats {
                    packets_dropped: spec_sat_inc(s2.packets_dropped, 1),
                    bytes_dropped: spec_sat_inc(s2.bytes_dropped, size),
                    ..s2
                }
            };
            &&& r.bucket == Some(step.0)
            &&& r.stats == Some(ThrottleStats { cgroup_id_seen: cfg.cgroup_id, ..s3 })
            &&& r.verdict == (if step.1 { VERDICT_ALLOW } else { VERDICT_DROP })
        },
    }
}

/// One run of the egress filter.
///
/// `stats`, `config` and `bucket` are what the maps hold for the fixed key;
/// `init_ns` is the clock read when a bucket is created and `now_ns` the
/// clock read for the refill. Without a configuration the packet passes and
/// a configuration miss is counted. A packet outside the configured traffic
/// class passes and nothing is stored. Otherwise the bucket decides, and the
/// bucket and the counters are stored.
pub fn egress_step(
    stats: Option<ThrottleStats>,
    config: Option<CgroupThrottleConfig>,
    bucket: Option<TokenBucket>,
    frame: &[u8],
    init_ns: u64,
    now_ns: u64,
) -> (r: EgressStep)
    ensures
        spec_egress_result(stats, config, bucket, frame@, init_ns, now_ns, r),
{
    let mut s = match stats {
        Some(s) => s,
        None => ThrottleStats::new(),
    };
    s.program_calls = s.program_calls.saturating_add(1);
    let cfg = match config {
        Some(cfg) => cfg,
        None => {
            s.config_misses = s.config_misses.saturating_add(1);
            return EgressStep { verdict: VERDICT_ALLOW, stats: Some(s), bucket: None };
        },
    };
    if !should_throttle_packet(frame, cfg.traffic_type) {
        return EgressStep { verdict: VERDICT_ALLOW, stats: None, bucket: None };
    }
    let packet_size = frame.len() as u64;
    let mut b = match bucket {
        Some(b) => b,
        None => TokenBucket {
            capacity: cfg.burst_size,
            tokens: cfg.burst_size,
            last_update_ns: init_ns,
            rate_bps: cfg.rate_bps,
        },
    };
    let allow = token_bucket_allow(&mut b, packet_size, now_ns);
    s.packets_total = s.packets_total.saturating_add(1);
    s.bytes_total = s.bytes_total.saturating_add(packet_size);
    if !allow {
        s.packets_dropped = s.packets_dropped.saturating_add(1);
        s.bytes_dropped = s.bytes_dropped.saturating_add(packet_size);
    }
    s.cgroup_id_seen = cfg.cgroup_id;
    EgressStep {
        verdict: if allow { VERDICT_ALLOW } else { VERDICT_DROP },
        stats: Some(s),
        bucket: Some(b),
    }
}

/// The first packet of a cgroup meets a full bucket: with no bucket
/// stored, a throttled packet no larger than the burst size passes when
/// the bucket is made, and the bucket stored holds the burst size less the
/// packet, at the configured capacity and rate.
pub proof fn lemma_first_packet_meets_full_bucket(
    stats: Option<ThrottleStats>,
    cfg: CgroupThrottleConfig,
    frame: Seq<u8>,
    now_ns: u64,
    r: EgressStep,
)
    requires
        spec_egress_result(stats, Some(cfg), None, frame, now_ns, now_ns, r),
        spec_should_throttle_packet(frame, cfg.traffic_type),
        frame.len() <= cfg.burst_size,
    ensures
        r.verdict == VERDICT_ALLOW,
        r.bucket == Some(
            TokenBucket {
                capacity: cfg.burst_size,
                tokens: (cfg.burst_size - frame.len()) as u64,
                last_update_ns: now_ns,
                rate_bps: cfg.rate_bps,
            },
        ),
{
    assert(spec_tokens_earned(0, cfg.rate_bps) == 0);
}

/// A throttled packet larger than what the bucket can hold at once (its
/// capacity) is always dropped, and the drop is counted.
pub proof fn lemma_oversized_packet_dropped(
    stats: Option<ThrottleStats>,
    cfg: CgroupThrottleConfig,
    bucket: Option<TokenBucket>,
    frame: Seq<u8>,
    init_ns: u64,
    now_ns: u64,
    r: EgressStep,
)
    requires
        spec_egress_result(stats, Some(cfg), bucket, frame, init_ns, now_ns, r),
        spec_should_throttle_packet(frame, cfg.traffic_type),
        frame.len() <= u64::MAX,
        match bucket {
            Some(b) => b.tokens <= b.capacity && frame.len() > b.capacity,
            None => frame.len() > cfg.burst_size,
        },
    ensures
        r.verdict == VERDICT_DROP,
{
}

/// Final verdict of the egress filter: the step's verdict, or allow when a
/// map store failed.
pub fn egress_verdict(result: Result<i32, i64>) -> (r: i32)
    ensures
        r == (match result {
            Ok(v) => v,
            Err(_) => VERDICT_ALLOW,
        }),
{
    match result {
        Ok(ret) => ret,
        Err(_) => VERDICT_ALLOW,
    }
}

/// The ingress classifier's decision: packets continue through the
/// traffic-control pipeline.
pub fn tc_classify() -> (r: Result<i32, i64>)
    ensures
        r == Ok::<i32, i64>(TC_ACT_PIPE),
{
    Ok(TC_ACT_PIPE)
}

/// Final action of the ingress classifier: its result, or accept on error.
pub fn tc_classifier_action(result: Result<i32, i64>) -> (r: i32)
    ensures
        r == (match result {
            Ok(v) => v,
            Err(_) => TC_ACT_OK,
        }),
{
    match result {
        Ok(ret) => ret,
        Err(_) => TC_ACT_OK,
    }
}

} // verus!
