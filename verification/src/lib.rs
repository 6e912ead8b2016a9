//! Per-process bandwidth monitoring and throttling: packet classification,
//! token-bucket filtering, connection accounting and throttle bookkeeping.
use vstd::prelude::*;

pub mod backends;
pub mod bpf;
pub mod cgroup;
pub mod cli;
pub mod common;
pub mod config;
pub mod dnctl;
pub mod egress;
pub mod ip_text;
pub mod keybindings;
pub mod manager;
pub mod monitor;
pub mod nft;
pub mod packet;
pub mod parse;
pub mod pid_map;
pub mod pid_table;
pub mod process;
pub mod process_utils;
pub mod socket_mapper;
pub mod tc;
pub mod text;
pub mod throttle;
pub mod traffic;
pub mod traffic_classifier;
pub mod windows_poll;

verus! {

} // verus!
