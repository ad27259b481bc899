//! Verified core of a small XDP firewall: the C-layout records that the
//! datapath reads, the rule-set configuration and its compilation into those
//! records, the double-buffered installation of a rule set, and the counters
//! that the datapath exports.
pub mod wire;
pub mod ctypes;
pub mod ipv4;
pub mod ruleset;
pub mod order;
pub mod error;
pub mod metrics;
pub mod update;
