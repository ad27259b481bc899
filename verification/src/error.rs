//! Reasons a request is refused.
use vstd::prelude::*;
use crate::ruleset::FirewallRule;

verus! {

/// Why a rule set or a metrics request could not be served.
#[derive(Debug)]
pub enum Error {
    /// A rule with no matcher at all.
    EmptyRule { r: FirewallRule },
    /// The datapath's maps could not be written.
    MapUpdateErr,
    /// The datapath's counters could not be read.
    MetricsErr,
    /// A rule that matches ports of an unspecified protocol, or whose
    /// address or mask is not a dotted quad.
    InvalidRule { r: FirewallRule },
}

} // verus!
