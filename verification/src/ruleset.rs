//! The rule-set configuration that operators submit, and its translation into
//! the records of [`crate::ctypes`].
use vstd::prelude::*;
use vstd::utf8::encode_utf8;
use crate::ctypes::{
    fw_rule, fw_ruleset, rule_bytes, ruleset_of, FwRuleView, FwRulesetView, Protocol, RULE_ACTION_BLOCK, RULE_MATCH_DST_IP, RULE_MATCH_DST_PORT,
    RULE_MATCH_SRC_IP, RULE_MATCH_SRC_PORT, RULE_TB_MODE_PACKET, RULE_USE_TB,
};
use crate::ipv4::{parse_ipv4, spec_parse_ipv4};
use crate::wire::{be_bytes_u32, host_to_be_u32, lemma_network_order_bytes};
use crate::error::Error;
use crate::order::{entries_view, priority_sort, sort_by_priority};

verus! {

/// An IPv4 address and mask, both in dotted-quad text.
#[derive(Debug)]
pub struct IPMatcher {
    pub ip4: String,
    pub mask4: String,
}

impl Clone for IPMatcher {
    fn clone(&self) -> (r: Self)
        ensures
            r == *self,
    {
        IPMatcher { ip4: self.ip4.clone(), mask4: self.mask4.clone() }
    }
}

/// What a token bucket counts.
#[derive(Debug, Clone, Copy, PartialEq, Eq, Structural)]
pub enum BucketCountMode {
    Packet,
    Bytes,
}

/// A token bucket: refilled at `rate_per_sec`, holding at most `burst`.
#[derive(Debug, Clone, Copy)]
pub struct TokenBucketCfg {
    pub rate_per_sec: u64,
    pub burst: u64,
    pub count_mode: BucketCountMode,
}

/// An inclusive port range.
#[derive(Debug, Clone, Copy)]
pub struct PortMatcher {
    pub port_begin: u16,
    pub port_end: u16,
}

/// What to do with a packet.
#[derive(Debug, Clone, Copy, PartialEq, Eq, Structural)]
pub enum DefaultAction {
    Block,
    Allow,
}

/// A rule set: the action for packets that no rule matches, and the rules.
#[derive(Debug)]
pub struct Ruleset {
    pub default: DefaultAction,
    pub rules: Vec<FirewallRule>,
}

/// One configured rule. Every present matcher must hold for the rule to match.
#[derive(Debug)]
pub struct FirewallRule {
    pub src_ip: Option<IPMatcher>,
    pub dst_ip: Option<IPMatcher>,
    pub src_port: Option<PortMatcher>,
    pub dst_port: Option<PortMatcher>,
    pub protocol: Option<Protocol>,
    pub token_bucket: Option<TokenBucketCfg>,
    pub priority: Option<u64>,
    pub action: DefaultAction,
}

impl Clone for FirewallRule {
    fn clone(&self) -> (r: Self)
        ensures
            r == *self,
    {
        FirewallRule {
            src_ip: match &self.src_ip {
                Some(m) => Some(m.clone()),
                None => None,
            },
            dst_ip: match &self.dst_ip {
                Some(m) => Some(m.clone()),
                None => None,
            },
            src_port: self.src_port,
            dst_port: self.dst_port,
            protocol: self.protocol,
            token_bucket: self.token_bucket,
            priority: self.priority,
            action: self.action,
        }
    }
}

/// Address and mask of `m` in host order, when both texts are dotted quads.
pub open spec fn ip_fields(m: IPMatcher) -> Option<(u32, u32)> {
    match (spec_parse_ipv4(encode_utf8(m.ip4@)), spec_parse_ipv4(encode_utf8(m.mask4@))) {
        (Some(ip), Some(mask)) => Some((ip, mask)),
        _ => None,
    }
}

/// The address of `m` in host order (0 when unreadable).
pub open spec fn matcher_ip(m: IPMatcher) -> u32 {
    match ip_fields(m) {
        Some((ip, _)) => ip,
        None => 0,
    }
}

/// The mask of `m` in host order (0 when unreadable).
pub open spec fn matcher_mask(m: IPMatcher) -> u32 {
    match ip_fields(m) {
        Some((_, mask)) => mask,
        None => 0,
    }
}

/// Whether an optional address matcher can be translated.
pub open spec fn ip_ok(m: Option<IPMatcher>) -> bool {
    match m {
        Some(m) => ip_fields(m) is Some,
        None => true,
    }
}

/// `flag` when `present`, else no bit.
pub open spec fn flag_if(present: bool, flag: u16) -> u16 {
    if present {
        flag
    } else {
        0
    }
}

/// The flag word of the translation of `r`: one bit per present matcher,
/// the token-bucket bits, and the block bit for a blocking rule.
pub open spec fn rule_flags(r: FirewallRule) -> u16 {
    flag_if(r.src_ip is Some, RULE_MATCH_SRC_IP) | flag_if(r.dst_ip is Some, RULE_MATCH_DST_IP)
        | flag_if(r.src_port is Some, RULE_MATCH_SRC_PORT) | flag_if(
        r.dst_port is Some,
        RULE_MATCH_DST_PORT,
    ) | flag_if(r.token_bucket is Some, RULE_USE_TB) | flag_if(
        r.token_bucket is Some && r.token_bucket->0.count_mode == BucketCountMode::Packet,
        RULE_TB_MODE_PACKET,
    ) | flag_if(r.action == DefaultAction::Block, RULE_ACTION_BLOCK)
}

/// The datapath record for `r`, when its addresses are dotted quads:
/// addresses and masks in network order, absent matchers zero.
pub open spec fn spec_rule_to_ctype(r: FirewallRule) -> Option<FwRuleView> {
    if ip_ok(r.src_ip) && ip_ok(r.dst_ip) {
        Some(
            FwRuleView {
                tb_rate_per_sec: match r.token_bucket {
                    Some(tb) => tb.rate_per_sec,
                    None => 0,
                },
                tb_burst: match r.token_bucket {
                    Some(tb) => tb.burst,
                    None => 0,
                },
                dst_ip4: match r.dst_ip {
                    Some(m) => host_to_be_u32(matcher_ip(m)),
                    None => 0,
                },
                dst_mask4: match r.dst_ip {
                    Some(m) => host_to_be_u32(matcher_mask(m)),
                    None => 0,
                },
                src_ip4: match r.src_ip {
                    Some(m) => host_to_be_u32(matcher_ip(m)),
                    None => 0,
                },
                src_mask4: match r.src_ip {
                    Some(m) => host_to_be_u32(matcher_mask(m)),
                    None => 0,
                },
                dst_port_begin: match r.dst_port {
                    Some(p) => p.port_begin,
                    None => 0,
                },
                dst_port_end: match r.dst_port {
                    Some(p) => p.port_end,
                    None => 0,
                },
                src_port_begin: match r.src_port {
                    Some(p) => p.port_begin,
                    None => 0,
                },
                src_port_end: match r.src_port {
                    Some(p) => p.port_end,
                    None => 0,
                },
                flags: rule_flags(r),
                proto: match r.protocol {
                    Some(p) => p.spec_number(),
                    None => 0,
                },
                pad: 0,
            },
        )
    } else {
        None
    }
}

/// Whether `r` has no matcher at all (a protocol of `any` counts as none).
pub open spec fn spec_empty_rule(r: FirewallRule) -> bool {
    &&& r.src_ip is None
    &&& r.dst_ip is None
    &&& r.src_port is None
    &&& r.dst_port is None
    &&& (r.protocol is None || r.protocol == Some(Protocol::Any))
    &&& r.token_bucket is None
}

/// Whether `r` matches on a port without restricting the protocol to TCP or UDP.
pub open spec fn spec_invalid_rule(r: FirewallRule) -> bool {
    &&& (r.dst_port is Some || r.src_port is Some)
    &&& !(r.protocol == Some(Protocol::Tcp) || r.protocol == Some(Protocol::Udp))
}

/// Reads an address matcher, returning `(ip, mask)` in host order.
fn read_ip_matcher(m: &IPMatcher) -> (r: Option<(u32, u32)>)
    ensures
        r == ip_fields(*m),
{
    let ip = parse_ipv4(m.ip4.as_str());
    let mask = parse_ipv4(m.mask4.as_str());
    match (ip, mask) {
        (Some(ip), Some(mask)) => Some((ip, mask)),
        _ => None,
    }
}

impl FirewallRule {
    pub fn empty_rule(&self) -> (r: bool)
        ensures
            r == spec_empty_rule(*self),
    {
        self.src_ip.is_none() && self.dst_ip.is_none() && self.src_port.is_none()
            && self.dst_port.is_none() && (match self.protocol {
            None => true,
            Some(Protocol::Any) => true,
            Some(_) => false,
        }) && self.token_bucket.is_none()
    }

    pub fn invalid_rule(&self) -> (r: bool)
        ensures
            r == spec_invalid_rule(*self),
    {
        let tcp_or_udp = match self.protocol {
            Some(Protocol::Tcp) => true,
            Some(Protocol::Udp) => true,
            _ => false,
        };
        (self.dst_port.is_some() && !tcp_or_udp) || (self.src_port.is_some() && !tcp_or_udp)
    }

    /// The datapath record for this rule; fails when an address or mask is
    /// not a dotted quad.
    pub fn to_ctype(&self) -> (r: Result<fw_rule, ()>)
        ensures
            match r {
                Ok(rule) => spec_rule_to_ctype(*self) == Some(rule@),
                Err(_) => spec_rule_to_ctype(*self) is None,
            },
    {
        assert(forall|x: u16| #[trigger] (x | 0u16) == x) by (bit_vector);
        assert(forall|x: u16| #[trigger] (0u16 | x) == x) by (bit_vector);
        let mut r = fw_rule::new();
        if let Some(s) = &self.src_ip {
            match read_ip_matcher(s) {
                Some((ip, mask)) => r.match_src_ip4(ip, mask),
                None => return Err(()),
            }
        }
        if let Some(d) = &self.dst_ip {
            match read_ip_matcher(d) {
                Some((ip, mask)) => r.match_dst_ip4(ip, mask),
                None => return Err(()),
            }
        }
        if let Some(s) = &self.src_port {
            r.match_src_port(s.port_begin, s.port_end);
        }
        if let Some(d) = &self.dst_port {
            r.match_dst_port(d.port_begin, d.port_end);
        }
        if let Some(p) = &self.protocol {
            r.match_protocol(*p);
        }
        if let Some(tb) = &self.token_bucket {
            r.set_token_bucket(
                tb.rate_per_sec,
                tb.burst,
                match tb.count_mode {
                    BucketCountMode::Bytes => true,
                    BucketCountMode::Packet => false,
                },
            );
        }
        match self.action {
            DefaultAction::Block => r.default_block(),
            _ => {},
        }
        assert(r@ == spec_rule_to_ctype(*self)->0);
        Ok(r)
    }
}

/// Position of the first rule of `s` that satisfies `p`.
pub open spec fn first_index(s: Seq<FirewallRule>, p: spec_fn(FirewallRule) -> bool) -> Option<
    int,
>
    decreases s.len(),
{
    if s.len() == 0 {
        None
    } else if p(s[0]) {
        Some(0)
    } else {
        match first_index(s.drop_first(), p) {
            Some(i) => Some(i + 1),
            None => None,
        }
    }
}

proof fn lemma_first_index_at(s: Seq<FirewallRule>, p: spec_fn(FirewallRule) -> bool, i: int)
    requires
        0 <= i < s.len(),
        p(s[i]),
        forall|j: int| 0 <= j < i ==> !p(#[trigger] s[j]),
    ensures
        first_index(s, p) == Some(i),
    decreases s.len(),
{
    if i > 0 {
        assert forall|j: int| 0 <= j < i - 1 implies !p(#[trigger] s.drop_first()[j]) by {
            assert(s.drop_first()[j] == s[j + 1]);
        }
        lemma_first_index_at(s.drop_first(), p, i - 1);
    }
}

proof fn lemma_first_index_none(s: Seq<FirewallRule>, p: spec_fn(FirewallRule) -> bool)
    requires
        forall|j: int| 0 <= j < s.len() ==> !p(#[trigger] s[j]),
    ensures
        first_index(s, p) is None,
    decreases s.len(),
{
    if s.len() > 0 {
        assert forall|j: int| 0 <= j < s.len() - 1 implies !p(#[trigger] s.drop_first()[j]) by {
            assert(s.drop_first()[j] == s[j + 1]);
        }
        lemma_first_index_none(s.drop_first(), p);
    }
}

/// The priority of a rule (0 when none is given).
pub open spec fn priority_of(r: FirewallRule) -> u64 {
    match r.priority {
        Some(p) => p,
        None => 0,
    }
}

/// Each rule's priority with its datapath record.
pub open spec fn rule_entries(rules: Seq<FirewallRule>) -> Seq<(u64, FwRuleView)> {
    rules.map_values(|r: FirewallRule| (priority_of(r), spec_rule_to_ctype(r)->0))
}

/// What submitting `rs` yields: the first empty rule is refused; else the
/// first rule matching ports of an unspecified protocol; else the first rule
/// with an unreadable address; else the datapath rule set with the rules
/// ordered by priority (highest first, ties in the order given), truncated to
/// the datapath's capacity, dropping unmatched packets when the default is
/// `Block`.
pub open spec fn spec_ruleset_to_ctype(rs: Ruleset) -> Result<FwRulesetView, Error> {
    let rules = rs.rules@;
    match first_index(rules, |r: FirewallRule| spec_empty_rule(r)) {
        Some(i) => Err(Error::EmptyRule { r: rules[i] }),
        None => match first_index(rules, |r: FirewallRule| spec_invalid_rule(r)) {
            Some(i) => Err(Error::InvalidRule { r: rules[i] }),
            None => match first_index(rules, |r: FirewallRule| spec_rule_to_ctype(r) is None) {
                Some(i) => Err(Error::InvalidRule { r: rules[i] }),
                None => Ok(
                    ruleset_of(
                        priority_sort(rule_entries(rules)).map_values(
                            |e: (u64, FwRuleView)| e.1,
                        ),
                        rs.default == DefaultAction::Block,
                    ),
                ),
            },
        },
    }
}

impl Ruleset {
    /// Checks the rules and builds the datapath rule set from them.
    pub fn to_ctype(&self) -> (r: Result<fw_ruleset, Error>)
        ensures
            match r {
                Ok(rs) => spec_ruleset_to_ctype(*self) == Ok::<FwRulesetView, Error>(rs@),
                Err(e) => spec_ruleset_to_ctype(*self) == Err::<FwRulesetView, Error>(e),
            },
    {
        let ghost rules = self.rules@;
        let n = self.rules.len();
        let mut i: usize = 0;
        while i < n
            invariant
                n == rules.len(),
                rules == self.rules@,
                i <= n,
                forall|j: int| 0 <= j < i ==> !spec_empty_rule(#[trigger] rules[j]),
            decreases n - i,
        {
            if self.rules[i].empty_rule() {
                proof {
                    lemma_first_index_at(rules, |r: FirewallRule| spec_empty_rule(r), i as int);
                }
                return Err(Error::EmptyRule { r: self.rules[i].clone() });
            }
            i = i + 1;
        }
        proof {
            lemma_first_index_none(rules, |r: FirewallRule| spec_empty_rule(r));
        }
        i = 0;
        while i < n
            invariant
                n == rules.len(),
                rules == self.rules@,
                i <= n,
                forall|j: int| 0 <= j < i ==> !spec_invalid_rule(#[trigger] rules[j]),
                first_index(rules, |r: FirewallRule| spec_empty_rule(r)) is None,
            decreases n - i,
        {
            if self.rules[i].invalid_rule() {
                proof {
                    lemma_first_index_at(rules, |r: FirewallRule| spec_invalid_rule(r), i as int);
                }
                return Err(Error::InvalidRule { r: self.rules[i].clone() });
            }
            i = i + 1;
        }
        proof {
            lemma_first_index_none(rules, |r: FirewallRule| spec_invalid_rule(r));
        }
        let mut entries: Vec<(u64, fw_rule)> = Vec::new();
        i = 0;
        while i < n
            invariant
                n == rules.len(),
                rules == self.rules@,
                i <= n,
                entries@.len() == i,
                first_index(rules, |r: FirewallRule| spec_empty_rule(r)) is None,
                first_index(rules, |r: FirewallRule| spec_invalid_rule(r)) is None,
                forall|j: int| 0 <= j < i ==> spec_rule_to_ctype(#[trigger] rules[j]) is Some,
                forall|j: int|
                    0 <= j < i ==> #[trigger] entries_view(entries@)[j] == rule_entries(rules)[j],
            decreases n - i,
        {
            let rule = &self.rules[i];
            match rule.to_ctype() {
                Ok(c) => {
                    let prio: u64 = match rule.priority {
                        Some(p) => p,
                        None => 0,
                    };
                    let ghost before = entries@;
                    entries.push((prio, c));
                    assert forall|j: int| 0 <= j < i + 1 implies #[trigger] entries_view(
                        entries@,
                    )[j] == rule_entries(rules)[j] by {
                        if j < i {
                            assert(entries@[j] == before[j]);
                            assert(entries_view(before)[j] == rule_entries(rules)[j]);
                        }
                    }
                },
                Err(_) => {
                    proof {
                        lemma_first_index_at(rules, |r: FirewallRule| spec_rule_to_ctype(r) is None, i as int);
                    }
                    return Err(Error::InvalidRule { r: rule.clone() });
                },
            }
            i = i + 1;
        }
        proof {
            lemma_first_index_none(rules, |r: FirewallRule| spec_rule_to_ctype(r) is None);
            assert(entries_view(entries@) =~= rule_entries(rules));
        }
        let sorted = sort_by_priority(&entries);
        let mut ordered: Vec<fw_rule> = Vec::new();
        i = 0;
        while i < sorted.len()
            invariant
                i <= sorted@.len(),
                ordered@.len() == i,
                forall|j: int| 0 <= j < i ==> #[trigger] ordered@[j] == sorted@[j].1,
            decreases sorted@.len() - i,
        {
            ordered.push(sorted[i].1);
            i = i + 1;
        }
        let block = match self.default {
            DefaultAction::Block => true,
            _ => false,
        };
        let out = fw_ruleset::from_rules(ordered, block);
        assert(ordered@.map_values(|x: fw_rule| x@) =~= priority_sort(rule_entries(rules)).map_values(
            |e: (u64, FwRuleView)| e.1,
        ));
        Ok(out)
    }
}

/// The flag word of a translated rule records exactly which matchers the
/// rule has, whether its token bucket counts packets, and whether it blocks.
pub proof fn lemma_rule_flags_record_matchers(r: FirewallRule)
    ensures
        (rule_flags(r) & RULE_MATCH_SRC_IP != 0) == (r.src_ip is Some),
        (rule_flags(r) & RULE_MATCH_DST_IP != 0) == (r.dst_ip is Some),
        (rule_flags(r) & RULE_MATCH_SRC_PORT != 0) == (r.src_port is Some),
        (rule_flags(r) & RULE_MATCH_DST_PORT != 0) == (r.dst_port is Some),
        (rule_flags(r) & RULE_USE_TB != 0) == (r.token_bucket is Some),
        (rule_flags(r) & RULE_TB_MODE_PACKET != 0) == (r.token_bucket is Some
            && r.token_bucket->0.count_mode == BucketCountMode::Packet),
        (rule_flags(r) & RULE_ACTION_BLOCK != 0) == (r.action == DefaultAction::Block),
{
    let a = flag_if(r.src_ip is Some, RULE_MATCH_SRC_IP);
    let b = flag_if(r.dst_ip is Some, RULE_MATCH_DST_IP);
    let c = flag_if(r.src_port is Some, RULE_MATCH_SRC_PORT);
    let d = flag_if(r.dst_port is Some, RULE_MATCH_DST_PORT);
    let e = flag_if(r.token_bucket is Some, RULE_USE_TB);
    let f = flag_if(
        r.token_bucket is Some && r.token_bucket->0.count_mode == BucketCountMode::Packet,
        RULE_TB_MODE_PACKET,
    );
    let g = flag_if(r.action == DefaultAction::Block, RULE_ACTION_BLOCK);
    assert((a == 0 || a == 0x0002) && (b == 0 || b == 0x0001) && (c == 0 || c == 0x0008) && (d
        == 0 || d == 0x0004) && (e == 0 || e == 0x0010) && (f == 0 || f == 0x0020) && (g == 0 || g
        == 0x8000));
    let x = a | b | c | d | e | f | g;
    assert(((x & 0x0002 != 0) == (a != 0)) && ((x & 0x0001 != 0) == (b != 0)) && ((x & 0x0008
        != 0) == (c != 0)) && ((x & 0x0004 != 0) == (d != 0)) && ((x & 0x0010 != 0) == (e != 0))
        && ((x & 0x0020 != 0) == (f != 0)) && ((x & 0x8000 != 0) == (g != 0))) by (bit_vector)
        requires
            x == a | b | c | d | e | f | g,
            a == 0 || a == 0x0002,
            b == 0 || b == 0x0001,
            c == 0 || c == 0x0008,
            d == 0 || d == 0x0004,
            e == 0 || e == 0x0010,
            f == 0 || f == 0x0020,
            g == 0 || g == 0x8000,
    ;
}

proof fn lemma_first_index_some(s: Seq<FirewallRule>, p: spec_fn(FirewallRule) -> bool, i: int)
    requires
        0 <= i < s.len(),
        p(s[i]),
    ensures
        first_index(s, p) matches Some(j) && 0 <= j <= i && p(s[j]),
    decreases s.len(),
{
    if i > 0 && !p(s[0]) {
        assert(s.drop_first()[i - 1] == s[i]);
        lemma_first_index_some(s.drop_first(), p, i - 1);
    }
}

/// A rule set with a rule that has no matcher is refused, naming the first
/// such rule.
pub proof fn lemma_empty_rule_refused(rs: Ruleset, i: int)
    requires
        0 <= i < rs.rules@.len(),
        spec_empty_rule(rs.rules@[i]),
    ensures
        spec_ruleset_to_ctype(rs) matches Err(Error::EmptyRule { r }) && spec_empty_rule(r),
{
    lemma_first_index_some(rs.rules@, |r: FirewallRule| spec_empty_rule(r), i);
}

/// A rule set in which no rule is empty but some rule matches ports without
/// restricting the protocol to TCP or UDP is refused as invalid.
pub proof fn lemma_port_rule_needs_tcp_or_udp(rs: Ruleset, i: int)
    requires
        0 <= i < rs.rules@.len(),
        spec_invalid_rule(rs.rules@[i]),
        forall|j: int| 0 <= j < rs.rules@.len() ==> !spec_empty_rule(#[trigger] rs.rules@[j]),
    ensures
        spec_ruleset_to_ctype(rs) matches Err(Error::InvalidRule { r }) && spec_invalid_rule(r),
{
    lemma_first_index_none(rs.rules@, |r: FirewallRule| spec_empty_rule(r));
    lemma_first_index_some(rs.rules@, |r: FirewallRule| spec_invalid_rule(r), i);
}

/// An accepted rule set holds the rules ordered by priority, highest first,
/// rules of equal priority in the order given; as many as fit, the other
/// slots zero; and every rule given had a matcher, a valid port/protocol
/// combination and readable addresses.
pub proof fn lemma_accepted_ruleset(rs: Ruleset)
    requires
        spec_ruleset_to_ctype(rs) is Ok,
    ensures
        ({
            let v = spec_ruleset_to_ctype(rs)->Ok_0;
            let n = rs.rules@.len();
            &&& forall|j: int|
                0 <= j < n ==> !spec_empty_rule(#[trigger] rs.rules@[j]) && !spec_invalid_rule(
                    rs.rules@[j],
                ) && spec_rule_to_ctype(rs.rules@[j]) is Some
            &&& v.rule_cnt == if n > crate::ctypes::MAX_RULES {
                crate::ctypes::MAX_RULES as int
            } else {
                n as int
            }
            &&& v.flags == if rs.default == DefaultAction::Block {
                1u32
            } else {
                0u32
            }
            &&& exists|sorted: Seq<(u64, FwRuleView)>|
                {
                    &&& crate::order::is_priority_order(rule_entries(rs.rules@), sorted)
                    &&& forall|k: int|
                        0 <= k < v.rule_cnt ==> #[trigger] v.rules[k] == sorted[k].1
                    &&& forall|k: int|
                        v.rule_cnt <= k < crate::ctypes::MAX_RULES ==> #[trigger] v.rules[k]
                            == crate::ctypes::zero_rule()
                }
        }),
{
    let rules = rs.rules@;
    assert forall|j: int| 0 <= j < rules.len() implies !spec_empty_rule(#[trigger] rules[j])
        && !spec_invalid_rule(rules[j]) && spec_rule_to_ctype(rules[j]) is Some by {
        if spec_empty_rule(rules[j]) {
            lemma_first_index_some(rules, |r: FirewallRule| spec_empty_rule(r), j);
        }
        if spec_invalid_rule(rules[j]) {
            lemma_first_index_some(rules, |r: FirewallRule| spec_invalid_rule(r), j);
        }
        if spec_rule_to_ctype(rules[j]) is None {
            lemma_first_index_some(rules, |r: FirewallRule| spec_rule_to_ctype(r) is None, j);
        }
    }
    let sorted = priority_sort(rule_entries(rules));
    crate::order::lemma_priority_sort_is_priority_order(rule_entries(rules));
    let v = spec_ruleset_to_ctype(rs)->Ok_0;
    assert(forall|k: int| 0 <= k < v.rule_cnt ==> #[trigger] v.rules[k] == sorted[k].1);
}

/// In the image of a translated rule, the destination address and mask sit
/// at bytes 16..24 and the source address and mask at bytes 24..32, each as
/// the big-endian bytes of the configured value, whatever the host's byte order.
pub proof fn lemma_addresses_in_network_order(r: FirewallRule)
    requires
        spec_rule_to_ctype(r) is Some,
    ensures
        ({
            let b = rule_bytes(spec_rule_to_ctype(r)->0);
            &&& r.dst_ip matches Some(m) ==> b.subrange(16, 20) == be_bytes_u32(matcher_ip(m))
                && b.subrange(20, 24) == be_bytes_u32(matcher_mask(m))
            &&& r.src_ip matches Some(m) ==> b.subrange(24, 28) == be_bytes_u32(matcher_ip(m))
                && b.subrange(28, 32) == be_bytes_u32(matcher_mask(m))
        }),
{
    let v = spec_rule_to_ctype(r)->0;
    crate::ctypes::lemma_rule_address_offsets(v);
    if let Some(m) = r.dst_ip {
        lemma_network_order_bytes(matcher_ip(m));
        lemma_network_order_bytes(matcher_mask(m));
    }
    if let Some(m) = r.src_ip {
        lemma_network_order_bytes(matcher_ip(m));
        lemma_network_order_bytes(matcher_mask(m));
    }
}

/// What translating a rule yields, field by field, in terms of the rule:
/// translation succeeds exactly when every present address matcher has a
/// dotted-quad address and mask; each port range, the token bucket and the
/// protocol number are copied as configured (zero when absent); addresses
/// and masks are the parsed values in network order (zero when absent); each
/// flag bit is set exactly when its matcher is present; no other flag bit is set.
pub proof fn lemma_translation_fields(r: FirewallRule)
    ensures
        (spec_rule_to_ctype(r) is Some) == ((r.src_ip matches Some(m) ==> spec_parse_ipv4(
            encode_utf8(m.ip4@),
        ) is Some && spec_parse_ipv4(encode_utf8(m.mask4@)) is Some) && (r.dst_ip matches Some(m)
            ==> spec_parse_ipv4(encode_utf8(m.ip4@)) is Some && spec_parse_ipv4(
            encode_utf8(m.mask4@),
        ) is Some)),
        spec_rule_to_ctype(r) matches Some(v) ==> {
            &&& r.dst_port matches Some(p) ==> v.dst_port_begin == p.port_begin && v.dst_port_end
                == p.port_end
            &&& r.dst_port is None ==> v.dst_port_begin == 0 && v.dst_port_end == 0
            &&& r.src_port matches Some(p) ==> v.src_port_begin == p.port_begin && v.src_port_end
                == p.port_end
            &&& r.src_port is None ==> v.src_port_begin == 0 && v.src_port_end == 0
            &&& r.token_bucket matches Some(tb) ==> v.tb_rate_per_sec == tb.rate_per_sec
                && v.tb_burst == tb.burst
            &&& r.token_bucket is None ==> v.tb_rate_per_sec == 0 && v.tb_burst == 0
            &&& r.protocol matches Some(p) ==> v.proto == p.spec_number()
            &&& r.protocol is None ==> v.proto == 0
            &&& r.dst_ip matches Some(m) ==> v.dst_ip4 == host_to_be_u32(
                spec_parse_ipv4(encode_utf8(m.ip4@))->0,
            ) && v.dst_mask4 == host_to_be_u32(spec_parse_ipv4(encode_utf8(m.mask4@))->0)
            &&& r.dst_ip is None ==> v.dst_ip4 == 0 && v.dst_mask4 == 0
            &&& r.src_ip matches Some(m) ==> v.src_ip4 == host_to_be_u32(
                spec_parse_ipv4(encode_utf8(m.ip4@))->0,
            ) && v.src_mask4 == host_to_be_u32(spec_parse_ipv4(encode_utf8(m.mask4@))->0)
            &&& r.src_ip is None ==> v.src_ip4 == 0 && v.src_mask4 == 0
            &&& (v.flags & RULE_MATCH_SRC_IP != 0) == (r.src_ip is Some)
            &&& (v.flags & RULE_MATCH_DST_IP != 0) == (r.dst_ip is Some)
            &&& (v.flags & RULE_MATCH_SRC_PORT != 0) == (r.src_port is Some)
            &&& (v.flags & RULE_MATCH_DST_PORT != 0) == (r.dst_port is Some)
            &&& (v.flags & RULE_USE_TB != 0) == (r.token_bucket is Some)
            &&& (v.flags & RULE_TB_MODE_PACKET != 0) == (r.token_bucket matches Some(tb)
                && tb.count_mode == BucketCountMode::Packet)
            &&& (v.flags & RULE_ACTION_BLOCK != 0) == (r.action == DefaultAction::Block)
            &&& v.flags & 0x7fc0u16 == 0
            &&& v.pad == 0
        },
{
    lemma_rule_flags_record_matchers(r);
    let a = flag_if(r.src_ip is Some, RULE_MATCH_SRC_IP);
    let b = flag_if(r.dst_ip is Some, RULE_MATCH_DST_IP);
    let c = flag_if(r.src_port is Some, RULE_MATCH_SRC_PORT);
    let d = flag_if(r.dst_port is Some, RULE_MATCH_DST_PORT);
    let e = flag_if(r.token_bucket is Some, RULE_USE_TB);
    let f = flag_if(
        r.token_bucket is Some && r.token_bucket->0.count_mode == BucketCountMode::Packet,
        RULE_TB_MODE_PACKET,
    );
    let g = flag_if(r.action == DefaultAction::Block, RULE_ACTION_BLOCK);
    let x = a | b | c | d | e | f | g;
    assert(x & 0x7fc0u16 == 0) by (bit_vector)
        requires
            x == a | b | c | d | e | f | g,
            a == 0 || a == 0x0002,
            b == 0 || b == 0x0001,
            c == 0 || c == 0x0008,
            d == 0 || d == 0x0004,
            e == 0 || e == 0x0010,
            f == 0 || f == 0x0020,
            g == 0 || g == 0x8000,
    ;
}

/// A rule with any matcher is not empty: an address, a port range, a token
/// bucket, or a protocol other than `any` each make it non-empty; a rule
/// with none of them is empty.
pub proof fn lemma_empty_rule_cases(r: FirewallRule)
    ensures
        r.src_ip is Some ==> !spec_empty_rule(r),
        r.dst_ip is Some ==> !spec_empty_rule(r),
        r.src_port is Some ==> !spec_empty_rule(r),
        r.dst_port is Some ==> !spec_empty_rule(r),
        r.token_bucket is Some ==> !spec_empty_rule(r),
        (r.protocol matches Some(p) && p != Protocol::Any) ==> !spec_empty_rule(r),
        (r.src_ip is None && r.dst_ip is None && r.src_port is None && r.dst_port is None
            && r.token_bucket is None && (r.protocol is None || r.protocol == Some(Protocol::Any)))
            ==> spec_empty_rule(r),
{
}

/// Whether a rule has some matcher.
pub open spec fn has_matcher(r: FirewallRule) -> bool {
    ||| r.src_ip is Some
    ||| r.dst_ip is Some
    ||| r.src_port is Some
    ||| r.dst_port is Some
    ||| r.token_bucket is Some
    ||| (r.protocol matches Some(p) && p != Protocol::Any)
}

/// A rule set in which every rule has some matcher is never refused as
/// holding an empty rule.
pub proof fn lemma_rules_with_matchers_not_refused_empty(rs: Ruleset)
    requires
        forall|j: int| 0 <= j < rs.rules@.len() ==> has_matcher(#[trigger] rs.rules@[j]),
    ensures
        !(spec_ruleset_to_ctype(rs) matches Err(Error::EmptyRule { .. })),
{
    assert forall|j: int| 0 <= j < rs.rules@.len() implies !spec_empty_rule(
        #[trigger] rs.rules@[j],
    ) by {
        lemma_empty_rule_cases(rs.rules@[j]);
    }
    lemma_first_index_none(rs.rules@, |r: FirewallRule| spec_empty_rule(r));
}

/// A rule restricted to TCP or UDP is never invalid, whatever ports it
/// matches; a rule without port matchers is never invalid; a rule with a
/// source or destination port matcher and any other protocol (or none) is.
pub proof fn lemma_invalid_rule_cases(r: FirewallRule)
    ensures
        (r.protocol == Some(Protocol::Tcp) || r.protocol == Some(Protocol::Udp))
            ==> !spec_invalid_rule(r),
        (r.src_port is None && r.dst_port is None) ==> !spec_invalid_rule(r),
        ((r.src_port is Some || r.dst_port is Some) && r.protocol != Some(Protocol::Tcp)
            && r.protocol != Some(Protocol::Udp)) ==> spec_invalid_rule(r),
{
}

/// A rule set whose rules all have a matcher and a valid port/protocol
/// combination, but one of which has an address or mask that is not a
/// dotted quad, is refused as invalid, naming an unreadable rule.
pub proof fn lemma_unreadable_address_refused(rs: Ruleset, i: int)
    requires
        0 <= i < rs.rules@.len(),
        spec_rule_to_ctype(rs.rules@[i]) is None,
        forall|j: int| 0 <= j < rs.rules@.len() ==> has_matcher(#[trigger] rs.rules@[j]),
        forall|j: int| 0 <= j < rs.rules@.len() ==> !spec_invalid_rule(#[trigger] rs.rules@[j]),
    ensures
        spec_ruleset_to_ctype(rs) matches Err(Error::InvalidRule { r }) && spec_rule_to_ctype(r)
            is None,
{
    assert forall|j: int| 0 <= j < rs.rules@.len() implies !spec_empty_rule(
        #[trigger] rs.rules@[j],
    ) by {
        lemma_empty_rule_cases(rs.rules@[j]);
    }
    lemma_first_index_none(rs.rules@, |r: FirewallRule| spec_empty_rule(r));
    lemma_first_index_none(rs.rules@, |r: FirewallRule| spec_invalid_rule(r));
    lemma_first_index_some(rs.rules@, |r: FirewallRule| spec_rule_to_ctype(r) is None, i);
}

/// A rule set whose rules all have a matcher, a valid port/protocol
/// combination and dotted-quad addresses is accepted.
pub proof fn lemma_valid_rules_accepted(rs: Ruleset)
    requires
        forall|j: int|
            0 <= j < rs.rules@.len() ==> has_matcher(#[trigger] rs.rules@[j])
                && !spec_invalid_rule(rs.rules@[j]) && spec_rule_to_ctype(rs.rules@[j]) is Some,
    ensures
        spec_ruleset_to_ctype(rs) is Ok,
{
    assert forall|j: int| 0 <= j < rs.rules@.len() implies !spec_empty_rule(
        #[trigger] rs.rules@[j],
    ) by {
        lemma_empty_rule_cases(rs.rules@[j]);
    }
    lemma_first_index_none(rs.rules@, |r: FirewallRule| spec_empty_rule(r));
    lemma_first_index_none(rs.rules@, |r: FirewallRule| spec_invalid_rule(r));
    lemma_first_index_none(rs.rules@, |r: FirewallRule| spec_rule_to_ctype(r) is None);
}

} // verus!
