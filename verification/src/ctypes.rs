//! Records shared with the XDP datapath, with the exact memory layout the
//! datapath expects (C layout, host byte order unless noted).
use vstd::prelude::*;
use crate::wire::{
    host_to_be_u32, ne_bytes_u16, ne_bytes_u32, ne_bytes_u64, push_bytes, u16_to_ne_bytes,
    u32_to_be, u32_to_ne_bytes, u64_to_ne_bytes,
};

verus! {

/// Capacity of a rule set in the datapath.
pub const MAX_RULES: usize = 32;

/// Size in bytes of one encoded [`fw_rule`].
pub const RULE_SIZE: usize = 48;

/// Size in bytes of an encoded [`fw_ruleset`].
pub const RULESET_SIZE: usize = 1544;

pub const RULE_MATCH_DST_IP: u16 = 0x0001;
pub const RULE_MATCH_SRC_IP: u16 = 0x0002;
pub const RULE_MATCH_DST_PORT: u16 = 0x0004;
pub const RULE_MATCH_SRC_PORT: u16 = 0x0008;
pub const RULE_USE_TB: u16 = 0x0010;
pub const RULE_TB_MODE_PACKET: u16 = 0x0020;
pub const RULE_ACTION_BLOCK: u16 = 0x8000;

/// IP protocols a rule can match on.
#[derive(Debug, Clone, Copy, PartialEq, Eq, Structural)]
pub enum Protocol {
    Any,
    Icmp,
    Igmp,
    Tcp,
    Udp,
    Encap,
    Ospf,
    Sctp,
}

impl Protocol {
    /// IANA protocol number (`Any` is 0).
    pub open spec fn spec_number(self) -> u8 {
        match self {
            Protocol::Any => 0,
            Protocol::Icmp => 1,
            Protocol::Igmp => 2,
            Protocol::Tcp => 6,
            Protocol::Udp => 17,
            Protocol::Encap => 41,
            Protocol::Ospf => 89,
            Protocol::Sctp => 132,
        }
    }

    /// IANA protocol number (`Any` is 0).
    pub fn number(&self) -> (r: u8)
        ensures
            r == self.spec_number(),
    {
        match self {
            Protocol::Any => 0,
            Protocol::Icmp => 1,
            Protocol::Igmp => 2,
            Protocol::Tcp => 6,
            Protocol::Udp => 17,
            Protocol::Encap => 41,
            Protocol::Ospf => 89,
            Protocol::Sctp => 132,
        }
    }
}

/// One rule as the datapath reads it.
#[allow(non_camel_case_types)]
#[derive(Debug, Clone, Copy, PartialEq, Eq, Structural)]
pub struct fw_rule {
    tb_rate_per_sec: u64,
    tb_burst: u64,
    dst_ip4: u32,
    dst_mask4: u32,
    src_ip4: u32,
    src_mask4: u32,
    dst_port_begin: u16,
    dst_port_end: u16,
    src_port_begin: u16,
    src_port_end: u16,
    flags: u16,
    proto: u8,
    _pad: u8,
}

/// The fields of a [`fw_rule`].
pub struct FwRuleView {
    pub tb_rate_per_sec: u64,
    pub tb_burst: u64,
    /// Destination address, network byte order.
    pub dst_ip4: u32,
    /// Destination mask, network byte order.
    pub dst_mask4: u32,
    /// Source address, network byte order.
    pub src_ip4: u32,
    /// Source mask, network byte order.
    pub src_mask4: u32,
    pub dst_port_begin: u16,
    pub dst_port_end: u16,
    pub src_port_begin: u16,
    pub src_port_end: u16,
    pub flags: u16,
    pub proto: u8,
    pub pad: u8,
}

/// The rule that matches nothing and does nothing: every field zero.
pub open spec fn zero_rule() -> FwRuleView {
    FwRuleView {
        tb_rate_per_sec: 0,
        tb_burst: 0,
        dst_ip4: 0,
        dst_mask4: 0,
        src_ip4: 0,
        src_mask4: 0,
        dst_port_begin: 0,
        dst_port_end: 0,
        src_port_begin: 0,
        src_port_end: 0,
        flags: 0,
        proto: 0,
        pad: 0,
    }
}

/// The 48 bytes of a rule in C layout: the fields in declaration order, the
/// addresses and masks already in network order, then 4 bytes of tail padding.
pub open spec fn rule_bytes(r: FwRuleView) -> Seq<u8> {
    ne_bytes_u64(r.tb_rate_per_sec) + ne_bytes_u64(r.tb_burst) + ne_bytes_u32(r.dst_ip4)
        + ne_bytes_u32(r.dst_mask4) + ne_bytes_u32(r.src_ip4) + ne_bytes_u32(r.src_mask4)
        + ne_bytes_u16(r.dst_port_begin) + ne_bytes_u16(r.dst_port_end) + ne_bytes_u16(
        r.src_port_begin,
    ) + ne_bytes_u16(r.src_port_end) + ne_bytes_u16(r.flags) + seq![r.proto, r.pad] + seq![
        0u8,
        0u8,
        0u8,
        0u8,
    ]
}

impl View for fw_rule {
    type V = FwRuleView;

    closed spec fn view(&self) -> FwRuleView {
        FwRuleView {
            tb_rate_per_sec: self.tb_rate_per_sec,
            tb_burst: self.tb_burst,
            dst_ip4: self.dst_ip4,
            dst_mask4: self.dst_mask4,
            src_ip4: self.src_ip4,
            src_mask4: self.src_mask4,
            dst_port_begin: self.dst_port_begin,
            dst_port_end: self.dst_port_end,
            src_port_begin: self.src_port_begin,
            src_port_end: self.src_port_end,
            flags: self.flags,
            proto: self.proto,
            pad: self._pad,
        }
    }
}

impl fw_rule {
    /// The rule with every field zero.
    pub fn new() -> (r: Self)
        ensures
            r@ == zero_rule(),
    {
        fw_rule {
            tb_rate_per_sec: 0,
            tb_burst: 0,
            dst_ip4: 0,
            dst_mask4: 0,
            src_ip4: 0,
            src_mask4: 0,
            dst_port_begin: 0,
            dst_port_end: 0,
            src_port_begin: 0,
            src_port_end: 0,
            flags: 0,
            proto: 0,
            _pad: 0,
        }
    }

    /// matches source port \[port_begin, port_end\]
    pub fn match_src_port(&mut self, port_begin: u16, port_end: u16)
        ensures
            final(self)@ == (FwRuleView {
                src_port_begin: port_begin,
                src_port_end: port_end,
                flags: old(self)@.flags | RULE_MATCH_SRC_PORT,
                ..old(self)@
            }),
    {
        self.src_port_begin = port_begin;
        self.src_port_end = port_end;
        self.flags = self.flags | RULE_MATCH_SRC_PORT;
    }

    /// matches destination port \[port_begin, port_end\]
    pub fn match_dst_port(&mut self, port_begin: u16, port_end: u16)
        ensures
            final(self)@ == (FwRuleView {
                dst_port_begin: port_begin,
                dst_port_end: port_end,
                flags: old(self)@.flags | RULE_MATCH_DST_PORT,
                ..old(self)@
            }),
    {
        self.dst_port_begin = port_begin;
        self.dst_port_end = port_end;
        self.flags = self.flags | RULE_MATCH_DST_PORT;
    }

    /// matches source addresses `a` with `a & mask == ip & mask`; `ip` and
    /// `mask` are given in host order and stored in network order
    pub fn match_src_ip4(&mut self, ip: u32, mask: u32)
        ensures
            final(self)@ == (FwRuleView {
                src_ip4: host_to_be_u32(ip),
                src_mask4: host_to_be_u32(mask),
                flags: old(self)@.flags | RULE_MATCH_SRC_IP,
                ..old(self)@
            }),
    {
        self.src_ip4 = u32_to_be(ip);
        self.src_mask4 = u32_to_be(mask);
        self.flags = self.flags | RULE_MATCH_SRC_IP;
    }

    /// matches destination addresses `a` with `a & mask == ip & mask`; `ip`
    /// and `mask` are given in host order and stored in network order
    pub fn match_dst_ip4(&mut self, ip: u32, mask: u32)
        ensures
            final(self)@ == (FwRuleView {
                dst_ip4: host_to_be_u32(ip),
                dst_mask4: host_to_be_u32(mask),
                flags: old(self)@.flags | RULE_MATCH_DST_IP,
                ..old(self)@
            }),
    {
        self.dst_ip4 = u32_to_be(ip);
        self.dst_mask4 = u32_to_be(mask);
        self.flags = self.flags | RULE_MATCH_DST_IP;
    }

    /// matches packets of `protocol` (a single byte, so byte order does not apply)
    pub fn match_protocol(&mut self, protocol: Protocol)
        ensures
            final(self)@ == (FwRuleView { proto: protocol.spec_number(), ..old(self)@ }),
    {
        self.proto = protocol.number();
    }

    /// drop the packets this rule matches
    pub fn default_block(&mut self)
        ensures
            final(self)@ == (FwRuleView {
                flags: old(self)@.flags | RULE_ACTION_BLOCK,
                ..old(self)@
            }),
    {
        self.flags = self.flags | RULE_ACTION_BLOCK;
    }

    /// limit the rule with a token bucket refilled at `rate_per_sec` up to
    /// `burst`, counting bytes when `count_bytes` holds and packets otherwise
    pub fn set_token_bucket(&mut self, rate_per_sec: u64, burst: u64, count_bytes: bool)
        ensures
            final(self)@ == (FwRuleView {
                tb_rate_per_sec: rate_per_sec,
                tb_burst: burst,
                flags: if count_bytes {
                    old(self)@.flags | RULE_USE_TB
                } else {
                    old(self)@.flags | RULE_USE_TB | RULE_TB_MODE_PACKET
                },
                ..old(self)@
            }),
    {
        self.tb_rate_per_sec = rate_per_sec;
        self.tb_burst = burst;
        self.flags = self.flags | RULE_USE_TB;
        if !count_bytes {
            self.flags = self.flags | RULE_TB_MODE_PACKET;
        }
    }

    /// The rule's memory image as the datapath reads it.
    pub fn to_bytes(&self) -> (r: Vec<u8>)
        ensures
            r@ == rule_bytes(self@),
            r@.len() == RULE_SIZE,
    {
        let mut out: Vec<u8> = Vec::new();
        self.write_bytes(&mut out);
        out
    }

    /// Appends the rule's memory image to `out`.
    pub fn write_bytes(&self, out: &mut Vec<u8>)
        ensures
            final(out)@ == old(out)@ + rule_bytes(self@),
            rule_bytes(self@).len() == RULE_SIZE,
    {
        let ghost start = out@;
        push_bytes(out, &u64_to_ne_bytes(self.tb_rate_per_sec));
        push_bytes(out, &u64_to_ne_bytes(self.tb_burst));
        push_bytes(out, &u32_to_ne_bytes(self.dst_ip4));
        push_bytes(out, &u32_to_ne_bytes(self.dst_mask4));
        push_bytes(out, &u32_to_ne_bytes(self.src_ip4));
        push_bytes(out, &u32_to_ne_bytes(self.src_mask4));
        push_bytes(out, &u16_to_ne_bytes(self.dst_port_begin));
        push_bytes(out, &u16_to_ne_bytes(self.dst_port_end));
        push_bytes(out, &u16_to_ne_bytes(self.src_port_begin));
        push_bytes(out, &u16_to_ne_bytes(self.src_port_end));
        push_bytes(out, &u16_to_ne_bytes(self.flags));
        out.push(self.proto);
        out.push(self._pad);
        out.push(0);
        out.push(0);
        out.push(0);
        out.push(0);
        assert(out@ =~= start + rule_bytes(self@));
    }
}

impl Default for fw_rule {
    /// The rule with every field zero.
    fn default() -> (r: Self)
        ensures
            r@ == zero_rule(),
    {
        fw_rule::new()
    }
}

/// A complete rule set as the datapath reads it: the number of rules in use,
/// flags (bit 0: drop what no rule matches) and a fixed array of rules.
#[allow(non_camel_case_types)]
#[derive(Debug)]
pub struct fw_ruleset {
    rule_cnt: u32,
    flags: u32,
    rules: [fw_rule; MAX_RULES],
}

/// The fields of a [`fw_ruleset`].
pub struct FwRulesetView {
    pub rule_cnt: u32,
    pub flags: u32,
    pub rules: Seq<FwRuleView>,
}

/// The bytes of the rules `rules[0..n]`, one after the other.
pub open spec fn rules_bytes(rules: Seq<FwRuleView>, n: int) -> Seq<u8>
    decreases n,
{
    if n <= 0 {
        seq![]
    } else {
        rules_bytes(rules, n - 1) + rule_bytes(rules[n - 1])
    }
}

/// The memory image of a rule set: count, flags, then every rule slot.
pub open spec fn ruleset_bytes(rs: FwRulesetView) -> Seq<u8> {
    ne_bytes_u32(rs.rule_cnt) + ne_bytes_u32(rs.flags) + rules_bytes(rs.rules, MAX_RULES as int)
}

/// The rule set that `fw_ruleset::from_rules(rules, default_block)` builds:
/// the first `MAX_RULES` rules in order, the remaining slots zero, the count
/// of rules kept, and flag bit 0 set exactly when unmatched packets are dropped.
pub open spec fn ruleset_of(rules: Seq<FwRuleView>, default_block: bool) -> FwRulesetView {
    FwRulesetView {
        rule_cnt: if rules.len() > MAX_RULES {
            MAX_RULES as u32
        } else {
            rules.len() as u32
        },
        flags: if default_block {
            1
        } else {
            0
        },
        rules: Seq::new(
            MAX_RULES as nat,
            |i: int|
                if i < rules.len() {
                    rules[i]
                } else {
                    zero_rule()
                },
        ),
    }
}

/// Every rule image is 48 bytes long.
pub proof fn lemma_rule_bytes_len(r: FwRuleView)
    ensures
        rule_bytes(r).len() == RULE_SIZE,
{
}

/// Where the address fields sit in a rule's image: destination address and
/// mask at bytes 16..24, source address and mask at 24..32.
pub proof fn lemma_rule_address_offsets(r: FwRuleView)
    ensures
        rule_bytes(r).subrange(16, 20) == ne_bytes_u32(r.dst_ip4),
        rule_bytes(r).subrange(20, 24) == ne_bytes_u32(r.dst_mask4),
        rule_bytes(r).subrange(24, 28) == ne_bytes_u32(r.src_ip4),
        rule_bytes(r).subrange(28, 32) == ne_bytes_u32(r.src_mask4),
{
    let b = rule_bytes(r);
    assert(b.subrange(16, 20) =~= ne_bytes_u32(r.dst_ip4));
    assert(b.subrange(20, 24) =~= ne_bytes_u32(r.dst_mask4));
    assert(b.subrange(24, 28) =~= ne_bytes_u32(r.src_ip4));
    assert(b.subrange(28, 32) =~= ne_bytes_u32(r.src_mask4));
}

/// Where the other fields sit in a rule's image: token-bucket rate and burst
/// at 0..16, port ranges at 32..40, flags at 40..42, protocol at 42, the pad
/// byte at 43, and four zero bytes at the end.
pub proof fn lemma_rule_field_offsets(r: FwRuleView)
    ensures
        rule_bytes(r).len() == RULE_SIZE,
        rule_bytes(r).subrange(0, 8) == ne_bytes_u64(r.tb_rate_per_sec),
        rule_bytes(r).subrange(8, 16) == ne_bytes_u64(r.tb_burst),
        rule_bytes(r).subrange(32, 34) == ne_bytes_u16(r.dst_port_begin),
        rule_bytes(r).subrange(34, 36) == ne_bytes_u16(r.dst_port_end),
        rule_bytes(r).subrange(36, 38) == ne_bytes_u16(r.src_port_begin),
        rule_bytes(r).subrange(38, 40) == ne_bytes_u16(r.src_port_end),
        rule_bytes(r).subrange(40, 42) == ne_bytes_u16(r.flags),
        rule_bytes(r)[42] == r.proto,
        rule_bytes(r)[43] == r.pad,
        forall|i: int| 44 <= i < 48 ==> #[trigger] rule_bytes(r)[i] == 0,
{
    let b = rule_bytes(r);
    assert(b.subrange(0, 8) =~= ne_bytes_u64(r.tb_rate_per_sec));
    assert(b.subrange(8, 16) =~= ne_bytes_u64(r.tb_burst));
    assert(b.subrange(32, 34) =~= ne_bytes_u16(r.dst_port_begin));
    assert(b.subrange(34, 36) =~= ne_bytes_u16(r.dst_port_end));
    assert(b.subrange(36, 38) =~= ne_bytes_u16(r.src_port_begin));
    assert(b.subrange(38, 40) =~= ne_bytes_u16(r.src_port_end));
    assert(b.subrange(40, 42) =~= ne_bytes_u16(r.flags));
}

/// What a rule set built from `rules` holds, slot by slot: slot `k` holds
/// `rules[k]` while `k` is below both the number of rules and the capacity,
/// every other slot is the zero rule; the count is the number of rules kept,
/// never more than the capacity; flag bit 0 is set exactly when unmatched
/// packets are dropped.
pub proof fn lemma_ruleset_of_slots(rules: Seq<FwRuleView>, default_block: bool)
    ensures
        ruleset_of(rules, default_block).rules.len() == MAX_RULES,
        ruleset_of(rules, default_block).rule_cnt <= MAX_RULES,
        ruleset_of(rules, default_block).rule_cnt <= rules.len(),
        rules.len() <= MAX_RULES ==> ruleset_of(rules, default_block).rule_cnt == rules.len(),
        rules.len() > MAX_RULES ==> ruleset_of(rules, default_block).rule_cnt == MAX_RULES,
        forall|k: int|
            0 <= k < MAX_RULES && k < rules.len() ==> #[trigger] ruleset_of(
                rules,
                default_block,
            ).rules[k] == rules[k],
        forall|k: int|
            rules.len() <= k < MAX_RULES ==> #[trigger] ruleset_of(rules, default_block).rules[k]
                == zero_rule(),
        (ruleset_of(rules, default_block).flags & 1 != 0) == default_block,
{
    assert((1u32 & 1 != 0) && (0u32 & 1 == 0)) by (bit_vector);
}

/// In the image of the rules `rules[0..n]`, rule `k` occupies bytes
/// `48 * k .. 48 * (k + 1)`.
pub proof fn lemma_rule_slot(rules: Seq<FwRuleView>, n: int, k: int)
    requires
        0 <= k < n,
    ensures
        rules_bytes(rules, n).len() == RULE_SIZE * n,
        rules_bytes(rules, n).subrange(RULE_SIZE * k, RULE_SIZE * (k + 1)) == rule_bytes(rules[k]),
    decreases n,
{
    lemma_rules_bytes_len(rules, n);
    lemma_rules_bytes_len(rules, n - 1);
    lemma_rule_bytes_len(rules[n - 1]);
    let whole = rules_bytes(rules, n);
    let front = rules_bytes(rules, n - 1);
    if k < n - 1 {
        lemma_rule_slot(rules, n - 1, k);
        assert(whole.subrange(RULE_SIZE * k, RULE_SIZE * (k + 1)) =~= front.subrange(
            RULE_SIZE * k,
            RULE_SIZE * (k + 1),
        ));
    } else {
        assert(whole.subrange(RULE_SIZE * k, RULE_SIZE * (k + 1)) =~= rule_bytes(rules[k]));
    }
}

proof fn lemma_rules_bytes_len(rules: Seq<FwRuleView>, n: int)
    requires
        0 <= n,
    ensures
        rules_bytes(rules, n).len() == RULE_SIZE * n,
    decreases n,
{
    if n > 0 {
        lemma_rules_bytes_len(rules, n - 1);
        lemma_rule_bytes_len(rules[n - 1]);
    }
}

/// In a rule set's image, the count and flags take the first 8 bytes and
/// slot `k` occupies bytes `8 + 48 * k .. 8 + 48 * (k + 1)`.
pub proof fn lemma_ruleset_layout(rs: FwRulesetView, k: int)
    requires
        0 <= k < MAX_RULES,
    ensures
        ruleset_bytes(rs).len() == RULESET_SIZE,
        ruleset_bytes(rs).subrange(0, 4) == ne_bytes_u32(rs.rule_cnt),
        ruleset_bytes(rs).subrange(4, 8) == ne_bytes_u32(rs.flags),
        ruleset_bytes(rs).subrange(8 + RULE_SIZE * k, 8 + RULE_SIZE * (k + 1)) == rule_bytes(
            rs.rules[k],
        ),
{
    let b = ruleset_bytes(rs);
    let tail = rules_bytes(rs.rules, MAX_RULES as int);
    lemma_rule_slot(rs.rules, MAX_RULES as int, k);
    assert(b.subrange(0, 4) =~= ne_bytes_u32(rs.rule_cnt));
    assert(b.subrange(4, 8) =~= ne_bytes_u32(rs.flags));
    assert(b.subrange(8 + RULE_SIZE * k, 8 + RULE_SIZE * (k + 1)) =~= tail.subrange(
        RULE_SIZE * k,
        RULE_SIZE * (k + 1),
    ));
}

impl View for fw_ruleset {
    type V = FwRulesetView;

    closed spec fn view(&self) -> FwRulesetView {
        FwRulesetView {
            rule_cnt: self.rule_cnt,
            flags: self.flags,
            rules: self.rules@.map_values(|r: fw_rule| r@),
        }
    }
}

impl fw_ruleset {
    /// Builds a rule set from `rules` in order; rules past `MAX_RULES` are
    /// left out.
    pub fn from_rules(rules: Vec<fw_rule>, default_block: bool) -> (r: Self)
        ensures
            r@ == ruleset_of(rules@.map_values(|x: fw_rule| x@), default_block),
    {
        let zero = fw_rule::new();
        let mut rules_buf: [fw_rule; MAX_RULES] = [zero; MAX_RULES];
        let mut i: usize = 0;
        while i < rules.len() && i < MAX_RULES
            invariant
                i <= rules@.len(),
                i <= MAX_RULES,
                zero@ == zero_rule(),
                forall|j: int|
                    0 <= j < MAX_RULES ==> #[trigger] rules_buf@[j]@ == if j < i {
                        rules@[j]@
                    } else {
                        zero_rule()
                    },
            decreases rules@.len() - i,
        {
            rules_buf[i] = rules[i];
            i = i + 1;
        }
        let cnt: u32 = if rules.len() > MAX_RULES {
            MAX_RULES as u32
        } else {
            rules.len() as u32
        };
        let r = fw_ruleset { rule_cnt: cnt, flags: if default_block { 1 } else { 0 }, rules: rules_buf };
        assert(r@.rules =~= ruleset_of(rules@.map_values(|x: fw_rule| x@), default_block).rules);
        r
    }

    /// The rule set's memory image as the datapath reads it.
    pub fn to_bytes(&self) -> (r: Vec<u8>)
        ensures
            r@ == ruleset_bytes(self@),
            r@.len() == RULESET_SIZE,
    {
        let mut out: Vec<u8> = Vec::new();
        push_bytes(&mut out, &u32_to_ne_bytes(self.rule_cnt));
        push_bytes(&mut out, &u32_to_ne_bytes(self.flags));
        let mut i: usize = 0;
        while i < MAX_RULES
            invariant
                i <= MAX_RULES,
                out@ == ne_bytes_u32(self.rule_cnt) + ne_bytes_u32(self.flags) + rules_bytes(
                    self@.rules,
                    i as int,
                ),
                rules_bytes(self@.rules, i as int).len() == RULE_SIZE * i,
            decreases MAX_RULES - i,
        {
            self.rules[i].write_bytes(&mut out);
            i = i + 1;
            assert(out@ =~= ne_bytes_u32(self.rule_cnt) + ne_bytes_u32(self.flags) + rules_bytes(
                self@.rules,
                i as int,
            ));
        }
        out
    }
}

impl Default for fw_ruleset {
    /// The empty rule set that lets every packet through.
    fn default() -> (r: Self)
        ensures
            r@ == ruleset_of(seq![], false),
    {
        let empty: Vec<fw_rule> = Vec::new();
        let r = fw_ruleset::from_rules(empty, false);
        assert(empty@.map_values(|x: fw_rule| x@) =~= Seq::<FwRuleView>::empty());
        r
    }
}

/// Which of the two rule-set slots the datapath currently reads.
#[allow(non_camel_case_types)]
#[derive(Debug, Clone, Copy, PartialEq, Eq, Structural)]
pub struct fw_meta {
    pub active_ruleset: u32,
}

impl fw_meta {
    /// The metadata that points the datapath at the other slot.
    pub fn swapped(&self) -> (r: fw_meta)
        ensures
            r.active_ruleset == self.active_ruleset ^ 1,
    {
        fw_meta { active_ruleset: self.active_ruleset ^ 1 }
    }

    /// The metadata's memory image.
    pub fn to_bytes(&self) -> (r: Vec<u8>)
        ensures
            r@ == ne_bytes_u32(self.active_ruleset),
    {
        let mut out: Vec<u8> = Vec::new();
        push_bytes(&mut out, &u32_to_ne_bytes(self.active_ruleset));
        out
    }
}

impl Default for fw_meta {
    /// Slot 0 is active.
    fn default() -> (r: Self)
        ensures
            r.active_ruleset == 0,
    {
        fw_meta { active_ruleset: 0 }
    }
}

/// Swapping the slot always names the other one of the two slots, and
/// swapping twice comes back to where it started.
pub proof fn lemma_swap_alternates(m: fw_meta)
    requires
        m.active_ruleset < 2,
    ensures
        (m.active_ruleset ^ 1) < 2,
        (m.active_ruleset ^ 1) != m.active_ruleset,
        ((m.active_ruleset ^ 1) ^ 1) == m.active_ruleset,
{
    let a = m.active_ruleset;
    assert((a ^ 1) < 2 && (a ^ 1) != a && ((a ^ 1) ^ 1) == a) by (bit_vector)
        requires
            a < 2,
    ;
}

/// Packet counters kept by the datapath (per CPU).
#[allow(non_camel_case_types)]
#[derive(Debug, Clone, Copy, PartialEq, Eq, Structural)]
pub struct fw_stats {
    pub accepted_packets: u64,
    pub dropped_packets: u64,
    pub rate_limit_hits: u64,
}

/// Size in bytes of an encoded [`fw_stats`].
pub const STATS_SIZE: usize = 24;

impl Default for fw_stats {
    /// All counters zero.
    fn default() -> (r: Self)
        ensures
            r.accepted_packets == 0,
            r.dropped_packets == 0,
            r.rate_limit_hits == 0,
    {
        fw_stats { accepted_packets: 0, dropped_packets: 0, rate_limit_hits: 0 }
    }
}

} // verus!
