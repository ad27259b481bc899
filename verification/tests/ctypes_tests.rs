use xdp_guard::ctypes::{
    fw_meta, fw_rule, fw_ruleset, fw_stats, Protocol, MAX_RULES, RULESET_SIZE, RULE_ACTION_BLOCK,
    RULE_MATCH_DST_IP, RULE_MATCH_DST_PORT, RULE_MATCH_SRC_IP, RULE_MATCH_SRC_PORT,
    RULE_SIZE, RULE_TB_MODE_PACKET, RULE_USE_TB,
};
use xdp_guard::update::plan_ruleset_update;

fn flags_of(bytes: &[u8]) -> u16 {
    u16::from_ne_bytes([bytes[40], bytes[41]])
}

#[test]
fn new_rule_is_all_zero() {
    let r = fw_rule::new();
    assert_eq!(r.to_bytes(), vec![0u8; 48]);
    assert_eq!(fw_rule::default(), r);
}

#[test]
fn port_setters_store_range_and_flag() {
    let mut r = fw_rule::new();
    r.match_src_port(1000, 2000);
    let b = r.to_bytes();
    assert_eq!(&b[36..38], &1000u16.to_ne_bytes());
    assert_eq!(&b[38..40], &2000u16.to_ne_bytes());
    assert_eq!(flags_of(&b), RULE_MATCH_SRC_PORT);
    r.match_dst_port(53, 54);
    let b = r.to_bytes();
    assert_eq!(&b[32..34], &53u16.to_ne_bytes());
    assert_eq!(&b[34..36], &54u16.to_ne_bytes());
    assert_eq!(flags_of(&b), RULE_MATCH_SRC_PORT | RULE_MATCH_DST_PORT);
}

#[test]
fn addresses_are_stored_in_network_order() {
    let mut r = fw_rule::new();
    r.match_dst_ip4(0x0A000001, 0xFFFFFF00);
    r.match_src_ip4(0xC0A80102, 0xFFFF0000);
    let b = r.to_bytes();
    assert_eq!(&b[16..20], &[10, 0, 0, 1]);
    assert_eq!(&b[20..24], &[255, 255, 255, 0]);
    assert_eq!(&b[24..28], &[192, 168, 1, 2]);
    assert_eq!(&b[28..32], &[255, 255, 0, 0]);
    assert_eq!(flags_of(&b), RULE_MATCH_DST_IP | RULE_MATCH_SRC_IP);
}

#[test]
fn protocol_numbers() {
    let expected = [
        (Protocol::Any, 0u8),
        (Protocol::Icmp, 1),
        (Protocol::Igmp, 2),
        (Protocol::Tcp, 6),
        (Protocol::Udp, 17),
        (Protocol::Encap, 41),
        (Protocol::Ospf, 89),
        (Protocol::Sctp, 132),
    ];
    for (p, n) in expected {
        assert_eq!(p.number(), n);
        let mut r = fw_rule::new();
        r.match_protocol(p);
        assert_eq!(r.to_bytes()[42], n);
    }
}

#[test]
fn block_and_token_bucket_flags() {
    let mut r = fw_rule::new();
    r.default_block();
    assert_eq!(flags_of(&r.to_bytes()), RULE_ACTION_BLOCK);
    let mut p = fw_rule::new();
    p.set_token_bucket(100, 200, false);
    let b = p.to_bytes();
    assert_eq!(&b[0..8], &100u64.to_ne_bytes());
    assert_eq!(&b[8..16], &200u64.to_ne_bytes());
    assert_eq!(flags_of(&b), RULE_USE_TB | RULE_TB_MODE_PACKET);
    let mut q = fw_rule::new();
    q.set_token_bucket(7, 9, true);
    assert_eq!(flags_of(&q.to_bytes()), RULE_USE_TB);
}

#[test]
fn from_rules_keeps_order_and_truncates() {
    let mut rules = Vec::new();
    for i in 0..40u16 {
        let mut r = fw_rule::new();
        r.match_dst_port(i, i);
        rules.push(r);
    }
    let rs = fw_ruleset::from_rules(rules, true);
    let b = rs.to_bytes();
    assert_eq!(b.len(), RULESET_SIZE);
    assert_eq!(RULESET_SIZE, 8 + MAX_RULES * RULE_SIZE);
    assert_eq!(&b[0..4], &32u32.to_ne_bytes());
    assert_eq!(&b[4..8], &1u32.to_ne_bytes());
    for k in 0..MAX_RULES {
        let slot = &b[8 + RULE_SIZE * k..8 + RULE_SIZE * (k + 1)];
        assert_eq!(&slot[32..34], &(k as u16).to_ne_bytes());
    }
}

#[test]
fn from_rules_fills_unused_slots_with_zero() {
    let mut r = fw_rule::new();
    r.default_block();
    let rs = fw_ruleset::from_rules(vec![r], false);
    let b = rs.to_bytes();
    assert_eq!(&b[0..4], &1u32.to_ne_bytes());
    assert_eq!(&b[4..8], &0u32.to_ne_bytes());
    assert_eq!(&b[8..8 + RULE_SIZE], r.to_bytes().as_slice());
    assert!(b[8 + RULE_SIZE..].iter().all(|x| *x == 0));
}

#[test]
fn default_ruleset_is_empty_and_allows() {
    let b = fw_ruleset::default().to_bytes();
    assert_eq!(b, vec![0u8; RULESET_SIZE]);
}

#[test]
fn swap_alternates_between_slots() {
    let m = fw_meta::default();
    assert_eq!(m.active_ruleset, 0);
    let n = m.swapped();
    assert_eq!(n.active_ruleset, 1);
    assert_eq!(n.swapped(), m);
    assert_eq!(n.to_bytes(), 1u32.to_ne_bytes().to_vec());
}

#[test]
fn update_plan_targets_the_inactive_slot() {
    let rs = fw_ruleset::default();
    let plan = plan_ruleset_update(&fw_meta { active_ruleset: 1 }, &rs);
    assert_eq!(plan.meta.active_ruleset, 0);
    assert_eq!(plan.slot_key, 0u32.to_ne_bytes().to_vec());
    assert_eq!(plan.meta_key, 0u32.to_ne_bytes().to_vec());
    assert_eq!(plan.meta_image, 0u32.to_ne_bytes().to_vec());
    assert_eq!(plan.ruleset_image, rs.to_bytes());
    let plan2 = plan_ruleset_update(&plan.meta, &rs);
    assert_eq!(plan2.meta.active_ruleset, 1);
    assert_eq!(plan2.slot_key, 1u32.to_ne_bytes().to_vec());
}

#[test]
fn stats_default_is_zero() {
    let s = fw_stats::default();
    assert_eq!(s, fw_stats { accepted_packets: 0, dropped_packets: 0, rate_limit_hits: 0 });
}
