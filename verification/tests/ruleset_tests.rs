use xdp_guard::ctypes::{fw_rule, fw_ruleset, Protocol, RULE_SIZE};
use xdp_guard::error::Error;
use xdp_guard::ruleset::{
    BucketCountMode, DefaultAction, FirewallRule, IPMatcher, PortMatcher, Ruleset, TokenBucketCfg,
};

fn bare(action: DefaultAction) -> FirewallRule {
    FirewallRule {
        src_ip: None,
        dst_ip: None,
        src_port: None,
        dst_port: None,
        protocol: None,
        token_bucket: None,
        priority: None,
        action,
    }
}

fn udp_port(port: u16, priority: Option<u64>) -> FirewallRule {
    let mut r = bare(DefaultAction::Block);
    r.protocol = Some(Protocol::Udp);
    r.dst_port = Some(PortMatcher { port_begin: port, port_end: port });
    r.priority = priority;
    r
}

fn ip(ip4: &str, mask4: &str) -> IPMatcher {
    IPMatcher { ip4: ip4.to_string(), mask4: mask4.to_string() }
}

#[test]
fn empty_rule_detection() {
    assert!(bare(DefaultAction::Allow).empty_rule());
    let mut any = bare(DefaultAction::Block);
    any.protocol = Some(Protocol::Any);
    assert!(any.empty_rule());
    let mut tcp = bare(DefaultAction::Block);
    tcp.protocol = Some(Protocol::Tcp);
    assert!(!tcp.empty_rule());
    let mut tb = bare(DefaultAction::Allow);
    tb.token_bucket =
        Some(TokenBucketCfg { rate_per_sec: 1, burst: 1, count_mode: BucketCountMode::Packet });
    assert!(!tb.empty_rule());
    let mut src = bare(DefaultAction::Allow);
    src.src_ip = Some(ip("1.2.3.4", "255.255.255.255"));
    assert!(!src.empty_rule());
}

#[test]
fn port_rules_need_tcp_or_udp() {
    assert!(!udp_port(53, None).invalid_rule());
    let mut tcp = udp_port(80, None);
    tcp.protocol = Some(Protocol::Tcp);
    assert!(!tcp.invalid_rule());
    let mut none = udp_port(80, None);
    none.protocol = None;
    assert!(none.invalid_rule());
    let mut icmp = udp_port(80, None);
    icmp.protocol = Some(Protocol::Icmp);
    assert!(icmp.invalid_rule());
    let mut src_only = bare(DefaultAction::Block);
    src_only.src_port = Some(PortMatcher { port_begin: 1, port_end: 2 });
    assert!(src_only.invalid_rule());
    assert!(!bare(DefaultAction::Block).invalid_rule());
}

#[test]
fn to_ctype_builds_the_record() {
    let mut r = udp_port(12345, Some(10));
    r.src_ip = Some(ip("10.1.2.3", "255.255.0.0"));
    r.token_bucket =
        Some(TokenBucketCfg { rate_per_sec: 1000, burst: 50, count_mode: BucketCountMode::Bytes });
    let c = r.to_ctype().unwrap();
    let mut expected = fw_rule::new();
    expected.match_src_ip4(0x0A01_0203, 0xFFFF_0000);
    expected.match_dst_port(12345, 12345);
    expected.match_protocol(Protocol::Udp);
    expected.set_token_bucket(1000, 50, true);
    expected.default_block();
    assert_eq!(c, expected);
    let b = c.to_bytes();
    assert_eq!(&b[24..28], &[10, 1, 2, 3]);
    assert_eq!(&b[28..32], &[255, 255, 0, 0]);
    assert_eq!(b[42], 17);
}

#[test]
fn to_ctype_rejects_bad_addresses() {
    let mut r = bare(DefaultAction::Block);
    r.dst_ip = Some(ip("10.0.0.300", "255.255.255.255"));
    assert_eq!(r.to_ctype(), Err(()));
    r.dst_ip = Some(ip("10.0.0.3", "255.255.255"));
    assert_eq!(r.to_ctype(), Err(()));
    r.dst_ip = Some(ip("10.0.0.3", "255.255.255.255"));
    assert!(r.to_ctype().is_ok());
}

fn slot_port(b: &[u8], k: usize) -> u16 {
    let s = 8 + RULE_SIZE * k;
    u16::from_ne_bytes([b[s + 32], b[s + 33]])
}

#[test]
fn ruleset_orders_by_priority_stably() {
    let rs = Ruleset {
        default: DefaultAction::Allow,
        rules: vec![
            udp_port(1, None),
            udp_port(2, Some(5)),
            udp_port(3, Some(10)),
            udp_port(4, Some(5)),
            udp_port(5, None),
            udp_port(6, Some(10)),
        ],
    };
    let b = rs.to_ctype().unwrap().to_bytes();
    assert_eq!(&b[0..4], &6u32.to_ne_bytes());
    assert_eq!(&b[4..8], &0u32.to_ne_bytes());
    let order: Vec<u16> = (0..6).map(|k| slot_port(&b, k)).collect();
    assert_eq!(order, vec![3, 6, 2, 4, 1, 5]);
}

#[test]
fn ruleset_default_block_sets_flag() {
    let rs = Ruleset { default: DefaultAction::Block, rules: vec![udp_port(7, Some(1))] };
    let built = rs.to_ctype().unwrap();
    let expected = fw_ruleset::from_rules(vec![udp_port(7, Some(1)).to_ctype().unwrap()], true);
    assert_eq!(built.to_bytes(), expected.to_bytes());
    assert_eq!(&built.to_bytes()[4..8], &1u32.to_ne_bytes());
}

#[test]
fn ruleset_refuses_empty_rule_first() {
    let mut bad_ip = udp_port(1, None);
    bad_ip.src_ip = Some(ip("nope", "255.0.0.0"));
    let mut invalid = udp_port(2, None);
    invalid.protocol = None;
    let rs = Ruleset {
        default: DefaultAction::Allow,
        rules: vec![bad_ip, invalid, bare(DefaultAction::Block), bare(DefaultAction::Allow)],
    };
    match rs.to_ctype() {
        Err(Error::EmptyRule { r }) => assert_eq!(r.action, DefaultAction::Block),
        other => panic!("unexpected {other:?}"),
    }
}

#[test]
fn ruleset_refuses_invalid_before_unreadable() {
    let mut bad_ip = udp_port(1, None);
    bad_ip.src_ip = Some(ip("nope", "255.0.0.0"));
    let mut invalid = udp_port(2, None);
    invalid.protocol = None;
    let rs = Ruleset { default: DefaultAction::Allow, rules: vec![bad_ip, invalid] };
    match rs.to_ctype() {
        Err(Error::InvalidRule { r }) => {
            assert_eq!(r.protocol, None);
            assert_eq!(r.dst_port.unwrap().port_begin, 2);
        },
        other => panic!("unexpected {other:?}"),
    }
}

#[test]
fn ruleset_refuses_unreadable_address() {
    let mut bad_ip = udp_port(1, None);
    bad_ip.dst_ip = Some(ip("1.2.3.4", "255.255.255.256"));
    let rs = Ruleset { default: DefaultAction::Allow, rules: vec![udp_port(9, None), bad_ip] };
    match rs.to_ctype() {
        Err(Error::InvalidRule { r }) => {
            assert_eq!(r.dst_ip.unwrap().mask4, "255.255.255.256");
        },
        other => panic!("unexpected {other:?}"),
    }
}

#[test]
fn ruleset_keeps_at_most_32_rules() {
    let rules: Vec<FirewallRule> = (0..40u16).map(|i| udp_port(i, Some(i as u64))).collect();
    let rs = Ruleset { default: DefaultAction::Allow, rules };
    let b = rs.to_ctype().unwrap().to_bytes();
    assert_eq!(&b[0..4], &32u32.to_ne_bytes());
    for k in 0..32 {
        assert_eq!(slot_port(&b, k), 39 - k as u16);
    }
}

#[test]
fn empty_ruleset_is_accepted() {
    let rs = Ruleset { default: DefaultAction::Block, rules: vec![] };
    let b = rs.to_ctype().unwrap().to_bytes();
    assert_eq!(&b[0..4], &0u32.to_ne_bytes());
    assert_eq!(&b[4..8], &1u32.to_ne_bytes());
}

#[test]
fn cloned_rule_is_equal() {
    let mut r = udp_port(5, Some(3));
    r.src_ip = Some(ip("1.1.1.1", "255.255.255.255"));
    let c = r.clone();
    assert_eq!(format!("{r:?}"), format!("{c:?}"));
}
