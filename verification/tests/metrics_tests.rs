use xdp_guard::ctypes::fw_stats;
use xdp_guard::error::Error;
use xdp_guard::metrics::{parse_fw_stats, parse_u64, render_counters, total_counter, total_stats};

fn stats_bytes(a: u64, d: u64, r: u64) -> Vec<u8> {
    let mut v = Vec::new();
    v.extend_from_slice(&a.to_ne_bytes());
    v.extend_from_slice(&d.to_ne_bytes());
    v.extend_from_slice(&r.to_ne_bytes());
    v
}

#[test]
fn parse_u64_reads_exactly_eight_bytes() {
    assert_eq!(parse_u64(&0x0102_0304_0506_0708u64.to_ne_bytes()).unwrap(), 0x0102_0304_0506_0708);
    assert!(matches!(parse_u64(&[1, 2, 3]), Err(Error::MetricsErr)));
    assert!(matches!(parse_u64(&[0u8; 9]), Err(Error::MetricsErr)));
    assert!(matches!(parse_u64(&[]), Err(Error::MetricsErr)));
}

#[test]
fn parse_fw_stats_reads_three_counters() {
    let mut b = stats_bytes(1, 2, 3);
    b.push(99);
    assert_eq!(
        parse_fw_stats(&b).unwrap(),
        fw_stats { accepted_packets: 1, dropped_packets: 2, rate_limit_hits: 3 }
    );
    assert!(matches!(parse_fw_stats(&b[..23]), Err(Error::MetricsErr)));
}

#[test]
fn totals_add_up_per_cpu() {
    let cpus = vec![stats_bytes(1, 10, 100), stats_bytes(2, 20, 200), stats_bytes(3, 30, 300)];
    let t = total_stats(&cpus).unwrap().unwrap();
    assert_eq!(t, fw_stats { accepted_packets: 6, dropped_packets: 60, rate_limit_hits: 600 });
    assert_eq!(
        total_stats(&vec![]).unwrap().unwrap(),
        fw_stats { accepted_packets: 0, dropped_packets: 0, rate_limit_hits: 0 }
    );
}

#[test]
fn totals_report_short_cpu_entry() {
    let cpus = vec![stats_bytes(1, 1, 1), vec![0u8; 4], stats_bytes(u64::MAX, 0, 0)];
    assert!(matches!(total_stats(&cpus), Some(Err(Error::MetricsErr))));
}

#[test]
fn totals_report_overflow() {
    let cpus = vec![stats_bytes(u64::MAX, 0, 0), stats_bytes(1, 0, 0), vec![]];
    assert!(total_stats(&cpus).is_none());
}

#[test]
fn counter_totals() {
    let cpus = vec![5u64.to_ne_bytes().to_vec(), 7u64.to_ne_bytes().to_vec()];
    assert_eq!(total_counter(&cpus).unwrap().unwrap(), 12);
    assert!(matches!(total_counter(&vec![vec![0u8; 7]]), Some(Err(Error::MetricsErr))));
    let over = vec![u64::MAX.to_ne_bytes().to_vec(), 1u64.to_ne_bytes().to_vec()];
    assert!(total_counter(&over).is_none());
    assert_eq!(total_counter(&vec![]).unwrap().unwrap(), 0);
}

#[test]
fn renders_prometheus_text() {
    let s = fw_stats { accepted_packets: 12, dropped_packets: 0, rate_limit_hits: 18446744073709551615 };
    let text = render_counters(&s, &vec![(0, 5), (31, 1234567890)]);
    let expected = "# HELP xdp_guard_accepted_packets_total Packets accepted by xdp-guard.\n\
# TYPE xdp_guard_accepted_packets_total counter\n\
xdp_guard_accepted_packets_total 12\n\
# HELP xdp_guard_dropped_packets_total Packets dropped by xdp-guard.\n\
# TYPE xdp_guard_dropped_packets_total counter\n\
xdp_guard_dropped_packets_total 0\n\
# HELP xdp_guard_rate_limit_hits_total Packets that hit a token-bucket rate limit.\n\
# TYPE xdp_guard_rate_limit_hits_total counter\n\
xdp_guard_rate_limit_hits_total 18446744073709551615\n\
# HELP xdp_guard_rule_matches_total Rule matches by rule index.\n\
# TYPE xdp_guard_rule_matches_total counter\n\
xdp_guard_rule_matches_total{rule=\"0\"} 5\n\
xdp_guard_rule_matches_total{rule=\"31\"} 1234567890\n";
    assert_eq!(text, expected);
}
