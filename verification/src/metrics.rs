//! Reading the datapath's counters and rendering them as Prometheus text.
use vstd::prelude::*;
use crate::ctypes::{fw_stats, STATS_SIZE};
use crate::error::Error;
use crate::wire::{ne_value_u64, u64_from_ne_bytes};
use vstd::string::StringExecFns;

verus! {

/// The counters encoded in the first 24 bytes of `b`: three host-order `u64`.
pub open spec fn stats_at(b: Seq<u8>) -> fw_stats {
    fw_stats {
        accepted_packets: ne_value_u64(b.subrange(0, 8)),
        dropped_packets: ne_value_u64(b.subrange(8, 16)),
        rate_limit_hits: ne_value_u64(b.subrange(16, 24)),
    }
}

/// The host-order `u64` at `b[off..off + 8]`.
fn u64_at(b: &[u8], off: usize) -> (r: u64)
    requires
        off + 8 <= b@.len(),
    ensures
        r == ne_value_u64(b@.subrange(off as int, off + 8)),
{
    let a: [u8; 8] = [
        b[off],
        b[off + 1],
        b[off + 2],
        b[off + 3],
        b[off + 4],
        b[off + 5],
        b[off + 6],
        b[off + 7],
    ];
    assert(a@ =~= b@.subrange(off as int, off + 8));
    u64_from_ne_bytes(a)
}

/// Reads one counter: exactly eight bytes in host order.
pub fn parse_u64(bytes: &[u8]) -> (r: Result<u64, Error>)
    ensures
        bytes@.len() == 8 ==> r == Ok::<u64, Error>(ne_value_u64(bytes@)),
        bytes@.len() != 8 ==> r == Err::<u64, Error>(Error::MetricsErr),
{
    if bytes.len() != 8 {
        return Err(Error::MetricsErr);
    }
    let v = u64_at(bytes, 0);
    assert(bytes@.subrange(0, 8) =~= bytes@);
    Ok(v)
}

/// Reads one CPU's counters; fails when fewer than 24 bytes are given.
pub fn parse_fw_stats(bytes: &[u8]) -> (r: Result<fw_stats, Error>)
    ensures
        bytes@.len() >= STATS_SIZE ==> r == Ok::<fw_stats, Error>(stats_at(bytes@)),
        bytes@.len() < STATS_SIZE ==> r == Err::<fw_stats, Error>(Error::MetricsErr),
{
    if bytes.len() < STATS_SIZE {
        return Err(Error::MetricsErr);
    }
    Ok(
        fw_stats {
            accepted_packets: u64_at(bytes, 0),
            dropped_packets: u64_at(bytes, 8),
            rate_limit_hits: u64_at(bytes, 16),
        },
    )
}

/// Sum of the counters of all CPUs, read in order: `Some(Err(..))` when a
/// CPU's bytes are too short, `None` when a sum does not fit in a `u64`
/// (the addition overflows), otherwise the totals.
pub open spec fn spec_total_stats(cpus: Seq<Seq<u8>>) -> Option<Result<fw_stats, Error>>
    decreases cpus.len(),
{
    if cpus.len() == 0 {
        Some(Ok(fw_stats { accepted_packets: 0, dropped_packets: 0, rate_limit_hits: 0 }))
    } else {
        match spec_total_stats(cpus.drop_last()) {
            None => None,
            Some(Err(e)) => Some(Err(e)),
            Some(Ok(acc)) => if cpus.last().len() < STATS_SIZE {
                Some(Err(Error::MetricsErr))
            } else {
                let c = stats_at(cpus.last());
                if acc.accepted_packets + c.accepted_packets > u64::MAX || acc.dropped_packets
                    + c.dropped_packets > u64::MAX || acc.rate_limit_hits + c.rate_limit_hits
                    > u64::MAX {
                    None
                } else {
                    Some(
                        Ok(
                            fw_stats {
                                accepted_packets: (acc.accepted_packets
                                    + c.accepted_packets) as u64,
                                dropped_packets: (acc.dropped_packets + c.dropped_packets) as u64,
                                rate_limit_hits: (acc.rate_limit_hits + c.rate_limit_hits) as u64,
                            },
                        ),
                    )
                }
            },
        }
    }
}

/// Adds up the per-CPU counters (see [`spec_total_stats`]).
pub fn total_stats(cpus: &Vec<Vec<u8>>) -> (r: Option<Result<fw_stats, Error>>)
    ensures
        r == spec_total_stats(cpus.deep_view()),
{
    let ghost cs = cpus.deep_view();
    let mut acc = fw_stats { accepted_packets: 0, dropped_packets: 0, rate_limit_hits: 0 };
    let mut i: usize = 0;
    assert(cs.subrange(0, 0) =~= Seq::<Seq<u8>>::empty());
    while i < cpus.len()
        invariant
            cs == cpus.deep_view(),
            i <= cs.len(),
            spec_total_stats(cs.subrange(0, i as int)) == Some(Ok::<fw_stats, Error>(acc)),
        decreases cs.len() - i,
    {
        let ghost pre = cs.subrange(0, i + 1);
        assert(pre.drop_last() =~= cs.subrange(0, i as int));
        assert(pre.last() == cpus@[i as int]@);
        let c = match parse_fw_stats(cpus[i].as_slice()) {
            Ok(c) => c,
            Err(e) => {
                assert(spec_total_stats(cs) == spec_total_stats(pre)) by {
                    lemma_total_stats_stops(cs, i + 1);
                }
                return Some(Err(e));
            },
        };
        if acc.accepted_packets > u64::MAX - c.accepted_packets || acc.dropped_packets > u64::MAX
            - c.dropped_packets || acc.rate_limit_hits > u64::MAX - c.rate_limit_hits {
            assert(spec_total_stats(cs) == spec_total_stats(pre)) by {
                lemma_total_stats_stops(cs, i + 1);
            }
            return None;
        }
        acc = fw_stats {
            accepted_packets: acc.accepted_packets + c.accepted_packets,
            dropped_packets: acc.dropped_packets + c.dropped_packets,
            rate_limit_hits: acc.rate_limit_hits + c.rate_limit_hits,
        };
        i = i + 1;
    }
    assert(cs.subrange(0, i as int) =~= cs);
    Some(Ok(acc))
}

/// Once the running total has failed or overflowed, later CPUs do not change it.
proof fn lemma_total_stats_stops(cs: Seq<Seq<u8>>, n: int)
    requires
        0 <= n <= cs.len(),
        !(spec_total_stats(cs.subrange(0, n)) matches Some(Ok(_))),
    ensures
        spec_total_stats(cs) == spec_total_stats(cs.subrange(0, n)),
    decreases cs.len() - n,
{
    if n < cs.len() {
        assert(cs.subrange(0, n + 1).drop_last() =~= cs.subrange(0, n));
        lemma_total_stats_stops(cs, n + 1);
    } else {
        assert(cs.subrange(0, n) =~= cs);
    }
}

/// Sum of one counter over all CPUs, read in order: `Some(Err(..))` when a
/// CPU's value is not exactly eight bytes, `None` when the sum does not fit
/// in a `u64`, otherwise the total.
pub open spec fn spec_total_counter(cpus: Seq<Seq<u8>>) -> Option<Result<u64, Error>>
    decreases cpus.len(),
{
    if cpus.len() == 0 {
        Some(Ok(0))
    } else {
        match spec_total_counter(cpus.drop_last()) {
            None => None,
            Some(Err(e)) => Some(Err(e)),
            Some(Ok(acc)) => if cpus.last().len() != 8 {
                Some(Err(Error::MetricsErr))
            } else if acc + ne_value_u64(cpus.last()) > u64::MAX {
                None
            } else {
                Some(Ok((acc + ne_value_u64(cpus.last())) as u64))
            },
        }
    }
}

proof fn lemma_total_counter_stops(cs: Seq<Seq<u8>>, n: int)
    requires
        0 <= n <= cs.len(),
        !(spec_total_counter(cs.subrange(0, n)) matches Some(Ok(_))),
    ensures
        spec_total_counter(cs) == spec_total_counter(cs.subrange(0, n)),
    decreases cs.len() - n,
{
    if n < cs.len() {
        assert(cs.subrange(0, n + 1).drop_last() =~= cs.subrange(0, n));
        lemma_total_counter_stops(cs, n + 1);
    } else {
        assert(cs.subrange(0, n) =~= cs);
    }
}

/// Adds up one per-CPU counter (see [`spec_total_counter`]).
pub fn total_counter(cpus: &Vec<Vec<u8>>) -> (r: Option<Result<u64, Error>>)
    ensures
        r == spec_total_counter(cpus.deep_view()),
{
    let ghost cs = cpus.deep_view();
    let mut acc: u64 = 0;
    let mut i: usize = 0;
    assert(cs.subrange(0, 0) =~= Seq::<Seq<u8>>::empty());
    while i < cpus.len()
        invariant
            cs == cpus.deep_view(),
            i <= cs.len(),
            spec_total_counter(cs.subrange(0, i as int)) == Some(Ok::<u64, Error>(acc)),
        decreases cs.len() - i,
    {
        let ghost pre = cs.subrange(0, i + 1);
        assert(pre.drop_last() =~= cs.subrange(0, i as int));
        assert(pre.last() == cpus@[i as int]@);
        let v = match parse_u64(cpus[i].as_slice()) {
            Ok(v) => v,
            Err(e) => {
                assert(spec_total_counter(cs) == spec_total_counter(pre)) by {
                    lemma_total_counter_stops(cs, i + 1);
                }
                return Some(Err(e));
            },
        };
        if acc > u64::MAX - v {
            assert(spec_total_counter(cs) == spec_total_counter(pre)) by {
                lemma_total_counter_stops(cs, i + 1);
            }
            return None;
        }
        acc = acc + v;
        i = i + 1;
    }
    assert(cs.subrange(0, i as int) =~= cs);
    Some(Ok(acc))
}

/// The decimal digit `d` as a character.
pub open spec fn digit_char(d: nat) -> char {
    (d + 48) as char
}

/// `n` written in decimal, without leading zeros (`0` for zero).
pub open spec fn decimal_text(n: nat) -> Seq<char>
    decreases n,
{
    if n < 10 {
        seq![digit_char(n)]
    } else {
        decimal_text(n / 10) + seq![digit_char(n % 10)]
    }
}

/// `u64::to_string`: integers display as their decimal digits, without
/// leading zeros.
#[verifier::external_body]
fn u64_to_decimal(x: u64) -> (r: String)
    ensures
        r@ == decimal_text(x as nat),
{
    x.to_string()
}

/// One line per rule: `xdp_guard_rule_matches_total{rule="<index>"} <count>`.
pub open spec fn rule_match_lines(matches: Seq<(usize, u64)>) -> Seq<char>
    decreases matches.len(),
{
    if matches.len() == 0 {
        seq![]
    } else {
        rule_match_lines(matches.drop_last()) + "xdp_guard_rule_matches_total{rule=\""@
            + decimal_text(matches.last().0 as nat) + "\"} "@ + decimal_text(
            matches.last().1 as nat,
        ) + "\n"@
    }
}

/// The firewall's own counters in Prometheus text format: the three totals,
/// then the per-rule match counts in the order given.
pub open spec fn counters_text(stats: fw_stats, matches: Seq<(usize, u64)>) -> Seq<char> {
    "# HELP xdp_guard_accepted_packets_total Packets accepted by xdp-guard.\n"@
        + "# TYPE xdp_guard_accepted_packets_total counter\n"@
        + "xdp_guard_accepted_packets_total "@ + decimal_text(stats.accepted_packets as nat)
        + "\n"@ + "# HELP xdp_guard_dropped_packets_total Packets dropped by xdp-guard.\n"@
        + "# TYPE xdp_guard_dropped_packets_total counter\n"@
        + "xdp_guard_dropped_packets_total "@ + decimal_text(stats.dropped_packets as nat) + "\n"@
        + "# HELP xdp_guard_rate_limit_hits_total Packets that hit a token-bucket rate limit.\n"@
        + "# TYPE xdp_guard_rate_limit_hits_total counter\n"@
        + "xdp_guard_rate_limit_hits_total "@ + decimal_text(stats.rate_limit_hits as nat)
        + "\n"@ + "# HELP xdp_guard_rule_matches_total Rule matches by rule index.\n"@
        + "# TYPE xdp_guard_rule_matches_total counter\n"@ + rule_match_lines(matches)
}

/// Renders the firewall's counters (see [`counters_text`]).
pub fn render_counters(stats: &fw_stats, matches: &Vec<(usize, u64)>) -> (r: String)
    ensures
        r@ == counters_text(*stats, matches@),
{
    let mut out = String::new();
    out.append("# HELP xdp_guard_accepted_packets_total Packets accepted by xdp-guard.\n");
    out.append("# TYPE xdp_guard_accepted_packets_total counter\n");
    out.append("xdp_guard_accepted_packets_total ");
    out.append(u64_to_decimal(stats.accepted_packets).as_str());
    out.append("\n");
    out.append("# HELP xdp_guard_dropped_packets_total Packets dropped by xdp-guard.\n");
    out.append("# TYPE xdp_guard_dropped_packets_total counter\n");
    out.append("xdp_guard_dropped_packets_total ");
    out.append(u64_to_decimal(stats.dropped_packets).as_str());
    out.append("\n");
    out.append(
        "# HELP xdp_guard_rate_limit_hits_total Packets that hit a token-bucket rate limit.\n",
    );
    out.append("# TYPE xdp_guard_rate_limit_hits_total counter\n");
    out.append("xdp_guard_rate_limit_hits_total ");
    out.append(u64_to_decimal(stats.rate_limit_hits).as_str());
    out.append("\n");
    out.append("# HELP xdp_guard_rule_matches_total Rule matches by rule index.\n");
    out.append("# TYPE xdp_guard_rule_matches_total counter\n");
    let ghost head = out@;
    let mut i: usize = 0;
    assert(matches@.subrange(0, 0) =~= Seq::<(usize, u64)>::empty());
    while i < matches.len()
        invariant
            i <= matches@.len(),
            out@ == head + rule_match_lines(matches@.subrange(0, i as int)),
        decreases matches@.len() - i,
    {
        let (idx, count) = matches[i];
        out.append("xdp_guard_rule_matches_total{rule=\"");
        out.append(u64_to_decimal(idx as u64).as_str());
        out.append("\"} ");
        out.append(u64_to_decimal(count).as_str());
        out.append("\n");
        assert(matches@.subrange(0, i + 1).drop_last() =~= matches@.subrange(0, i as int));
        i = i + 1;
    }
    assert(matches@.subrange(0, i as int) =~= matches@);
    out
}

/// Arithmetic sum, over all CPU entries, of the host-order `u64` at bytes
/// `off..off + 8` of each entry.
pub open spec fn column_sum(cpus: Seq<Seq<u8>>, off: int) -> int
    decreases cpus.len(),
{
    if cpus.len() == 0 {
        0
    } else {
        column_sum(cpus.drop_last(), off) + ne_value_u64(cpus.last().subrange(off, off + 8))
    }
}

proof fn lemma_column_sum_grows(cpus: Seq<Seq<u8>>, off: int)
    requires
        cpus.len() > 0,
    ensures
        column_sum(cpus.drop_last(), off) <= column_sum(cpus, off),
{
}

proof fn lemma_column_sum_nonneg(cpus: Seq<Seq<u8>>, off: int)
    ensures
        column_sum(cpus, off) >= 0,
    decreases cpus.len(),
{
    if cpus.len() > 0 {
        lemma_column_sum_nonneg(cpus.drop_last(), off);
    }
}

proof fn lemma_value_sum_nonneg(cpus: Seq<Seq<u8>>)
    ensures
        value_sum(cpus) >= 0,
    decreases cpus.len(),
{
    if cpus.len() > 0 {
        lemma_value_sum_nonneg(cpus.drop_last());
    }
}

/// When every CPU entry holds all three counters, the totals are the
/// arithmetic sums of each counter over every CPU (each CPU contributes all
/// three counters, whatever their values) when those sums fit in a `u64`,
/// and the totals overflow otherwise.
pub proof fn lemma_total_stats_sums(cpus: Seq<Seq<u8>>)
    requires
        forall|i: int| 0 <= i < cpus.len() ==> (#[trigger] cpus[i]).len() >= STATS_SIZE,
    ensures
        (column_sum(cpus, 0) <= u64::MAX && column_sum(cpus, 8) <= u64::MAX && column_sum(cpus, 16)
            <= u64::MAX) ==> spec_total_stats(cpus) == Some(
            Ok::<fw_stats, Error>(
                fw_stats {
                    accepted_packets: column_sum(cpus, 0) as u64,
                    dropped_packets: column_sum(cpus, 8) as u64,
                    rate_limit_hits: column_sum(cpus, 16) as u64,
                },
            ),
        ),
        !(column_sum(cpus, 0) <= u64::MAX && column_sum(cpus, 8) <= u64::MAX && column_sum(
            cpus,
            16,
        ) <= u64::MAX) ==> spec_total_stats(cpus) is None,
    decreases cpus.len(),
{
    if cpus.len() > 0 {
        let front = cpus.drop_last();
        assert forall|i: int| 0 <= i < front.len() implies (#[trigger] front[i]).len()
            >= STATS_SIZE by {
            assert(front[i] == cpus[i]);
        }
        lemma_total_stats_sums(front);
        lemma_column_sum_nonneg(front, 0);
        lemma_column_sum_nonneg(front, 8);
        lemma_column_sum_nonneg(front, 16);
        lemma_column_sum_grows(cpus, 0);
        lemma_column_sum_grows(cpus, 8);
        lemma_column_sum_grows(cpus, 16);
        assert(cpus.last() == cpus[cpus.len() - 1]);
    }
}

/// Arithmetic sum of the host-order `u64` values of all CPU entries.
pub open spec fn value_sum(cpus: Seq<Seq<u8>>) -> int
    decreases cpus.len(),
{
    if cpus.len() == 0 {
        0
    } else {
        value_sum(cpus.drop_last()) + ne_value_u64(cpus.last())
    }
}

/// When every CPU entry is one eight-byte counter, the total is the
/// arithmetic sum of all of them when it fits in a `u64`, and overflows
/// otherwise.
pub proof fn lemma_total_counter_sums(cpus: Seq<Seq<u8>>)
    requires
        forall|i: int| 0 <= i < cpus.len() ==> (#[trigger] cpus[i]).len() == 8,
    ensures
        value_sum(cpus) <= u64::MAX ==> spec_total_counter(cpus) == Some(
            Ok::<u64, Error>(value_sum(cpus) as u64),
        ),
        value_sum(cpus) > u64::MAX ==> spec_total_counter(cpus) is None,
    decreases cpus.len(),
{
    if cpus.len() > 0 {
        let front = cpus.drop_last();
        assert forall|i: int| 0 <= i < front.len() implies (#[trigger] front[i]).len() == 8 by {
            assert(front[i] == cpus[i]);
        }
        lemma_total_counter_sums(front);
        lemma_value_sum_nonneg(front);
        assert(cpus.last() == cpus[cpus.len() - 1]);
    }
}

/// The number a string of decimal digits spells.
pub open spec fn digits_value(s: Seq<char>) -> int
    decreases s.len(),
{
    if s.len() == 0 {
        0
    } else {
        digits_value(s.drop_last()) * 10 + (s.last() as int - 48)
    }
}

/// The decimal text of `n` consists of digits, has no leading zero, and
/// spells exactly `n`.
pub proof fn lemma_decimal_text_spells(n: nat)
    ensures
        decimal_text(n).len() >= 1,
        forall|i: int|
            0 <= i < decimal_text(n).len() ==> '0' <= #[trigger] decimal_text(n)[i] <= '9',
        decimal_text(n).len() > 1 ==> decimal_text(n)[0] != '0',
        n >= 1 ==> decimal_text(n)[0] != '0',
        n < 10 ==> decimal_text(n).len() == 1,
        digits_value(decimal_text(n)) == n,
    decreases n,
{
    let t = decimal_text(n);
    assert(digit_char(n % 10) as int == n % 10 + 48);
    if n < 10 {
        assert(digit_char(n) as int == n + 48);
        assert(t.drop_last() =~= Seq::<char>::empty());
        assert(digits_value(t) == digits_value(t.drop_last()) * 10 + (t.last() as int - 48));
    } else {
        lemma_decimal_text_spells(n / 10);
        vstd::arithmetic::div_mod::lemma_fundamental_div_mod(n as int, 10);
        assert(t.drop_last() =~= decimal_text(n / 10));
        assert(t.last() == digit_char(n % 10));
        assert(digits_value(t) == digits_value(t.drop_last()) * 10 + (t.last() as int - 48));
        assert forall|i: int| 0 <= i < t.len() implies '0' <= #[trigger] t[i] <= '9' by {
            if i < t.len() - 1 {
                assert(t[i] == decimal_text(n / 10)[i]);
            } else {
                assert(t[i] == digit_char(n % 10));
            }
        }
        assert(t[0] == decimal_text(n / 10)[0]);
    }
}

/// The rule line that one `(index, count)` entry contributes.
pub open spec fn rule_match_line(e: (usize, u64)) -> Seq<char> {
    "xdp_guard_rule_matches_total{rule=\""@ + decimal_text(e.0 as nat) + "\"} "@ + decimal_text(
        e.1 as nat,
    ) + "\n"@
}

/// Appending an entry appends exactly its line, which carries the entry's
/// index and its full count in decimal; the text for no entries is the
/// header with the three totals in decimal.
pub proof fn lemma_counters_text_lines(stats: fw_stats, matches: Seq<(usize, u64)>, e: (
    usize,
    u64,
))
    ensures
        counters_text(stats, matches.push(e)) == counters_text(stats, matches)
            + "xdp_guard_rule_matches_total{rule=\""@ + decimal_text(e.0 as nat) + "\"} "@
            + decimal_text(e.1 as nat) + "\n"@,
        counters_text(stats, seq![]) == "# HELP xdp_guard_accepted_packets_total Packets accepted by xdp-guard.\n"@
            + "# TYPE xdp_guard_accepted_packets_total counter\n"@
            + "xdp_guard_accepted_packets_total "@ + decimal_text(stats.accepted_packets as nat)
            + "\n"@ + "# HELP xdp_guard_dropped_packets_total Packets dropped by xdp-guard.\n"@
            + "# TYPE xdp_guard_dropped_packets_total counter\n"@
            + "xdp_guard_dropped_packets_total "@ + decimal_text(stats.dropped_packets as nat)
            + "\n"@
            + "# HELP xdp_guard_rate_limit_hits_total Packets that hit a token-bucket rate limit.\n"@
            + "# TYPE xdp_guard_rate_limit_hits_total counter\n"@
            + "xdp_guard_rate_limit_hits_total "@ + decimal_text(stats.rate_limit_hits as nat)
            + "\n"@ + "# HELP xdp_guard_rule_matches_total Rule matches by rule index.\n"@
            + "# TYPE xdp_guard_rule_matches_total counter\n"@,
{
    assert(matches.push(e).drop_last() =~= matches);
    assert(counters_text(stats, matches.push(e)) =~= counters_text(stats, matches)
        + "xdp_guard_rule_matches_total{rule=\""@ + decimal_text(e.0 as nat) + "\"} "@
        + decimal_text(e.1 as nat) + "\n"@);
    assert(rule_match_lines(seq![]) =~= Seq::<char>::empty());
    assert(counters_text(stats, seq![]) =~= "# HELP xdp_guard_accepted_packets_total Packets accepted by xdp-guard.\n"@
            + "# TYPE xdp_guard_accepted_packets_total counter\n"@
            + "xdp_guard_accepted_packets_total "@ + decimal_text(stats.accepted_packets as nat)
            + "\n"@ + "# HELP xdp_guard_dropped_packets_total Packets dropped by xdp-guard.\n"@
            + "# TYPE xdp_guard_dropped_packets_total counter\n"@
            + "xdp_guard_dropped_packets_total "@ + decimal_text(stats.dropped_packets as nat)
            + "\n"@
            + "# HELP xdp_guard_rate_limit_hits_total Packets that hit a token-bucket rate limit.\n"@
            + "# TYPE xdp_guard_rate_limit_hits_total counter\n"@
            + "xdp_guard_rate_limit_hits_total "@ + decimal_text(stats.rate_limit_hits as nat)
            + "\n"@ + "# HELP xdp_guard_rule_matches_total Rule matches by rule index.\n"@
            + "# TYPE xdp_guard_rule_matches_total counter\n"@);
}

} // verus!
