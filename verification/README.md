# xdp-guard (verified core)

The userspace side of a small XDP firewall. The library under `src/` is
verified with Verus; `app/` is the HTTP service that loads the BPF program,
accepts TOML rule sets and serves Prometheus metrics.

- `src/wire.rs` — host/network byte-order encodings of integers.
- `src/ctypes.rs` — the records shared with the datapath (`fw_rule`,
  `fw_ruleset`, `fw_meta`, `fw_stats`) and their exact memory images.
- `src/ipv4.rs` — dotted-quad address text.
- `src/ruleset.rs` — the rule-set configuration, its checks and its
  translation into datapath records.
- `src/order.rs` — stable ordering of rules by descending priority.
- `src/update.rs` — the writes that install a rule set into the inactive slot.
- `src/metrics.rs` — per-CPU counter totals and their text rendering.
