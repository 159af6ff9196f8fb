# systemd_exporterd

A Prometheus exporter for systemd units, including the per-user
`systemd --user` managers that logind reports. The decisions and text
processing of the exporter live in a library proved with Verus; the process
around it (configuration, logging, D-Bus, cgroupfs, HTTP) is ordinary Rust.

## Layout

- `src/` — the verified library
  - `text.rs`: character-level text handling (ASCII-whitespace tokens, line
    splitting, Unicode trimming, unsigned decimal parsing and printing, path
    suffixes)
  - `cgroup.rs`: cgroup paths and the reading of the accounting files
    `cpu.stat`, `io.stat`, `memory.*` and `pids.current`
  - `stats.rs`: the figures collected per unit
  - `unit.rs`: units, their kinds, status updates and the step-by-step
    collection of resource figures (cgroup first, D-Bus as fallback), the
    table of tracked units and what each unit event does to it
  - `service.rs`: settings, logind users, session-bus addresses, the
    seteuid fallback decision, manager scopes, the table of managers and
    what each logind user event does to it
  - `metrics.rs`: the exported metric families and how a scrape records units
  - `prom.rs`: the store that owns the `prometheus-client` metrics and their
    registry, and the calls into it
  - `exportable.rs`: the metric plan of an exportable struct: what metric,
    holder field or nested holder each field gives (`app/derive.rs` turns a
    plan into code)
- `app/` — the executable: command line, environment configuration, logging,
  the `/metrics` endpoint, the D-Bus followers and the cgroupfs reads
- `tests/` — tests of the library

Metrics are served at `http://<listener-address>/metrics`; set
`SDED_MONITOR_USER_MANAGERS=true` to also follow the user managers (their
metrics carry `scope="user@<uid>"`, the system manager's `scope="system"`).
