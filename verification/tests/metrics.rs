use std::time::Duration;
use systemd_exporterd::metrics::{StateLabels, UnitLabels, UnitMetrics};
use systemd_exporterd::stats::{
    CPUStats, IOStats, IPStats, MemoryStats, ResourceStats, TaskStats, UnitData, UnitStatus,
};

fn data(name: &str, state: &str, job: u32) -> UnitData {
    UnitData {
        name: name.to_string(),
        machine: "localhost".to_string(),
        scope: "system".to_string(),
        status: UnitStatus {
            job_id: job,
            active_state: state.to_string(),
            sub_state: "running".to_string(),
            active_ts: 5,
            inactive_ts: 6,
        },
        resource_stats: ResourceStats::default(),
        task_stats: TaskStats::default(),
    }
}

fn setup() -> UnitMetrics {
    let mut m = UnitMetrics::new("systemd");
    m.register_metrics();
    m
}

fn render(m: &UnitMetrics) -> String {
    let mut buffer = String::new();
    assert!(m.encode(&mut buffer));
    assert!(buffer.ends_with("# EOF\n"));
    buffer
}

const UNIT: &str = "unit=\"a.service\",machine=\"localhost\",scope=\"system\"";

#[test]
fn registers_help_texts_with_prefix() {
    let mut m = setup();
    let out = render(&m);
    assert!(!out.contains("systemd_active_state_total{"), "empty families have no series: {out}");
    let mut d = data("a.service", "active", 3);
    d.task_stats = TaskStats { count: 4, main_pid: 42, start_ts: 100, stop_ts: 0 };
    d.resource_stats.mem_stats.current = 1;
    assert!(m.record_unit(d).is_empty());
    let out = render(&m);
    assert!(out.contains("# HELP systemd_scrape_time_us The time taken in microseconds to perform the scrape..\n"), "{out}");
    assert!(out.contains("# TYPE systemd_active_state counter\n"), "{out}");
    assert!(out.contains("# TYPE systemd_mem_current gauge\n"));
    assert!(out.contains("# HELP systemd_task_count The current number of tasks (processes or threads) associated with the unit..\n"));
    assert!(!out.contains("job_id"));
}

#[test]
fn encoding_appends_to_the_buffer() {
    let m = setup();
    let mut buffer = String::from("head\n");
    assert!(m.encode(&mut buffer));
    assert!(buffer.starts_with("head\n"));
    assert!(buffer.ends_with("# EOF\n"));
}

#[test]
fn records_the_active_state_and_the_sub_state() {
    let mut m = setup();
    m.new_batch();
    m.record_unit(data("a.service", "active", 3));
    let out = render(&m);
    assert!(out.contains(&format!("systemd_active_state_total{{{UNIT},state=\"active\"}} 1\n")), "{out}");
    assert!(out.contains(&format!("systemd_sub_state_total{{{UNIT},state=\"running\"}} 1\n")), "{out}");
    assert!(!out.contains("systemd_sub_state_total{unit=\"a.service\",machine=\"localhost\",scope=\"system\",state=\"active\"}"));
    assert!(!out.contains("systemd_start_ts{"));
}

#[test]
fn records_the_active_and_inactive_timestamps() {
    let mut m = setup();
    let mut d = data("a.service", "active", 0);
    d.status.active_ts = 1700000000000000;
    d.status.inactive_ts = 5;
    m.record_unit(d);
    let out = render(&m);
    assert!(out.contains(&format!("systemd_active_ts{{{UNIT}}} 1700000000000000\n")), "{out}");
    assert!(out.contains(&format!("systemd_inactive_ts{{{UNIT}}} 5\n")), "{out}");
}

#[test]
fn records_task_and_resource_figures_above_zero() {
    let mut m = setup();
    let mut d = data("a.service", "active", 0);
    d.task_stats = TaskStats { count: 4, main_pid: 42, start_ts: 100, stop_ts: 0 };
    d.resource_stats = ResourceStats {
        ip_stats: IPStats { egress_bytes: 9, ingress_bytes: 8, egress_packets: 0, ingress_packets: 1 },
        io_stats: IOStats { read_bytes: 10, write_bytes: 20, read_ops: 1, write_ops: 2 },
        cpu_stats: CPUStats { usage_nsec: 0 },
        mem_stats: MemoryStats { current: u64::MAX, available: 1 << 63, peak: 7, swap: 0, swap_peak: 3 },
    };
    assert_eq!(m.record_unit(d), vec![1u64 << 63]);
    let out = render(&m);
    assert!(out.contains(&format!("systemd_main_pid{{{UNIT}}} 42\n")), "{out}");
    assert!(out.contains(&format!("systemd_start_ts{{{UNIT}}} 100\n")));
    assert!(out.contains(&format!("systemd_task_count{{{UNIT}}} 4\n")));
    assert!(out.contains(&format!("systemd_io_read_bytes_total{{{UNIT}}} 10\n")));
    assert!(out.contains(&format!("systemd_io_write_ops_total{{{UNIT}}} 2\n")));
    assert!(!out.contains("systemd_ip_ingress_bytes_total{"));
    assert!(!out.contains("systemd_cpu_usage_nsec_total{"));
    assert!(out.contains(&format!("systemd_mem_current{{{UNIT}}} 9223372036854775807\n")));
    assert!(!out.contains("systemd_mem_available{"));
    assert!(out.contains(&format!("systemd_mem_peak{{{UNIT}}} 7\n")));
    assert!(!out.contains("systemd_mem_swap_peak{"));
}

#[test]
fn rejected_figures_come_back_in_order() {
    let mut m = setup();
    let mut d = data("a.service", "active", 0);
    d.status.inactive_ts = u64::MAX - 1;
    d.task_stats = TaskStats { count: 1 << 63, main_pid: 1, start_ts: u64::MAX, stop_ts: 0 };
    d.resource_stats.mem_stats = MemoryStats { current: 1, available: 0, peak: 0, swap: 1 << 63, swap_peak: (1 << 63) + 1 };
    assert_eq!(m.record_unit(d), vec![u64::MAX - 1, 1 << 63, 1 << 63, (1 << 63) + 1]);
    let out = render(&m);
    assert!(!out.contains("systemd_inactive_ts{"), "{out}");
    assert!(out.contains(&format!("systemd_start_ts{{{UNIT}}} 9223372036854775807\n")), "{out}");
    assert!(!out.contains("systemd_mem_swap{"));
}

#[test]
fn no_main_pid_means_no_task_figures() {
    let mut m = setup();
    let mut d = data("a.service", "active", 0);
    d.task_stats = TaskStats { count: 4, main_pid: 0, start_ts: 100, stop_ts: 0 };
    m.record_unit(d);
    let out = render(&m);
    assert!(!out.contains("systemd_task_count{"));
    assert!(!out.contains("systemd_main_pid{"));
}

#[test]
fn counters_add_up_and_new_batch_clears() {
    let mut m = setup();
    m.record_unit(data("a.service", "active", 1));
    m.record_unit(data("a.service", "active", 2));
    let key = format!("{{{UNIT},state=\"active\"}}");
    assert!(render(&m).contains(&format!("systemd_active_state_total{key} 2\n")));
    m.new_batch();
    m.record_unit(data("b.service", "failed", 1));
    let out = render(&m);
    assert!(!out.contains("a.service"), "{out}");
    assert!(out.contains("unit=\"b.service\""));
}

#[test]
fn scrapes_add_time_and_count() {
    let mut m = setup();
    m.record_scrape(Duration::from_micros(1500));
    m.record_scrape_micros(500);
    m.record_scrape_micros(u128::MAX);
    let out = render(&m);
    assert!(out.contains("systemd_scrape_time_us_total 2000\n"), "{out}");
    assert!(out.contains("systemd_scrape_count_total 3\n"));
    m.new_batch();
    assert!(render(&m).contains("systemd_scrape_count_total 3\n"));
}

#[test]
fn unregistered_metrics_expose_nothing() {
    let mut m = UnitMetrics::new("systemd");
    m.record_unit(data("a.service", "active", 1));
    assert_eq!(render(&m), "# EOF\n");
}

#[test]
fn label_sets_keep_field_order() {
    let u = UnitLabels { unit: "u".into(), machine: "m".into(), scope: "s".into() };
    assert_eq!(
        u.label_set(),
        vec![("unit".to_string(), "u".to_string()), ("machine".into(), "m".into()), ("scope".into(), "s".into())]
    );
    let s = StateLabels { unit: "u".into(), machine: "m".into(), scope: "s".into(), state: "x".into() };
    assert_eq!(s.label_set().last().unwrap(), &("state".to_string(), "x".to_string()));
}

#[test]
fn fresh_metrics_encode_exactly_the_scrape_counters() {
    let m = setup();
    let want = "# HELP systemd_scrape_time_us The time taken in microseconds to perform the scrape..\n\
# TYPE systemd_scrape_time_us counter\n\
systemd_scrape_time_us_total 0\n\
# HELP systemd_scrape_count The number of times scraping has been performed..\n\
# TYPE systemd_scrape_count counter\n\
systemd_scrape_count_total 0\n\
# EOF\n";
    assert_eq!(render(&m), want);
}

#[test]
fn one_unit_encodes_exactly() {
    let mut m = UnitMetrics::new("sd");
    m.register_metrics();
    let mut d = data("a\"b.service", "active", 7);
    d.status.active_ts = 0;
    d.status.inactive_ts = u64::MAX;
    m.record_batch(vec![d]);
    let u = "unit=\"a\\\"b.service\",machine=\"localhost\",scope=\"system\"";
    let want = format!(
        "# HELP sd_scrape_time_us The time taken in microseconds to perform the scrape..\n\
# TYPE sd_scrape_time_us counter\n\
sd_scrape_time_us_total 0\n\
# HELP sd_scrape_count The number of times scraping has been performed..\n\
# TYPE sd_scrape_count counter\n\
sd_scrape_count_total 0\n\
# HELP sd_active_state The active state of the unit (e.g., 'active', 'inactive', 'failed', 'reloading')..\n\
# TYPE sd_active_state counter\n\
sd_active_state_total{{{u},state=\"active\"}} 1\n\
# HELP sd_sub_state A more detailed sub-state of the unit within its active state (e.g., 'running', 'dead', 'exited', 'mounted')..\n\
# TYPE sd_sub_state counter\n\
sd_sub_state_total{{{u},state=\"running\"}} 1\n\
# HELP sd_active_ts The timestamp (in microseconds since the Unix epoch) when the unit became active..\n\
# TYPE sd_active_ts gauge\n\
sd_active_ts{{{u}}} 0\n\
# HELP sd_inactive_ts The timestamp (in microseconds since the Unix epoch) when the unit became inactive..\n\
# TYPE sd_inactive_ts gauge\n\
sd_inactive_ts{{{u}}} 9223372036854775807\n\
# EOF\n"
    );
    assert_eq!(render(&m), want);
}

#[test]
fn a_batch_forgets_earlier_units() {
    let mut m1 = setup();
    let mut m2 = setup();
    m1.record_unit(data("old.service", "failed", 9));
    m1.new_batch();
    let batch = || vec![data("a.service", "active", 1), data("b.service", "active", 2)];
    let r1 = m1.record_batch(batch());
    let r2 = m2.record_batch(batch());
    assert_eq!(r1, vec![Vec::<u64>::new(), Vec::new()]);
    assert_eq!(r1, r2);
    let lines = |m: &UnitMetrics| {
        let mut l: Vec<String> = render(m).lines().map(|x| x.to_string()).collect();
        l.sort();
        l
    };
    assert_eq!(lines(&m1), lines(&m2));
    assert!(!render(&m1).contains("old.service"));
}
