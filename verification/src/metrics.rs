use vstd::prelude::*;

use std::time::Duration;

use crate::prom::{
    add_counter, add_counter_family, add_gauge_family, clear_counter_family, clear_gauge_family,
    count_of, counter_family_inc_by, exposes, store_prefix, counter_inc_by, duration_micros, encode_store,
    exposition_of, gauge_family_set, label_key, micros_of, new_store, register_counter,
    register_counter_family, register_gauge_family, store_counter_families, store_counters,
    store_gauge_families, store_registrations, wrapping_add, Exposed, LabelKey, LabelSet,
    MetricRef, MetricStore, Registration,
};
use prometheus_client::registry::Registry;
use crate::service::{scope_label, Scope};
use crate::stats::{ResourceStats, UnitData};

verus! {

/// The labels of a per-unit metric.
#[derive(Clone, Debug, Hash, PartialEq, Eq)]
pub struct UnitLabels {
    pub unit: String,
    pub machine: String,
    pub scope: String,
}

/// The labels of a per-unit state metric.
#[derive(Clone, Debug, Hash, PartialEq, Eq)]
pub struct StateLabels {
    pub unit: String,
    pub machine: String,
    pub scope: String,
    pub state: String,
}

/// The label set of a per-unit metric, in field order.
pub open spec fn unit_key(unit: Seq<char>, machine: Seq<char>, scope: Seq<char>) -> LabelKey {
    seq![("unit"@, unit), ("machine"@, machine), ("scope"@, scope)]
}

/// The label set of a per-unit state metric, in field order.
pub open spec fn state_key(unit: Seq<char>, machine: Seq<char>, scope: Seq<char>, state: Seq<char>) -> LabelKey {
    seq![("unit"@, unit), ("machine"@, machine), ("scope"@, scope), ("state"@, state)]
}

fn label(name: &str, value: &String) -> (r: (String, String))
    ensures
        r.0@ == name@,
        r.1@ == value@,
{
    (String::from_str(name), value.clone())
}

impl UnitLabels {
    /// The label set that these labels encode as.
    pub fn label_set(&self) -> (r: LabelSet)
        ensures
            label_key(r) == unit_key(self.unit@, self.machine@, self.scope@),
    {
        let mut v: LabelSet = Vec::new();
        v.push(label("unit", &self.unit));
        v.push(label("machine", &self.machine));
        v.push(label("scope", &self.scope));
        assert(label_key(v) =~= unit_key(self.unit@, self.machine@, self.scope@));
        v
    }
}

impl StateLabels {
    /// The label set that these labels encode as.
    pub fn label_set(&self) -> (r: LabelSet)
        ensures
            label_key(r) == state_key(self.unit@, self.machine@, self.scope@, self.state@),
    {
        let mut v: LabelSet = Vec::new();
        v.push(label("unit", &self.unit));
        v.push(label("machine", &self.machine));
        v.push(label("scope", &self.scope));
        v.push(label("state", &self.state));
        assert(label_key(v) =~= state_key(self.unit@, self.machine@, self.scope@, self.state@));
        v
    }
}

/// What the metrics of `UnitMetrics` hold, metric by metric.
pub struct MetricsView {
    /// The prefix written before each metric name.
    pub prefix: Seq<char>,
    pub scrape_time_us: u64,
    pub scrape_count: u64,
    pub active_state: Map<LabelKey, u64>,
    pub sub_state: Map<LabelKey, u64>,
    pub active_ts: Map<LabelKey, i64>,
    pub inactive_ts: Map<LabelKey, i64>,
    pub start_ts: Map<LabelKey, i64>,
    pub stop_ts: Map<LabelKey, i64>,
    pub main_pid: Map<LabelKey, i64>,
    pub job_id: Map<LabelKey, i64>,
    pub io_read_bytes: Map<LabelKey, u64>,
    pub io_write_bytes: Map<LabelKey, u64>,
    pub io_read_ops: Map<LabelKey, u64>,
    pub io_write_ops: Map<LabelKey, u64>,
    pub ip_egress_bytes: Map<LabelKey, u64>,
    pub ip_ingress_bytes: Map<LabelKey, u64>,
    pub ip_egress_packets: Map<LabelKey, u64>,
    pub ip_ingress_packets: Map<LabelKey, u64>,
    pub cpu_usage_nsec: Map<LabelKey, u64>,
    pub mem_current: Map<LabelKey, i64>,
    pub mem_available: Map<LabelKey, i64>,
    pub mem_peak: Map<LabelKey, i64>,
    pub mem_swap: Map<LabelKey, i64>,
    pub mem_swap_peak: Map<LabelKey, i64>,
    pub task_count: Map<LabelKey, i64>,
}

/// Positions of the plain counters in the store.
pub const SCRAPE_TIME_US: usize = 0;
pub const SCRAPE_COUNT: usize = 1;

/// Positions of the counter families in the store.
pub const ACTIVE_STATE: usize = 0;
pub const SUB_STATE: usize = 1;
pub const IO_READ_BYTES: usize = 2;
pub const IO_WRITE_BYTES: usize = 3;
pub const IO_READ_OPS: usize = 4;
pub const IO_WRITE_OPS: usize = 5;
pub const IP_EGRESS_BYTES: usize = 6;
pub const IP_INGRESS_BYTES: usize = 7;
pub const IP_EGRESS_PACKETS: usize = 8;
pub const IP_INGRESS_PACKETS: usize = 9;
pub const CPU_USAGE_NSEC: usize = 10;

/// Positions of the gauge families in the store.
pub const ACTIVE_TS: usize = 0;
pub const INACTIVE_TS: usize = 1;
pub const START_TS: usize = 2;
pub const STOP_TS: usize = 3;
pub const MAIN_PID: usize = 4;
pub const JOB_ID: usize = 5;
pub const MEM_CURRENT: usize = 6;
pub const MEM_AVAILABLE: usize = 7;
pub const MEM_PEAK: usize = 8;
pub const MEM_SWAP: usize = 9;
pub const MEM_SWAP_PEAK: usize = 10;
pub const TASK_COUNT: usize = 11;

/// The metrics exported for systemd units, together with the registry that
/// exposes them. Every metric lives in one store and is written only through
/// `&mut self`, so the registry always exposes what was recorded here.
pub struct UnitMetrics {
    store: MetricStore,
}

impl View for UnitMetrics {
    type V = MetricsView;

    closed spec fn view(&self) -> MetricsView {
        let c = store_counters(self.store);
        let cf = store_counter_families(self.store);
        let gf = store_gauge_families(self.store);
        MetricsView {
            prefix: store_prefix(self.store),
            scrape_time_us: c[SCRAPE_TIME_US as int],
            scrape_count: c[SCRAPE_COUNT as int],
            active_state: cf[ACTIVE_STATE as int],
            sub_state: cf[SUB_STATE as int],
            active_ts: gf[ACTIVE_TS as int],
            inactive_ts: gf[INACTIVE_TS as int],
            start_ts: gf[START_TS as int],
            stop_ts: gf[STOP_TS as int],
            main_pid: gf[MAIN_PID as int],
            job_id: gf[JOB_ID as int],
            io_read_bytes: cf[IO_READ_BYTES as int],
            io_write_bytes: cf[IO_WRITE_BYTES as int],
            io_read_ops: cf[IO_READ_OPS as int],
            io_write_ops: cf[IO_WRITE_OPS as int],
            ip_egress_bytes: cf[IP_EGRESS_BYTES as int],
            ip_ingress_bytes: cf[IP_INGRESS_BYTES as int],
            ip_egress_packets: cf[IP_EGRESS_PACKETS as int],
            ip_ingress_packets: cf[IP_INGRESS_PACKETS as int],
            cpu_usage_nsec: cf[CPU_USAGE_NSEC as int],
            mem_current: gf[MEM_CURRENT as int],
            mem_available: gf[MEM_AVAILABLE as int],
            mem_peak: gf[MEM_PEAK as int],
            mem_swap: gf[MEM_SWAP as int],
            mem_swap_peak: gf[MEM_SWAP_PEAK as int],
            task_count: gf[TASK_COUNT as int],
        }
    }
}

/// The help texts of the metrics, by name, in the order `register_metrics`
/// registers them.
pub open spec fn metric_descriptors() -> Seq<(Seq<char>, Seq<char>)> {
    seq![
        ("scrape_time_us"@, "The time taken in microseconds to perform the scrape."@),
        ("scrape_count"@, "The number of times scraping has been performed."@),
        ("active_state"@, "The active state of the unit (e.g., 'active', 'inactive', 'failed', 'reloading')."@),
        ("sub_state"@, "A more detailed sub-state of the unit within its active state (e.g., 'running', 'dead', 'exited', 'mounted')."@),
        ("active_ts"@, "The timestamp (in microseconds since the Unix epoch) when the unit became active."@),
        ("inactive_ts"@, "The timestamp (in microseconds since the Unix epoch) when the unit became inactive."@),
        ("start_ts"@, "The timestamp (in microseconds since the Unix epoch) when its main process started."@),
        ("stop_ts"@, "The timestamp (in microseconds since the Unix epoch) when its main process exited."@),
        ("main_pid"@, "The Process ID (PID) of the main process associated with the unit, if applicable."@),
        ("io_read_bytes"@, "The total number of bytes read by the unit."@),
        ("io_write_bytes"@, "The total number of bytes written by the unit."@),
        ("io_read_ops"@, "The total number of read operations performed by the unit."@),
        ("io_write_ops"@, "The total number of write operations performed by the unit."@),
        ("ip_egress_bytes"@, "The total number of bytes sent (egress) by the unit over the network."@),
        ("ip_ingress_bytes"@, "The total number of bytes received (ingress) by the unit over the network."@),
        ("ip_egress_packets"@, "The total number of packets sent (egress) by the unit over the network."@),
        ("ip_ingress_packets"@, "The total number of packets received (ingress) by the unit over the network."@),
        ("cpu_usage_nsec"@, "The total CPU time used by the unit, measured in nanoseconds."@),
        ("mem_current"@, "The current memory usage of the unit in bytes."@),
        ("mem_available"@, "The amount of memory available to the unit in bytes. This might refer to remaining memory from a configured limit, or system-wide available memory for the unit."@),
        ("mem_peak"@, "The peak (maximum) memory usage recorded for the unit in bytes since its start."@),
        ("mem_swap"@, "The current amount of swap space used by the unit in bytes."@),
        ("mem_swap_peak"@, "The peak (maximum) swap space usage recorded for the unit in bytes since its start."@),
        ("task_count"@, "The current number of tasks (processes or threads) associated with the unit."@),
    ]
}

/// The registration of the `i`-th descriptor for `metric`; the registry
/// adds a full stop to the help text.
pub open spec fn registration_of(i: int, metric: MetricRef) -> Registration {
    Registration { name: metric_descriptors()[i].0, help: metric_descriptors()[i].1 + "."@, metric }
}

/// The registrations that `register_metrics` makes, in order. The job id
/// family is recorded but not registered.
pub open spec fn standard_registrations() -> Seq<Registration> {
    seq![
        registration_of(0, MetricRef::Counter(SCRAPE_TIME_US as nat)),
        registration_of(1, MetricRef::Counter(SCRAPE_COUNT as nat)),
        registration_of(2, MetricRef::CounterFamily(ACTIVE_STATE as nat)),
        registration_of(3, MetricRef::CounterFamily(SUB_STATE as nat)),
        registration_of(4, MetricRef::GaugeFamily(ACTIVE_TS as nat)),
        registration_of(5, MetricRef::GaugeFamily(INACTIVE_TS as nat)),
        registration_of(6, MetricRef::GaugeFamily(START_TS as nat)),
        registration_of(7, MetricRef::GaugeFamily(STOP_TS as nat)),
        registration_of(8, MetricRef::GaugeFamily(MAIN_PID as nat)),
        registration_of(9, MetricRef::CounterFamily(IO_READ_BYTES as nat)),
        registration_of(10, MetricRef::CounterFamily(IO_WRITE_BYTES as nat)),
        registration_of(11, MetricRef::CounterFamily(IO_READ_OPS as nat)),
        registration_of(12, MetricRef::CounterFamily(IO_WRITE_OPS as nat)),
        registration_of(13, MetricRef::CounterFamily(IP_EGRESS_BYTES as nat)),
        registration_of(14, MetricRef::CounterFamily(IP_INGRESS_BYTES as nat)),
        registration_of(15, MetricRef::CounterFamily(IP_EGRESS_PACKETS as nat)),
        registration_of(16, MetricRef::CounterFamily(IP_INGRESS_PACKETS as nat)),
        registration_of(17, MetricRef::CounterFamily(CPU_USAGE_NSEC as nat)),
        registration_of(18, MetricRef::GaugeFamily(MEM_CURRENT as nat)),
        registration_of(19, MetricRef::GaugeFamily(MEM_AVAILABLE as nat)),
        registration_of(20, MetricRef::GaugeFamily(MEM_PEAK as nat)),
        registration_of(21, MetricRef::GaugeFamily(MEM_SWAP as nat)),
        registration_of(22, MetricRef::GaugeFamily(MEM_SWAP_PEAK as nat)),
        registration_of(23, MetricRef::GaugeFamily(TASK_COUNT as nat)),
    ]
}

/// The `i`-th descriptor exposed with `value`.
pub open spec fn exposed_as(i: int, value: Exposed) -> (Seq<char>, Seq<char>, Exposed) {
    (metric_descriptors()[i].0, metric_descriptors()[i].1 + "."@, value)
}

/// What a scrape reports of the metrics `v` once they are registered: each
/// registered metric by name and help text, with what was recorded in it.
pub open spec fn expected_exposition(v: MetricsView) -> Seq<(Seq<char>, Seq<char>, Exposed)> {
    seq![
        exposed_as(0, Exposed::Count(v.scrape_time_us)),
        exposed_as(1, Exposed::Count(v.scrape_count)),
        exposed_as(2, Exposed::Counts(v.active_state)),
        exposed_as(3, Exposed::Counts(v.sub_state)),
        exposed_as(4, Exposed::Levels(v.active_ts)),
        exposed_as(5, Exposed::Levels(v.inactive_ts)),
        exposed_as(6, Exposed::Levels(v.start_ts)),
        exposed_as(7, Exposed::Levels(v.stop_ts)),
        exposed_as(8, Exposed::Levels(v.main_pid)),
        exposed_as(9, Exposed::Counts(v.io_read_bytes)),
        exposed_as(10, Exposed::Counts(v.io_write_bytes)),
        exposed_as(11, Exposed::Counts(v.io_read_ops)),
        exposed_as(12, Exposed::Counts(v.io_write_ops)),
        exposed_as(13, Exposed::Counts(v.ip_egress_bytes)),
        exposed_as(14, Exposed::Counts(v.ip_ingress_bytes)),
        exposed_as(15, Exposed::Counts(v.ip_egress_packets)),
        exposed_as(16, Exposed::Counts(v.ip_ingress_packets)),
        exposed_as(17, Exposed::Counts(v.cpu_usage_nsec)),
        exposed_as(18, Exposed::Levels(v.mem_current)),
        exposed_as(19, Exposed::Levels(v.mem_available)),
        exposed_as(20, Exposed::Levels(v.mem_peak)),
        exposed_as(21, Exposed::Levels(v.mem_swap)),
        exposed_as(22, Exposed::Levels(v.mem_swap_peak)),
        exposed_as(23, Exposed::Levels(v.task_count)),
    ]
}

/// The metrics at the start of a batch: every per-unit family emptied, the
/// scrape counters kept.
pub open spec fn batch_started(m: MetricsView) -> MetricsView {
    MetricsView {
        prefix: m.prefix,
        scrape_time_us: m.scrape_time_us,
        scrape_count: m.scrape_count,
        active_state: Map::empty(),
        sub_state: Map::empty(),
        active_ts: Map::empty(),
        inactive_ts: Map::empty(),
        start_ts: Map::empty(),
        stop_ts: Map::empty(),
        main_pid: Map::empty(),
        job_id: Map::empty(),
        io_read_bytes: Map::empty(),
        io_write_bytes: Map::empty(),
        io_read_ops: Map::empty(),
        io_write_ops: Map::empty(),
        ip_egress_bytes: Map::empty(),
        ip_ingress_bytes: Map::empty(),
        ip_egress_packets: Map::empty(),
        ip_ingress_packets: Map::empty(),
        cpu_usage_nsec: Map::empty(),
        mem_current: Map::empty(),
        mem_available: Map::empty(),
        mem_peak: Map::empty(),
        mem_swap: Map::empty(),
        mem_swap_peak: Map::empty(),
        task_count: Map::empty(),
    }
}

/// The microseconds that a scrape adds to `scrape_time_us`: the duration
/// where it fits in 64 bits, 0 otherwise.
pub open spec fn scrape_micros(micros: u128) -> u64 {
    if micros <= u64::MAX {
        micros as u64
    } else {
        0
    }
}

/// The metrics after a scrape that took `micros` microseconds: the time is
/// added where it fits in 64 bits and the scrape count goes up by one.
pub open spec fn scrape_recorded(m: MetricsView, micros: u128) -> MetricsView {
    MetricsView {
        scrape_time_us: wrapping_add(m.scrape_time_us, scrape_micros(micros)),
        scrape_count: wrapping_add(m.scrape_count, 1),
        ..m
    }
}

impl UnitMetrics {
    /// The store holds every metric of the view.
    pub closed spec fn wf(&self) -> bool {
        &&& store_counters(self.store).len() == 2
        &&& store_counter_families(self.store).len() == 11
        &&& store_gauge_families(self.store).len() == 12
    }

    /// The registrations of the registry, in order.
    pub closed spec fn registrations(&self) -> Seq<Registration> {
        store_registrations(self.store)
    }

    /// What the registry exposes now, registration by registration.
    pub closed spec fn exposition(&self) -> Seq<(Seq<char>, Seq<char>, Exposed)> {
        exposition_of(self.store)
    }

    /// Empty metrics, with nothing registered yet, whose registry writes
    /// metric names behind `prefix`.
    pub fn new(prefix: &str) -> (m: Self)
        ensures
            m.wf(),
            m@ == batch_started(m@),
            m@.prefix == prefix@,
            m@.scrape_time_us == 0,
            m@.scrape_count == 0,
            m.registrations() == Seq::<Registration>::empty(),
    {
        let mut store = new_store(prefix);
        add_counter(&mut store);
        add_counter(&mut store);
        add_counter_family(&mut store);
        add_counter_family(&mut store);
        add_counter_family(&mut store);
        add_counter_family(&mut store);
        add_counter_family(&mut store);
        add_counter_family(&mut store);
        add_counter_family(&mut store);
        add_counter_family(&mut store);
        add_counter_family(&mut store);
        add_counter_family(&mut store);
        add_counter_family(&mut store);
        add_gauge_family(&mut store);
        add_gauge_family(&mut store);
        add_gauge_family(&mut store);
        add_gauge_family(&mut store);
        add_gauge_family(&mut store);
        add_gauge_family(&mut store);
        add_gauge_family(&mut store);
        add_gauge_family(&mut store);
        add_gauge_family(&mut store);
        add_gauge_family(&mut store);
        add_gauge_family(&mut store);
        add_gauge_family(&mut store);
        let m = UnitMetrics { store };
        assert(m@ == batch_started(m@));
        m
    }

    /// Registers the metrics with the registry, in the order of
    /// `metric_descriptors`, each as the very metric that is recorded here.
    pub fn register_metrics(&mut self)
        requires
            old(self).wf(),
        ensures
            final(self).wf(),
            final(self)@ == old(self)@,
            final(self).registrations() == old(self).registrations() + standard_registrations(),
    {
        let s = &mut self.store;
        register_counter(s, SCRAPE_TIME_US, "scrape_time_us", "The time taken in microseconds to perform the scrape.");
        register_counter(s, SCRAPE_COUNT, "scrape_count", "The number of times scraping has been performed.");
        register_counter_family(s, ACTIVE_STATE, "active_state", "The active state of the unit (e.g., 'active', 'inactive', 'failed', 'reloading').");
        register_counter_family(s, SUB_STATE, "sub_state", "A more detailed sub-state of the unit within its active state (e.g., 'running', 'dead', 'exited', 'mounted').");
        register_gauge_family(s, ACTIVE_TS, "active_ts", "The timestamp (in microseconds since the Unix epoch) when the unit became active.");
        register_gauge_family(s, INACTIVE_TS, "inactive_ts", "The timestamp (in microseconds since the Unix epoch) when the unit became inactive.");
        register_gauge_family(s, START_TS, "start_ts", "The timestamp (in microseconds since the Unix epoch) when its main process started.");
        register_gauge_family(s, STOP_TS, "stop_ts", "The timestamp (in microseconds since the Unix epoch) when its main process exited.");
        register_gauge_family(s, MAIN_PID, "main_pid", "The Process ID (PID) of the main process associated with the unit, if applicable.");
        register_counter_family(s, IO_READ_BYTES, "io_read_bytes", "The total number of bytes read by the unit.");
        register_counter_family(s, IO_WRITE_BYTES, "io_write_bytes", "The total number of bytes written by the unit.");
        register_counter_family(s, IO_READ_OPS, "io_read_ops", "The total number of read operations performed by the unit.");
        register_counter_family(s, IO_WRITE_OPS, "io_write_ops", "The total number of write operations performed by the unit.");
        register_counter_family(s, IP_EGRESS_BYTES, "ip_egress_bytes", "The total number of bytes sent (egress) by the unit over the network.");
        register_counter_family(s, IP_INGRESS_BYTES, "ip_ingress_bytes", "The total number of bytes received (ingress) by the unit over the network.");
        register_counter_family(s, IP_EGRESS_PACKETS, "ip_egress_packets", "The total number of packets sent (egress) by the unit over the network.");
        register_counter_family(s, IP_INGRESS_PACKETS, "ip_ingress_packets", "The total number of packets received (ingress) by the unit over the network.");
        register_counter_family(s, CPU_USAGE_NSEC, "cpu_usage_nsec", "The total CPU time used by the unit, measured in nanoseconds.");
        register_gauge_family(s, MEM_CURRENT, "mem_current", "The current memory usage of the unit in bytes.");
        register_gauge_family(s, MEM_AVAILABLE, "mem_available", "The amount of memory available to the unit in bytes. This might refer to remaining memory from a configured limit, or system-wide available memory for the unit.");
        register_gauge_family(s, MEM_PEAK, "mem_peak", "The peak (maximum) memory usage recorded for the unit in bytes since its start.");
        register_gauge_family(s, MEM_SWAP, "mem_swap", "The current amount of swap space used by the unit in bytes.");
        register_gauge_family(s, MEM_SWAP_PEAK, "mem_swap_peak", "The peak (maximum) swap space usage recorded for the unit in bytes since its start.");
        register_gauge_family(s, TASK_COUNT, "task_count", "The current number of tasks (processes or threads) associated with the unit.");
        assert(self.registrations() =~= old(self).registrations() + standard_registrations());
    }

    /// Appends the text exposition of the registry to `buffer`, closed by the
    /// `# EOF` line; always `true`. Once the metrics are registered, the text
    /// reports exactly what was recorded: each metric that has a series, by
    /// prefixed name and help text, with each of its series once.
    pub fn encode(&self, buffer: &mut String) -> (ok: bool)
        requires
            self.wf(),
        ensures
            ok,
            exposes(self@.prefix, self.exposition(), old(buffer)@, final(buffer)@),
            self.registrations() == standard_registrations() ==> exposes(
                self@.prefix,
                expected_exposition(self@),
                old(buffer)@,
                final(buffer)@,
            ),
    {
        proof {
            if self.registrations() == standard_registrations() {
                lemma_scrape_reports_recorded(self);
            }
        }
        encode_store(&self.store, buffer)
    }

    /// Starts a recording batch: empties every per-unit family, so that only
    /// the units recorded from now on are exported.
    pub fn new_batch(&mut self)
        requires
            old(self).wf(),
        ensures
            final(self).wf(),
            final(self)@ == batch_started(old(self)@),
            final(self).registrations() == old(self).registrations(),
    {
        let s = &mut self.store;
        clear_counter_family(s, ACTIVE_STATE);
        clear_counter_family(s, SUB_STATE);
        clear_gauge_family(s, ACTIVE_TS);
        clear_gauge_family(s, INACTIVE_TS);
        clear_gauge_family(s, START_TS);
        clear_gauge_family(s, STOP_TS);
        clear_gauge_family(s, MAIN_PID);
        clear_gauge_family(s, JOB_ID);
        clear_counter_family(s, IO_READ_BYTES);
        clear_counter_family(s, IO_WRITE_BYTES);
        clear_counter_family(s, IO_READ_OPS);
        clear_counter_family(s, IO_WRITE_OPS);
        clear_counter_family(s, IP_EGRESS_BYTES);
        clear_counter_family(s, IP_INGRESS_BYTES);
        clear_counter_family(s, IP_EGRESS_PACKETS);
        clear_counter_family(s, IP_INGRESS_PACKETS);
        clear_counter_family(s, CPU_USAGE_NSEC);
        clear_gauge_family(s, MEM_CURRENT);
        clear_gauge_family(s, MEM_AVAILABLE);
        clear_gauge_family(s, MEM_PEAK);
        clear_gauge_family(s, MEM_SWAP);
        clear_gauge_family(s, MEM_SWAP_PEAK);
        clear_gauge_family(s, TASK_COUNT);
    }

    /// Records a scrape that took `scrape_time`.
    pub fn record_scrape(&mut self, scrape_time: Duration)
        requires
            old(self).wf(),
        ensures
            final(self).wf(),
            final(self)@ == scrape_recorded(old(self)@, micros_of(scrape_time)),
            final(self).registrations() == old(self).registrations(),
    {
        let micros = duration_micros(&scrape_time);
        self.record_scrape_micros(micros);
    }

    /// Records a scrape that took `micros` microseconds: the time is added
    /// where it fits in 64 bits (0 otherwise) and the scrape count goes up by 1.
    pub fn record_scrape_micros(&mut self, micros: u128)
        requires
            old(self).wf(),
        ensures
            final(self).wf(),
            final(self)@ == scrape_recorded(old(self)@, micros),
            final(self).registrations() == old(self).registrations(),
    {
        let us: u64 = if micros <= 0xffff_ffff_ffff_ffffu128 {
            micros as u64
        } else {
            0
        };
        counter_inc_by(&mut self.store, SCRAPE_TIME_US, us);
        counter_inc_by(&mut self.store, SCRAPE_COUNT, 1);
    }
}

/// Once the metrics are registered, a scrape reports exactly what was
/// recorded: every registered metric, by name and help text, with the
/// current contents of the metric that `UnitMetrics` records into.
pub proof fn lemma_scrape_reports_recorded(m: &UnitMetrics)
    requires
        m.wf(),
        m.registrations() == standard_registrations(),
    ensures
        m.exposition() == expected_exposition(m@),
{
    assert(m.exposition() =~= expected_exposition(m@));
}

/// Whether recording `value` in a gauge drops it: it does not fit in an
/// `i64` and is not `u64::MAX`.
pub open spec fn gauge_rejects(value: u64) -> bool {
    value > i64::MAX && value != u64::MAX
}

/// `value` where recording it in a gauge drops it, nothing otherwise.
pub open spec fn rejection(value: u64) -> Seq<u64> {
    if gauge_rejects(value) {
        seq![value]
    } else {
        Seq::empty()
    }
}

/// A gauge map after recording `value` for `k`: the value itself where it
/// fits in an `i64`, `i64::MAX` for `u64::MAX`, and no change otherwise.
pub open spec fn gauge_recorded(m: Map<LabelKey, i64>, k: LabelKey, value: u64) -> Map<LabelKey, i64> {
    if value <= i64::MAX {
        m.insert(k, value as i64)
    } else if value == u64::MAX {
        m.insert(k, i64::MAX)
    } else {
        m
    }
}

/// A counter map after adding `value` to the counter of `k`.
pub open spec fn counter_recorded(m: Map<LabelKey, u64>, k: LabelKey, value: u64) -> Map<LabelKey, u64> {
    m.insert(k, wrapping_add(count_of(m, k), value))
}

/// Sets the gauge of `labels` in the gauge family at `family` to `value`
/// where it fits in an `i64` (`u64::MAX` saturates to `i64::MAX`); otherwise
/// leaves the family as it is and appends `value` to `rejected`.
fn record_gauge(store: &mut MetricStore, family: usize, labels: &LabelSet, value: u64, rejected: &mut Vec<u64>)
    requires
        family < store_gauge_families(*old(store)).len(),
    ensures
        store_gauge_families(*final(store)) == store_gauge_families(*old(store)).update(
            family as int,
            gauge_recorded(store_gauge_families(*old(store))[family as int], label_key(*labels), value),
        ),
        store_counters(*final(store)) == store_counters(*old(store)),
        store_counter_families(*final(store)) == store_counter_families(*old(store)),
        store_registrations(*final(store)) == store_registrations(*old(store)),
        store_prefix(*final(store)) == store_prefix(*old(store)),
        final(rejected)@ == old(rejected)@ + rejection(value),
{
    let v: i64 = if value <= 0x7fff_ffff_ffff_ffffu64 {
        value as i64
    } else if value == u64::MAX {
        i64::MAX
    } else {
        rejected.push(value);
        return ;
    };
    gauge_family_set(store, family, labels, v);
    assert(old(rejected)@ + rejection(value) =~= old(rejected)@);
}

/// The label set of the per-unit metrics of `d`.
pub open spec fn unit_key_of(d: UnitData) -> LabelKey {
    unit_key(d.name@, d.machine@, d.scope@)
}

/// The label set under which `d` is counted: in the sub-state counters
/// (`sub`) with its sub-state, in the active-state counters (`!sub`) with its
/// active state.
pub open spec fn state_key_of(d: UnitData, sub: bool) -> LabelKey {
    state_key(d.name@, d.machine@, d.scope@, if sub { d.status.sub_state@ } else { d.status.active_state@ })
}

/// The sub-state counters (`sub`) or the active-state counters (`!sub`).
pub open spec fn state_counts(m: MetricsView, sub: bool) -> Map<LabelKey, u64> {
    if sub {
        m.sub_state
    } else {
        m.active_state
    }
}

/// The metrics after recording the resource figures of the unit labelled `k`:
/// each group only where its leading figure is positive.
pub open spec fn resources_recorded(m: MetricsView, k: LabelKey, s: ResourceStats) -> MetricsView {
    let io = s.io_stats.read_bytes > 0;
    let ip = s.ip_stats.egress_packets > 0;
    let cpu = s.cpu_stats.usage_nsec > 0;
    let mem = s.mem_stats.current > 0;
    let swap = s.mem_stats.swap > 0;
    MetricsView {
        io_read_bytes: if io { counter_recorded(m.io_read_bytes, k, s.io_stats.read_bytes) } else { m.io_read_bytes },
        io_write_bytes: if io { counter_recorded(m.io_write_bytes, k, s.io_stats.write_bytes) } else { m.io_write_bytes },
        io_read_ops: if io { counter_recorded(m.io_read_ops, k, s.io_stats.read_ops) } else { m.io_read_ops },
        io_write_ops: if io { counter_recorded(m.io_write_ops, k, s.io_stats.write_ops) } else { m.io_write_ops },
        ip_egress_bytes: if ip { counter_recorded(m.ip_egress_bytes, k, s.ip_stats.egress_bytes) } else { m.ip_egress_bytes },
        ip_ingress_bytes: if ip { counter_recorded(m.ip_ingress_bytes, k, s.ip_stats.ingress_bytes) } else { m.ip_ingress_bytes },
        ip_egress_packets: if ip { counter_recorded(m.ip_egress_packets, k, s.ip_stats.egress_packets) } else { m.ip_egress_packets },
        ip_ingress_packets: if ip { counter_recorded(m.ip_ingress_packets, k, s.ip_stats.ingress_packets) } else { m.ip_ingress_packets },
        cpu_usage_nsec: if cpu { counter_recorded(m.cpu_usage_nsec, k, s.cpu_stats.usage_nsec) } else { m.cpu_usage_nsec },
        mem_current: if mem { gauge_recorded(m.mem_current, k, s.mem_stats.current) } else { m.mem_current },
        mem_available: if mem { gauge_recorded(m.mem_available, k, s.mem_stats.available) } else { m.mem_available },
        mem_peak: if mem { gauge_recorded(m.mem_peak, k, s.mem_stats.peak) } else { m.mem_peak },
        mem_swap: if swap { gauge_recorded(m.mem_swap, k, s.mem_stats.swap) } else { m.mem_swap },
        mem_swap_peak: if swap { gauge_recorded(m.mem_swap_peak, k, s.mem_stats.swap_peak) } else { m.mem_swap_peak },
        ..m
    }
}

/// The resource figures that recording drops, in the order they are recorded.
pub open spec fn resource_rejections(s: ResourceStats) -> Seq<u64> {
    let mem = s.mem_stats;
    (if mem.current > 0 {
        rejection(mem.current) + rejection(mem.available) + rejection(mem.peak)
    } else {
        Seq::empty()
    }) + (if mem.swap > 0 {
        rejection(mem.swap) + rejection(mem.swap_peak)
    } else {
        Seq::empty()
    })
}

/// The metrics after recording one unit: its job id; one more observation of
/// its active state and of its sub-state; its active and inactive
/// timestamps; its task figures where it has a main process; and its
/// resource figures.
#[verifier::opaque]
pub open spec fn unit_recorded(m: MetricsView, d: UnitData) -> MetricsView {
    let k = unit_key_of(d);
    let t = d.task_stats;
    let has_main = t.main_pid > 0;
    let m1 = MetricsView {
        job_id: m.job_id.insert(k, d.status.job_id as i64),
        active_state: counter_recorded(m.active_state, state_key_of(d, false), 1),
        sub_state: counter_recorded(m.sub_state, state_key_of(d, true), 1),
        active_ts: gauge_recorded(m.active_ts, k, d.status.active_ts),
        inactive_ts: gauge_recorded(m.inactive_ts, k, d.status.inactive_ts),
        start_ts: if has_main { gauge_recorded(m.start_ts, k, t.start_ts) } else { m.start_ts },
        stop_ts: if has_main { gauge_recorded(m.stop_ts, k, t.stop_ts) } else { m.stop_ts },
        main_pid: if has_main { gauge_recorded(m.main_pid, k, t.main_pid as u64) } else { m.main_pid },
        task_count: if has_main { gauge_recorded(m.task_count, k, t.count) } else { m.task_count },
        ..m
    };
    resources_recorded(m1, k, d.resource_stats)
}

/// The figures of `d` that recording it drops, in the order they are
/// recorded.
pub open spec fn unit_rejections(d: UnitData) -> Seq<u64> {
    let t = d.task_stats;
    rejection(d.status.active_ts) + rejection(d.status.inactive_ts) + (if t.main_pid > 0 {
        rejection(t.start_ts) + rejection(t.stop_ts) + rejection(t.main_pid as u64) + rejection(t.count)
    } else {
        Seq::empty()
    }) + resource_rejections(d.resource_stats)
}

/// The metrics after recording the units of `ds` in order.
pub open spec fn units_recorded(m: MetricsView, ds: Seq<UnitData>) -> MetricsView
    decreases ds.len(),
{
    if ds.len() == 0 {
        m
    } else {
        unit_recorded(units_recorded(m, ds.drop_last()), ds.last())
    }
}

impl UnitMetrics {
    /// Records the figures of one unit. Gives back, in the order they were
    /// recorded, the figures that a gauge could not hold and that were left
    /// out.
    pub fn record_unit(&mut self, data: UnitData) -> (rejected: Vec<u64>)
        requires
            old(self).wf(),
        ensures
            final(self).wf(),
            final(self)@ == unit_recorded(old(self)@, data),
            unit_figures_recorded(old(self)@, final(self)@, data),
            final(self).registrations() == old(self).registrations(),
            rejected@ == unit_rejections(data),
    {
        let mut rejected: Vec<u64> = Vec::new();
        let unit_labels = UnitLabels {
            unit: data.name.clone(),
            machine: data.machine.clone(),
            scope: data.scope.clone(),
        };
        let labels = unit_labels.label_set();
        gauge_family_set(&mut self.store, JOB_ID, &labels, data.status.job_id as i64);

        let active_labels = StateLabels {
            unit: data.name.clone(),
            machine: data.machine.clone(),
            scope: data.scope.clone(),
            state: data.status.active_state.clone(),
        };
        let sub_labels = StateLabels {
            unit: data.name.clone(),
            machine: data.machine.clone(),
            scope: data.scope.clone(),
            state: data.status.sub_state.clone(),
        };
        let active = active_labels.label_set();
        let sub = sub_labels.label_set();
        counter_family_inc_by(&mut self.store, ACTIVE_STATE, &active, 1);
        counter_family_inc_by(&mut self.store, SUB_STATE, &sub, 1);

        record_gauge(&mut self.store, ACTIVE_TS, &labels, data.status.active_ts, &mut rejected);
        record_gauge(&mut self.store, INACTIVE_TS, &labels, data.status.inactive_ts, &mut rejected);

        let stats = &data.task_stats;
        if stats.main_pid > 0 {
            record_gauge(&mut self.store, START_TS, &labels, stats.start_ts, &mut rejected);
            record_gauge(&mut self.store, STOP_TS, &labels, stats.stop_ts, &mut rejected);
            record_gauge(&mut self.store, MAIN_PID, &labels, stats.main_pid as u64, &mut rejected);
            record_gauge(&mut self.store, TASK_COUNT, &labels, stats.count, &mut rejected);
        }
        let ghost mid = self@;
        let ghost k = label_key(labels);
        proof {
            reveal(unit_recorded);
            assert(mid == MetricsView {
                job_id: old(self)@.job_id.insert(k, data.status.job_id as i64),
                active_state: counter_recorded(old(self)@.active_state, state_key_of(data, false), 1),
                sub_state: counter_recorded(old(self)@.sub_state, state_key_of(data, true), 1),
                active_ts: gauge_recorded(old(self)@.active_ts, k, data.status.active_ts),
                inactive_ts: gauge_recorded(old(self)@.inactive_ts, k, data.status.inactive_ts),
                start_ts: if stats.main_pid > 0 { gauge_recorded(old(self)@.start_ts, k, stats.start_ts) } else { old(self)@.start_ts },
                stop_ts: if stats.main_pid > 0 { gauge_recorded(old(self)@.stop_ts, k, stats.stop_ts) } else { old(self)@.stop_ts },
                main_pid: if stats.main_pid > 0 { gauge_recorded(old(self)@.main_pid, k, stats.main_pid as u64) } else { old(self)@.main_pid },
                task_count: if stats.main_pid > 0 { gauge_recorded(old(self)@.task_count, k, stats.count) } else { old(self)@.task_count },
                ..old(self)@
            });
        }
        self.record_resources(&labels, &data.resource_stats, &mut rejected);
        proof {
            lemma_unit_recorded_figures(old(self)@, data);
        }
        rejected
    }

    fn record_resources(&mut self, labels: &LabelSet, stats: &ResourceStats, rejected: &mut Vec<u64>)
        requires
            old(self).wf(),
        ensures
            final(self).wf(),
            final(self)@ == resources_recorded(old(self)@, label_key(*labels), *stats),
            final(self).registrations() == old(self).registrations(),
            final(rejected)@ == old(rejected)@ + resource_rejections(*stats),
    {
        let s = &mut self.store;
        // You will always have some amount of read activity on any unit.
        // If you don't, why bother recording stats?
        if stats.io_stats.read_bytes > 0 {
            counter_family_inc_by(s, IO_READ_BYTES, labels, stats.io_stats.read_bytes);
            counter_family_inc_by(s, IO_WRITE_BYTES, labels, stats.io_stats.write_bytes);
            counter_family_inc_by(s, IO_READ_OPS, labels, stats.io_stats.read_ops);
            counter_family_inc_by(s, IO_WRITE_OPS, labels, stats.io_stats.write_ops);
        }
        if stats.ip_stats.egress_packets > 0 {
            counter_family_inc_by(s, IP_EGRESS_BYTES, labels, stats.ip_stats.egress_bytes);
            counter_family_inc_by(s, IP_INGRESS_BYTES, labels, stats.ip_stats.ingress_bytes);
            counter_family_inc_by(s, IP_EGRESS_PACKETS, labels, stats.ip_stats.egress_packets);
            counter_family_inc_by(s, IP_INGRESS_PACKETS, labels, stats.ip_stats.ingress_packets);
        }
        if stats.cpu_stats.usage_nsec > 0 {
            counter_family_inc_by(s, CPU_USAGE_NSEC, labels, stats.cpu_stats.usage_nsec);
        }
        let ghost r0 = rejected@;
        if stats.mem_stats.current > 0 {
            record_gauge(s, MEM_CURRENT, labels, stats.mem_stats.current, rejected);
            record_gauge(s, MEM_AVAILABLE, labels, stats.mem_stats.available, rejected);
            record_gauge(s, MEM_PEAK, labels, stats.mem_stats.peak, rejected);
        }
        let ghost r1 = rejected@;
        if stats.mem_stats.swap > 0 {
            record_gauge(s, MEM_SWAP, labels, stats.mem_stats.swap, rejected);
            record_gauge(s, MEM_SWAP_PEAK, labels, stats.mem_stats.swap_peak, rejected);
        }
        assert(rejected@ =~= r0 + resource_rejections(*stats));
    }
}

impl UnitMetrics {
    /// Records one batch of units: starts a batch, then records the units of
    /// `stats` in order. Gives back, for each unit in turn, the figures that
    /// a gauge could not hold and that were left out.
    pub fn record_batch(&mut self, stats: Vec<UnitData>) -> (rejected: Vec<Vec<u64>>)
        requires
            old(self).wf(),
        ensures
            final(self).wf(),
            final(self)@ == units_recorded(batch_started(old(self)@), stats@),
            final(self).registrations() == old(self).registrations(),
            rejected@.len() == stats@.len(),
            forall|i: int| 0 <= i < stats@.len() ==> (#[trigger] rejected@[i])@ == unit_rejections(stats@[i]),
    {
        self.new_batch();
        let ghost start = self@;
        let ghost ds = stats@;
        let mut rejected: Vec<Vec<u64>> = Vec::new();
        broadcast use vstd::std_specs::vec::axiom_spec_into_iter;
        for d in it: stats.into_iter()
            invariant
                it.seq() == ds,
                self.wf(),
                self.registrations() == old(self).registrations(),
                self@ == units_recorded(start, it.seq().take(it.index())),
                rejected@.len() == it.index(),
                forall|j: int| 0 <= j < it.index() ==> (#[trigger] rejected@[j])@ == unit_rejections(ds[j]),
        {
            let r = self.record_unit(d);
            rejected.push(r);
            proof {
                let s = it.seq();
                let i = it.index();
                assert(s.take(i + 1).drop_last() =~= s.take(i));
            }
        }
        assert(ds.take(ds.len() as int) =~= ds);
        rejected
    }
}

/// Starting a batch twice is starting it once.
pub proof fn lemma_new_batch_twice(m: MetricsView)
    ensures
        batch_started(batch_started(m)) == batch_started(m),
{
}

/// A batch forgets what came before it: two metrics with the same prefix and
/// scrape counters, whatever their per-unit series, hold exactly the same
/// after the same batch of units is recorded in each.
pub proof fn lemma_batch_forgets_earlier_units(m1: MetricsView, m2: MetricsView, ds: Seq<UnitData>)
    requires
        m1.prefix == m2.prefix,
        m1.scrape_time_us == m2.scrape_time_us,
        m1.scrape_count == m2.scrape_count,
    ensures
        units_recorded(batch_started(m1), ds) == units_recorded(batch_started(m2), ds),
{
    assert(batch_started(m1) == batch_started(m2));
}

/// `after` is `before` with `v` added to the count of `k`, a missing count
/// counting as 0, modulo 2^64; every other count is as it was.
pub open spec fn counter_gained(before: Map<LabelKey, u64>, after: Map<LabelKey, u64>, k: LabelKey, v: u64) -> bool {
    let was: int = if before.contains_key(k) {
        before[k] as int
    } else {
        0
    };
    after == before.insert(k, ((was + v) % 0x1_0000_0000_0000_0000) as u64)
}

/// `after` is `before` with the gauge of `k` set to `v` where `v` fits in an
/// `i64`, to `i64::MAX` where `v` is `u64::MAX`, and `before` unchanged
/// otherwise.
pub open spec fn gauge_took(before: Map<LabelKey, i64>, after: Map<LabelKey, i64>, k: LabelKey, v: u64) -> bool {
    if v <= 0x7fff_ffff_ffff_ffff {
        after == before.insert(k, v as i64)
    } else if v == 0xffff_ffff_ffff_ffff {
        after == before.insert(k, 0x7fff_ffff_ffff_ffff)
    } else {
        after == before
    }
}

/// What recording the unit `d` does, metric by metric, with each figure of
/// `d` named where it goes: the per-unit metrics under the labels `unit`,
/// `machine`, `scope` of `d`, the state counters under those and `state`.
pub open spec fn unit_figures_recorded(before: MetricsView, after: MetricsView, d: UnitData) -> bool {
    let k = seq![("unit"@, d.name@), ("machine"@, d.machine@), ("scope"@, d.scope@)];
    let ka = seq![("unit"@, d.name@), ("machine"@, d.machine@), ("scope"@, d.scope@), ("state"@, d.status.active_state@)];
    let ks = seq![("unit"@, d.name@), ("machine"@, d.machine@), ("scope"@, d.scope@), ("state"@, d.status.sub_state@)];
    let t = d.task_stats;
    let io = d.resource_stats.io_stats;
    let ip = d.resource_stats.ip_stats;
    let cpu = d.resource_stats.cpu_stats;
    let mem = d.resource_stats.mem_stats;
    &&& after.prefix == before.prefix
    &&& after.scrape_time_us == before.scrape_time_us
    &&& after.scrape_count == before.scrape_count
    &&& after.job_id == before.job_id.insert(k, d.status.job_id as i64)
    &&& counter_gained(before.active_state, after.active_state, ka, 1)
    &&& counter_gained(before.sub_state, after.sub_state, ks, 1)
    &&& gauge_took(before.active_ts, after.active_ts, k, d.status.active_ts)
    &&& gauge_took(before.inactive_ts, after.inactive_ts, k, d.status.inactive_ts)
    &&& if t.main_pid > 0 {
        &&& gauge_took(before.start_ts, after.start_ts, k, t.start_ts)
        &&& gauge_took(before.stop_ts, after.stop_ts, k, t.stop_ts)
        &&& gauge_took(before.main_pid, after.main_pid, k, t.main_pid as u64)
        &&& gauge_took(before.task_count, after.task_count, k, t.count)
    } else {
        &&& after.start_ts == before.start_ts
        &&& after.stop_ts == before.stop_ts
        &&& after.main_pid == before.main_pid
        &&& after.task_count == before.task_count
    }
    &&& if io.read_bytes > 0 {
        &&& counter_gained(before.io_read_bytes, after.io_read_bytes, k, io.read_bytes)
        &&& counter_gained(before.io_write_bytes, after.io_write_bytes, k, io.write_bytes)
        &&& counter_gained(before.io_read_ops, after.io_read_ops, k, io.read_ops)
        &&& counter_gained(before.io_write_ops, after.io_write_ops, k, io.write_ops)
    } else {
        &&& after.io_read_bytes == before.io_read_bytes
        &&& after.io_write_bytes == before.io_write_bytes
        &&& after.io_read_ops == before.io_read_ops
        &&& after.io_write_ops == before.io_write_ops
    }
    &&& if ip.egress_packets > 0 {
        &&& counter_gained(before.ip_egress_bytes, after.ip_egress_bytes, k, ip.egress_bytes)
        &&& counter_gained(before.ip_ingress_bytes, after.ip_ingress_bytes, k, ip.ingress_bytes)
        &&& counter_gained(before.ip_egress_packets, after.ip_egress_packets, k, ip.egress_packets)
        &&& counter_gained(before.ip_ingress_packets, after.ip_ingress_packets, k, ip.ingress_packets)
    } else {
        &&& after.ip_egress_bytes == before.ip_egress_bytes
        &&& after.ip_ingress_bytes == before.ip_ingress_bytes
        &&& after.ip_egress_packets == before.ip_egress_packets
        &&& after.ip_ingress_packets == before.ip_ingress_packets
    }
    &&& if cpu.usage_nsec > 0 {
        counter_gained(before.cpu_usage_nsec, after.cpu_usage_nsec, k, cpu.usage_nsec)
    } else {
        after.cpu_usage_nsec == before.cpu_usage_nsec
    }
    &&& if mem.current > 0 {
        &&& gauge_took(before.mem_current, after.mem_current, k, mem.current)
        &&& gauge_took(before.mem_available, after.mem_available, k, mem.available)
        &&& gauge_took(before.mem_peak, after.mem_peak, k, mem.peak)
    } else {
        &&& after.mem_current == before.mem_current
        &&& after.mem_available == before.mem_available
        &&& after.mem_peak == before.mem_peak
    }
    &&& if mem.swap > 0 {
        &&& gauge_took(before.mem_swap, after.mem_swap, k, mem.swap)
        &&& gauge_took(before.mem_swap_peak, after.mem_swap_peak, k, mem.swap_peak)
    } else {
        &&& after.mem_swap == before.mem_swap
        &&& after.mem_swap_peak == before.mem_swap_peak
    }
}

proof fn lemma_counter_gained(m: Map<LabelKey, u64>, k: LabelKey, v: u64)
    ensures
        counter_gained(m, counter_recorded(m, k, v), k, v),
{
}

proof fn lemma_gauge_took(m: Map<LabelKey, i64>, k: LabelKey, v: u64)
    ensures
        gauge_took(m, gauge_recorded(m, k, v), k, v),
{
}

/// Recording a unit puts each of its figures in the metric of the same name:
/// every I/O, IP and CPU counter of its labels gains the figure of that name
/// (where the group's leading figure is positive), every gauge takes the
/// figure of that name, and the state counters count its active state and its
/// sub-state.
pub proof fn lemma_unit_recorded_figures(m: MetricsView, d: UnitData)
    ensures
        unit_figures_recorded(m, unit_recorded(m, d), d),
{
    reveal(unit_recorded);
    let k = unit_key_of(d);
    let t = d.task_stats;
    let s = d.resource_stats;
    lemma_counter_gained(m.active_state, state_key_of(d, false), 1);
    lemma_counter_gained(m.sub_state, state_key_of(d, true), 1);
    lemma_gauge_took(m.active_ts, k, d.status.active_ts);
    lemma_gauge_took(m.inactive_ts, k, d.status.inactive_ts);
    lemma_gauge_took(m.start_ts, k, t.start_ts);
    lemma_gauge_took(m.stop_ts, k, t.stop_ts);
    lemma_gauge_took(m.main_pid, k, t.main_pid as u64);
    lemma_gauge_took(m.task_count, k, t.count);
    lemma_counter_gained(m.io_read_bytes, k, s.io_stats.read_bytes);
    lemma_counter_gained(m.io_write_bytes, k, s.io_stats.write_bytes);
    lemma_counter_gained(m.io_read_ops, k, s.io_stats.read_ops);
    lemma_counter_gained(m.io_write_ops, k, s.io_stats.write_ops);
    lemma_counter_gained(m.ip_egress_bytes, k, s.ip_stats.egress_bytes);
    lemma_counter_gained(m.ip_ingress_bytes, k, s.ip_stats.ingress_bytes);
    lemma_counter_gained(m.ip_egress_packets, k, s.ip_stats.egress_packets);
    lemma_counter_gained(m.ip_ingress_packets, k, s.ip_stats.ingress_packets);
    lemma_counter_gained(m.cpu_usage_nsec, k, s.cpu_stats.usage_nsec);
    lemma_gauge_took(m.mem_current, k, s.mem_stats.current);
    lemma_gauge_took(m.mem_available, k, s.mem_stats.available);
    lemma_gauge_took(m.mem_peak, k, s.mem_stats.peak);
    lemma_gauge_took(m.mem_swap, k, s.mem_stats.swap);
    lemma_gauge_took(m.mem_swap_peak, k, s.mem_stats.swap_peak);
}

/// The number of units in `ds` counted under the label set `k` in the
/// sub-state counters (`sub`) or in the active-state counters (`!sub`).
pub open spec fn state_observations(ds: Seq<UnitData>, k: LabelKey, sub: bool) -> nat
    decreases ds.len(),
{
    if ds.len() == 0 {
        0
    } else {
        state_observations(ds.drop_last(), k, sub) + if state_key_of(ds.last(), sub) == k { 1nat } else { 0nat }
    }
}

/// What recording one unit does to the job-id gauges, the state counters
/// and the scrape counters.
pub proof fn lemma_unit_recorded_frame(m: MetricsView, d: UnitData)
    ensures
        unit_recorded(m, d).job_id == m.job_id.insert(unit_key_of(d), d.status.job_id as i64),
        unit_recorded(m, d).active_state == counter_recorded(m.active_state, state_key_of(d, false), 1),
        unit_recorded(m, d).sub_state == counter_recorded(m.sub_state, state_key_of(d, true), 1),
        unit_recorded(m, d).active_ts == gauge_recorded(m.active_ts, unit_key_of(d), d.status.active_ts),
        unit_recorded(m, d).inactive_ts == gauge_recorded(m.inactive_ts, unit_key_of(d), d.status.inactive_ts),
        unit_recorded(m, d).scrape_time_us == m.scrape_time_us,
        unit_recorded(m, d).scrape_count == m.scrape_count,
{
    reveal(unit_recorded);
}

/// After a batch is started and the units of `ds` are recorded, the job-id
/// gauges are exactly those of the units of `ds`, each holding the job id of
/// the last unit with its labels; nothing else about the earlier units is
/// left; and the scrape counters are as they were.
pub proof fn lemma_batch_holds_only_its_units(m: MetricsView, ds: Seq<UnitData>)
    ensures
        forall|k: LabelKey| #[trigger] units_recorded(batch_started(m), ds).job_id.contains_key(k)
            <==> exists|i: int| 0 <= i < ds.len() && unit_key_of(#[trigger] ds[i]) == k,
        forall|i: int| 0 <= i < ds.len() && (forall|j: int| i < j < ds.len() ==> unit_key_of(#[trigger] ds[j]) != unit_key_of(ds[i]))
            ==> #[trigger] units_recorded(batch_started(m), ds).job_id[unit_key_of(ds[i])] == ds[i].status.job_id as i64,
        units_recorded(batch_started(m), ds).scrape_time_us == m.scrape_time_us,
        units_recorded(batch_started(m), ds).scrape_count == m.scrape_count,
    decreases ds.len(),
{
    if ds.len() > 0 {
        let p = ds.drop_last();
        lemma_batch_holds_only_its_units(m, p);
        let b = units_recorded(batch_started(m), ds);
        let bp = units_recorded(batch_started(m), p);
        lemma_unit_recorded_frame(bp, ds.last());
        assert forall|k: LabelKey| #[trigger] b.job_id.contains_key(k)
            <==> exists|i: int| 0 <= i < ds.len() && unit_key_of(#[trigger] ds[i]) == k by {
            if b.job_id.contains_key(k) && k != unit_key_of(ds.last()) {
                assert(bp.job_id.contains_key(k));
                let i = choose|i: int| 0 <= i < p.len() && unit_key_of(#[trigger] p[i]) == k;
                assert(ds[i] == p[i]);
            }
            if k == unit_key_of(ds.last()) {
                assert(unit_key_of(ds[ds.len() - 1]) == k);
            }
            if exists|i: int| 0 <= i < ds.len() && unit_key_of(#[trigger] ds[i]) == k {
                let i = choose|i: int| 0 <= i < ds.len() && unit_key_of(#[trigger] ds[i]) == k;
                if i < ds.len() - 1 {
                    assert(p[i] == ds[i]);
                    assert(bp.job_id.contains_key(k));
                }
            }
        }
        assert forall|i: int| 0 <= i < ds.len() && (forall|j: int| i < j < ds.len() ==> unit_key_of(#[trigger] ds[j]) != unit_key_of(ds[i]))
            implies #[trigger] b.job_id[unit_key_of(ds[i])] == ds[i].status.job_id as i64 by {
            if i < ds.len() - 1 {
                assert(p[i] == ds[i]);
                assert(unit_key_of(ds[ds.len() - 1]) != unit_key_of(ds[i]));
                assert forall|j: int| i < j < p.len() implies unit_key_of(#[trigger] p[j]) != unit_key_of(p[i]) by {
                    assert(p[j] == ds[j]);
                }
            }
        }
    }
}

/// After a batch is started and the units of `ds` are recorded, the
/// active-state counters count, for each active state, how many units of the
/// batch were in it, and the sub-state counters do the same for sub-states;
/// no other label set is counted.
pub proof fn lemma_batch_counts_states(m: MetricsView, ds: Seq<UnitData>, sub: bool)
    requires
        ds.len() <= u64::MAX,
    ensures
        forall|k: LabelKey| #[trigger] state_counts(units_recorded(batch_started(m), ds), sub).contains_key(k)
            ==> state_counts(units_recorded(batch_started(m), ds), sub)[k] == state_observations(ds, k, sub),
        forall|k: LabelKey| #[trigger] state_counts(units_recorded(batch_started(m), ds), sub).contains_key(k)
            <==> state_observations(ds, k, sub) > 0,
    decreases ds.len(),
{
    if ds.len() > 0 {
        let p = ds.drop_last();
        let d = ds.last();
        lemma_batch_counts_states(m, p, sub);
        lemma_observations_bounded(p, state_key_of(d, sub), sub);
        let bp = units_recorded(batch_started(m), p);
        lemma_unit_recorded_frame(bp, d);
        let a = state_counts(bp, sub);
        let sk = state_key_of(d, sub);
        let na = counter_recorded(a, sk, 1);
        assert(state_counts(units_recorded(batch_started(m), ds), sub) == na);
        assert forall|k: LabelKey| #[trigger] na.contains_key(k) implies na[k] == state_observations(ds, k, sub) by {
            if k == sk {
                assert(count_of(a, sk) == state_observations(p, sk, sub));
            }
        }
        assert forall|k: LabelKey| state_observations(ds, k, sub) > 0 implies #[trigger] na.contains_key(k) by {
            if k != sk {
                assert(state_observations(p, k, sub) > 0);
            }
        }
    }
}

proof fn lemma_observations_bounded(ds: Seq<UnitData>, k: LabelKey, sub: bool)
    ensures
        state_observations(ds, k, sub) <= ds.len(),
    decreases ds.len(),
{
    if ds.len() > 0 {
        lemma_observations_bounded(ds.drop_last(), k, sub);
    }
}

/// The metrics of a unit carry the `scope` label of the manager that reported
/// it: `system` for the system manager, `user@<uid>` for a user's.
pub proof fn lemma_recorded_unit_carries_scope(m: MetricsView, d: UnitData, s: Scope)
    requires
        d.scope@ == scope_label(s),
    ensures
        unit_recorded(m, d).job_id.contains_key(unit_key(d.name@, d.machine@, scope_label(s))),
        unit_recorded(m, d).active_state.contains_key(
            state_key(d.name@, d.machine@, scope_label(s), d.status.active_state@),
        ),
        unit_recorded(m, d).sub_state.contains_key(
            state_key(d.name@, d.machine@, scope_label(s), d.status.sub_state@),
        ),
        unit_key(d.name@, d.machine@, scope_label(s))[2] == ("scope"@, scope_label(s)),
{
    lemma_unit_recorded_frame(m, d);
}

/// A source of metrics that registers them with a registry.
pub trait MetricSource {
    fn register_metrics(registry: &mut Registry);
}

} // verus!
