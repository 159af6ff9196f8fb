use vstd::prelude::*;

use prometheus_client::metrics::counter::Counter;
use prometheus_client::metrics::family::Family;
use prometheus_client::metrics::gauge::Gauge;
use prometheus_client::registry::Registry;
use std::time::Duration;

use crate::text::decimal_text;

verus! {

/// A label set as the metric families here key their members: pairs of label
/// name and label value, in the order in which they are written out.
pub type LabelSet = Vec<(String, String)>;

/// The label names and values of a label set.
pub type LabelKey = Seq<(Seq<char>, Seq<char>)>;

/// The text of a label set.
pub open spec fn label_key(l: LabelSet) -> LabelKey {
    l@.map_values(|p: (String, String)| (p.0@, p.1@))
}

/// A metric of a store: a plain counter, a counter family or a gauge family,
/// by its position among the store's metrics of that sort.
pub enum MetricRef {
    Counter(nat),
    CounterFamily(nat),
    GaugeFamily(nat),
}

/// A metric registered for exposition: its name, its help text as the
/// registry keeps it, and the metric it exposes.
pub struct Registration {
    pub name: Seq<char>,
    pub help: Seq<char>,
    pub metric: MetricRef,
}

#[verifier::external_type_specification]
#[verifier::external_body]
pub struct ExRegistry(Registry);

/// What a registry exposes for one registered metric: the value of a counter,
/// or the series of a counter family or of a gauge family by label set.
pub enum Exposed {
    Count(u64),
    Counts(Map<LabelKey, u64>),
    Levels(Map<LabelKey, i64>),
}

/// The metrics of the exporter and the registry that exposes them, with one
/// owner. `prometheus-client` metrics are handles on shared state: the
/// registry keeps clones of the handles it exposes, and a write through one
/// handle shows through all of them. The handles live here, behind this
/// struct (the family type has a function-pointer parameter, which Verus does
/// not take), so that no verified code holds two handles on one metric: every
/// write goes through a function of this module that takes the store by
/// `&mut`, and the registry only reads.
#[verifier::external_body]
pub struct MetricStore {
    registry: Registry,
    counters: Vec<Counter>,
    counter_families: Vec<Family<LabelSet, Counter>>,
    gauge_families: Vec<Family<LabelSet, Gauge>>,
}

/// The values of the store's plain counters, in the order they were added.
pub uninterp spec fn store_counters(s: MetricStore) -> Seq<u64>;

/// The series of the store's counter families, by label set, in the order the
/// families were added.
pub uninterp spec fn store_counter_families(s: MetricStore) -> Seq<Map<LabelKey, u64>>;

/// The series of the store's gauge families, by label set, in the order the
/// families were added.
pub uninterp spec fn store_gauge_families(s: MetricStore) -> Seq<Map<LabelKey, i64>>;

/// The registrations of the store's registry, in order.
pub uninterp spec fn store_registrations(s: MetricStore) -> Seq<Registration>;

/// The prefix that the store's registry writes before each metric name.
pub uninterp spec fn store_prefix(s: MetricStore) -> Seq<char>;

/// What the store holds for the metric `r`.
pub open spec fn exposed_value(s: MetricStore, r: MetricRef) -> Exposed {
    match r {
        MetricRef::Counter(i) => Exposed::Count(store_counters(s)[i as int]),
        MetricRef::CounterFamily(i) => Exposed::Counts(store_counter_families(s)[i as int]),
        MetricRef::GaugeFamily(i) => Exposed::Levels(store_gauge_families(s)[i as int]),
    }
}

/// What the store's registry exposes, registration by registration: the name,
/// the help text and the current contents of the registered metric.
pub open spec fn exposition_of(s: MetricStore) -> Seq<(Seq<char>, Seq<char>, Exposed)> {
    store_registrations(s).map_values(|r: Registration| (r.name, r.help, exposed_value(s, r.metric)))
}

/// The whole microseconds in a duration.
pub uninterp spec fn micros_of(d: Duration) -> u128;

/// `a + b` as a 64-bit counter adds: modulo 2^64.
pub open spec fn wrapping_add(a: u64, b: u64) -> u64 {
    ((a + b) % 0x1_0000_0000_0000_0000) as u64
}

/// The value a counter map holds for `k`, 0 where it holds none.
pub open spec fn count_of(m: Map<LabelKey, u64>, k: LabelKey) -> u64 {
    if m.contains_key(k) {
        m[k]
    } else {
        0
    }
}

/// The contents of an empty counter family.
pub open spec fn no_counters() -> Map<LabelKey, u64> {
    Map::empty()
}

/// The contents of an empty gauge family.
pub open spec fn no_gauges() -> Map<LabelKey, i64> {
    Map::empty()
}

/// No values.
pub open spec fn no_values() -> Seq<u64> {
    Seq::empty()
}

/// No counter families.
pub open spec fn no_counter_families() -> Seq<Map<LabelKey, u64>> {
    Seq::empty()
}

/// No gauge families.
pub open spec fn no_gauge_families() -> Seq<Map<LabelKey, i64>> {
    Seq::empty()
}

/// No registrations.
pub open spec fn no_registrations() -> Seq<Registration> {
    Seq::empty()
}

/// An empty store whose registry writes metric names behind `prefix`.
///
/// Trusted: calls `Registry::with_prefix`, whose source builds a registry
/// with no metric that keeps `prefix` as its prefix.
#[verifier::external_body]
pub(crate) fn new_store(prefix: &str) -> (s: MetricStore)
    ensures
        store_counters(s) == no_values(),
        store_counter_families(s) == no_counter_families(),
        store_gauge_families(s) == no_gauge_families(),
        store_registrations(s) == no_registrations(),
        store_prefix(s) == prefix@,
{
    MetricStore {
        registry: Registry::with_prefix(prefix),
        counters: Vec::new(),
        counter_families: Vec::new(),
        gauge_families: Vec::new(),
    }
}

/// Adds a counter at 0, unregistered; gives its position.
///
/// Trusted: calls `Counter::default`, whose source wraps a zero atomic.
#[verifier::external_body]
pub(crate) fn add_counter(s: &mut MetricStore) -> (i: usize)
    ensures
        store_prefix(*final(s)) == store_prefix(*old(s)),
        i == store_counters(*old(s)).len(),
        store_counters(*final(s)) == store_counters(*old(s)).push(0),
        store_counter_families(*final(s)) == store_counter_families(*old(s)),
        store_gauge_families(*final(s)) == store_gauge_families(*old(s)),
        store_registrations(*final(s)) == store_registrations(*old(s)),
{
    let i = s.counters.len();
    s.counters.push(Counter::default());
    i
}

/// Adds an empty counter family, unregistered; gives its position.
///
/// Trusted: calls `Family::default`, whose source builds the family over an
/// empty map.
#[verifier::external_body]
pub(crate) fn add_counter_family(s: &mut MetricStore) -> (i: usize)
    ensures
        store_prefix(*final(s)) == store_prefix(*old(s)),
        i == store_counter_families(*old(s)).len(),
        store_counter_families(*final(s)) == store_counter_families(*old(s)).push(no_counters()),
        store_counters(*final(s)) == store_counters(*old(s)),
        store_gauge_families(*final(s)) == store_gauge_families(*old(s)),
        store_registrations(*final(s)) == store_registrations(*old(s)),
{
    let i = s.counter_families.len();
    s.counter_families.push(Family::default());
    i
}

/// Adds an empty gauge family, unregistered; gives its position.
///
/// Trusted: calls `Family::default`, whose source builds the family over an
/// empty map.
#[verifier::external_body]
pub(crate) fn add_gauge_family(s: &mut MetricStore) -> (i: usize)
    ensures
        store_prefix(*final(s)) == store_prefix(*old(s)),
        i == store_gauge_families(*old(s)).len(),
        store_gauge_families(*final(s)) == store_gauge_families(*old(s)).push(no_gauges()),
        store_counters(*final(s)) == store_counters(*old(s)),
        store_counter_families(*final(s)) == store_counter_families(*old(s)),
        store_registrations(*final(s)) == store_registrations(*old(s)),
{
    let i = s.gauge_families.len();
    s.gauge_families.push(Family::default());
    i
}

/// Registers the counter at position `i` under `name` with help text `help`.
///
/// Trusted: calls `Registry::register` with a clone of the counter's handle
/// (`Counter::clone` clones the `Arc` around the atomic, so the registry
/// exposes this very counter). The registry's source appends a descriptor of
/// the name and the help text followed by a full stop.
#[verifier::external_body]
pub(crate) fn register_counter(s: &mut MetricStore, i: usize, name: &str, help: &str)
    requires
        i < store_counters(*old(s)).len(),
    ensures
        store_prefix(*final(s)) == store_prefix(*old(s)),
        store_registrations(*final(s)) == store_registrations(*old(s)).push(
            Registration { name: name@, help: help@ + "."@, metric: MetricRef::Counter(i as nat) },
        ),
        store_counters(*final(s)) == store_counters(*old(s)),
        store_counter_families(*final(s)) == store_counter_families(*old(s)),
        store_gauge_families(*final(s)) == store_gauge_families(*old(s)),
{
    let metric = s.counters[i].clone();
    s.registry.register(name, help, metric);
}

/// Registers the counter family at position `i` under `name` with help text
/// `help`.
///
/// Trusted: calls `Registry::register` (as `register_counter` does) with a
/// clone of the family's handle (`Family::clone` clones the `Arc` around the
/// map, so the registry exposes this very family).
#[verifier::external_body]
pub(crate) fn register_counter_family(s: &mut MetricStore, i: usize, name: &str, help: &str)
    requires
        i < store_counter_families(*old(s)).len(),
    ensures
        store_prefix(*final(s)) == store_prefix(*old(s)),
        store_registrations(*final(s)) == store_registrations(*old(s)).push(
            Registration { name: name@, help: help@ + "."@, metric: MetricRef::CounterFamily(i as nat) },
        ),
        store_counters(*final(s)) == store_counters(*old(s)),
        store_counter_families(*final(s)) == store_counter_families(*old(s)),
        store_gauge_families(*final(s)) == store_gauge_families(*old(s)),
{
    let metric = s.counter_families[i].clone();
    s.registry.register(name, help, metric);
}

/// Registers the gauge family at position `i` under `name` with help text
/// `help`.
///
/// Trusted: calls `Registry::register` (as `register_counter` does) with a
/// clone of the family's handle, which shares the family's map.
#[verifier::external_body]
pub(crate) fn register_gauge_family(s: &mut MetricStore, i: usize, name: &str, help: &str)
    requires
        i < store_gauge_families(*old(s)).len(),
    ensures
        store_prefix(*final(s)) == store_prefix(*old(s)),
        store_registrations(*final(s)) == store_registrations(*old(s)).push(
            Registration { name: name@, help: help@ + "."@, metric: MetricRef::GaugeFamily(i as nat) },
        ),
        store_counters(*final(s)) == store_counters(*old(s)),
        store_counter_families(*final(s)) == store_counter_families(*old(s)),
        store_gauge_families(*final(s)) == store_gauge_families(*old(s)),
{
    let metric = s.gauge_families[i].clone();
    s.registry.register(name, help, metric);
}

/// Adds `v` to the counter at position `i`.
///
/// Trusted: calls `Counter::inc_by`, whose source is an
/// `AtomicU64::fetch_add`, which wraps around.
#[verifier::external_body]
pub(crate) fn counter_inc_by(s: &mut MetricStore, i: usize, v: u64)
    requires
        i < store_counters(*old(s)).len(),
    ensures
        store_prefix(*final(s)) == store_prefix(*old(s)),
        store_counters(*final(s)) == store_counters(*old(s)).update(
            i as int,
            wrapping_add(store_counters(*old(s))[i as int], v),
        ),
        store_counter_families(*final(s)) == store_counter_families(*old(s)),
        store_gauge_families(*final(s)) == store_gauge_families(*old(s)),
        store_registrations(*final(s)) == store_registrations(*old(s)),
{
    s.counters[i].inc_by(v);
}

/// Adds `v` to the counter of `labels` in the counter family at position `i`,
/// creating it at 0 first where the family has none.
///
/// Trusted: calls `Family::get_or_create` and then `Counter::inc_by`, whose
/// source is an `AtomicU64::fetch_add`, which wraps around.
#[verifier::external_body]
pub(crate) fn counter_family_inc_by(s: &mut MetricStore, i: usize, labels: &LabelSet, v: u64)
    requires
        i < store_counter_families(*old(s)).len(),
    ensures
        store_prefix(*final(s)) == store_prefix(*old(s)),
        store_counter_families(*final(s)) == store_counter_families(*old(s)).update(
            i as int,
            store_counter_families(*old(s))[i as int].insert(
                label_key(*labels),
                wrapping_add(count_of(store_counter_families(*old(s))[i as int], label_key(*labels)), v),
            ),
        ),
        store_counters(*final(s)) == store_counters(*old(s)),
        store_gauge_families(*final(s)) == store_gauge_families(*old(s)),
        store_registrations(*final(s)) == store_registrations(*old(s)),
{
    s.counter_families[i].get_or_create(labels).inc_by(v);
}

/// Sets the gauge of `labels` in the gauge family at position `i` to `v`,
/// creating it first where the family has none.
///
/// Trusted: calls `Family::get_or_create` and then `Gauge::set`, whose source
/// is an `AtomicI64::swap`.
#[verifier::external_body]
pub(crate) fn gauge_family_set(s: &mut MetricStore, i: usize, labels: &LabelSet, v: i64)
    requires
        i < store_gauge_families(*old(s)).len(),
    ensures
        store_prefix(*final(s)) == store_prefix(*old(s)),
        store_gauge_families(*final(s)) == store_gauge_families(*old(s)).update(
            i as int,
            store_gauge_families(*old(s))[i as int].insert(label_key(*labels), v),
        ),
        store_counters(*final(s)) == store_counters(*old(s)),
        store_counter_families(*final(s)) == store_counter_families(*old(s)),
        store_registrations(*final(s)) == store_registrations(*old(s)),
{
    s.gauge_families[i].get_or_create(labels).set(v);
}

/// Removes every counter of the counter family at position `i`.
///
/// Trusted: calls `Family::clear`, whose source clears the map.
#[verifier::external_body]
pub(crate) fn clear_counter_family(s: &mut MetricStore, i: usize)
    requires
        i < store_counter_families(*old(s)).len(),
    ensures
        store_prefix(*final(s)) == store_prefix(*old(s)),
        store_counter_families(*final(s)) == store_counter_families(*old(s)).update(i as int, no_counters()),
        store_counters(*final(s)) == store_counters(*old(s)),
        store_gauge_families(*final(s)) == store_gauge_families(*old(s)),
        store_registrations(*final(s)) == store_registrations(*old(s)),
{
    s.counter_families[i].clear();
}

/// Removes every gauge of the gauge family at position `i`.
///
/// Trusted: calls `Family::clear`, whose source clears the map.
#[verifier::external_body]
pub(crate) fn clear_gauge_family(s: &mut MetricStore, i: usize)
    requires
        i < store_gauge_families(*old(s)).len(),
    ensures
        store_prefix(*final(s)) == store_prefix(*old(s)),
        store_gauge_families(*final(s)) == store_gauge_families(*old(s)).update(i as int, no_gauges()),
        store_counters(*final(s)) == store_counters(*old(s)),
        store_counter_families(*final(s)) == store_counter_families(*old(s)),
        store_registrations(*final(s)) == store_registrations(*old(s)),
{
    s.gauge_families[i].clear();
}

/// A label value as the text format writes it: backslash, double quote and
/// newline escaped with a backslash.
pub open spec fn escaped(v: Seq<char>) -> Seq<char>
    decreases v.len(),
{
    if v.len() == 0 {
        Seq::empty()
    } else {
        let c = v[0];
        let e = if c == '\\' {
            "\\\\"@
        } else if c == '"' {
            "\\\""@
        } else if c == '\n' {
            "\\n"@
        } else {
            seq![c]
        };
        e + escaped(v.drop_first())
    }
}

/// The labels of a series, `name="value"` pairs separated by commas.
pub open spec fn label_pairs(k: LabelKey) -> Seq<char>
    decreases k.len(),
{
    if k.len() == 0 {
        Seq::empty()
    } else {
        let pair = k.last().0 + "=\""@ + escaped(k.last().1) + "\""@;
        if k.len() == 1 {
            pair
        } else {
            label_pairs(k.drop_last()) + ","@ + pair
        }
    }
}

/// A signed integer in decimal.
pub open spec fn signed_text(v: i64) -> Seq<char> {
    if v < 0 {
        "-"@ + decimal_text((-v) as nat)
    } else {
        decimal_text(v as nat)
    }
}

/// The sample lines of a counter family, one per label set of `order`.
pub open spec fn counter_lines(full: Seq<char>, m: Map<LabelKey, u64>, order: Seq<LabelKey>) -> Seq<char>
    decreases order.len(),
{
    if order.len() == 0 {
        Seq::empty()
    } else {
        let k = order.last();
        counter_lines(full, m, order.drop_last()) + full + "_total{"@ + label_pairs(k) + "} "@
            + decimal_text(m[k] as nat) + "\n"@
    }
}

/// The sample lines of a gauge family, one per label set of `order`.
pub open spec fn gauge_lines(full: Seq<char>, m: Map<LabelKey, i64>, order: Seq<LabelKey>) -> Seq<char>
    decreases order.len(),
{
    if order.len() == 0 {
        Seq::empty()
    } else {
        let k = order.last();
        gauge_lines(full, m, order.drop_last()) + full + "{"@ + label_pairs(k) + "} "@
            + signed_text(m[k]) + "\n"@
    }
}

/// The `HELP` and `TYPE` lines of a metric.
pub open spec fn descriptor_lines(full: Seq<char>, help: Seq<char>, kind: Seq<char>) -> Seq<char> {
    "# HELP "@ + full + " "@ + help + "\n"@ + "# TYPE "@ + full + " "@ + kind + "\n"@
}

/// The text of one registered metric whose family series come in the order
/// `order`: nothing for an empty family; otherwise its `HELP` and `TYPE`
/// lines and its samples.
pub open spec fn metric_text(prefix: Seq<char>, entry: (Seq<char>, Seq<char>, Exposed), order: Seq<LabelKey>) -> Seq<char> {
    let full = prefix + "_"@ + entry.0;
    match entry.2 {
        Exposed::Count(v) => descriptor_lines(full, entry.1, "counter"@) + full + "_total "@ + decimal_text(
            v as nat,
        ) + "\n"@,
        Exposed::Counts(m) => if m == Map::<LabelKey, u64>::empty() {
            Seq::empty()
        } else {
            descriptor_lines(full, entry.1, "counter"@) + counter_lines(full, m, order)
        },
        Exposed::Levels(m) => if m == Map::<LabelKey, i64>::empty() {
            Seq::empty()
        } else {
            descriptor_lines(full, entry.1, "gauge"@) + gauge_lines(full, m, order)
        },
    }
}

/// Whether `order` lists the series of `e` in some order, each once (and is
/// empty for a plain counter).
pub open spec fn series_order_ok(e: Exposed, order: Seq<LabelKey>) -> bool {
    match e {
        Exposed::Count(_) => order.len() == 0,
        Exposed::Counts(m) => order.no_duplicates() && order.to_set() == m.dom(),
        Exposed::Levels(m) => order.no_duplicates() && order.to_set() == m.dom(),
    }
}

/// Whether `orders` gives a series order for each entry of `entries`.
pub open spec fn orders_ok(entries: Seq<(Seq<char>, Seq<char>, Exposed)>, orders: Seq<Seq<LabelKey>>) -> bool {
    &&& orders.len() == entries.len()
    &&& forall|i: int| 0 <= i < entries.len() ==> series_order_ok(entries[i].2, #[trigger] orders[i])
}

/// The text exposition of `entries` under `prefix`, the series of the `i`-th
/// entry in the order `orders[i]`, without the closing `# EOF` line.
pub open spec fn exposition_text(
    prefix: Seq<char>,
    entries: Seq<(Seq<char>, Seq<char>, Exposed)>,
    orders: Seq<Seq<LabelKey>>,
) -> Seq<char>
    decreases entries.len(),
{
    if entries.len() == 0 {
        Seq::empty()
    } else {
        exposition_text(prefix, entries.drop_last(), orders.drop_last()) + metric_text(
            prefix,
            entries.last(),
            orders.last(),
        )
    }
}

/// Whether `after` is `before` followed by the text exposition of `entries`
/// under `prefix`, in some order of the series within each family, and the
/// `# EOF` line.
pub open spec fn exposes(
    prefix: Seq<char>,
    entries: Seq<(Seq<char>, Seq<char>, Exposed)>,
    before: Seq<char>,
    after: Seq<char>,
) -> bool {
    exists|orders: Seq<Seq<LabelKey>>|
        orders_ok(entries, orders) && after == before + exposition_text(prefix, entries, orders) + "# EOF\n"@
}

/// Appends the text exposition of the store's registry to `buffer`; always
/// `true`.
///
/// Trusted: calls `prometheus_client::encoding::text::encode`. Its source
/// writes, for each registration in order whose metric is not an empty
/// family, the `HELP` line (prefix, `_`, name, help text) and the `TYPE`
/// line, then one sample per series: `_total` after counter names, the label
/// pairs in braces with the values escaped, and the value in decimal; then
/// the `# EOF` line. It fails only where the writer fails (a `String` never
/// does) or for native histograms, which no store holds. Within a family the
/// series come in the iteration order of a hash map that each process seeds:
/// the contract says only that each series comes once.
#[verifier::external_body]
pub(crate) fn encode_store(s: &MetricStore, buffer: &mut String) -> (ok: bool)
    ensures
        ok,
        exposes(store_prefix(*s), exposition_of(*s), old(buffer)@, final(buffer)@),
{
    prometheus_client::encoding::text::encode(buffer, &s.registry).is_ok()
}

/// The whole microseconds in `d`.
///
/// Trusted: calls `Duration::as_micros`.
#[verifier::external_body]
pub(crate) fn duration_micros(d: &Duration) -> (r: u128)
    ensures
        r == micros_of(*d),
{
    d.as_micros()
}

} // verus!
