//! The four instruments of the endpoint, and the refresh that writes fresh
//! readings into them.

use crate::generators::{
    gen_health_status, gen_metrics_cpu, gen_metrics_mem, sample_window, cpu_of, MetricsCpu,
    MetricsMem, CORE_COUNT, TOTAL_BYTES,
};
use crate::registry::{
    bucket_value, fresh, has_name, lemma_lookup, lemma_put_series_reads, lemma_put_series_wf,
    lemma_same_layout, lemma_scalar_written, lemma_series_written, lemma_three_buckets,
    lemma_with_scalar, lemma_with_series, lookup, put_series, registry_wf, same_layout,
    shape_check, value_lines, with_scalar, with_series, CpuLabels, GaugeKind, InstrumentView,
    MetricsRegistry, ReadingsView, RegistryError,
};
use vstd::prelude::*;
use vstd::string::*;

verus! {

/// The prefix of every instrument's name.
pub const PROM_NAMESPACE: &'static str = "my_server_instr";

/// A name in the namespace.
pub open spec fn namespaced(suffix: Seq<char>) -> Seq<char> {
    PROM_NAMESPACE@ + suffix
}

pub open spec fn health_name() -> Seq<char> {
    namespaced("_health"@)
}

pub open spec fn cpu_load_name() -> Seq<char> {
    namespaced("_cpu_load"@)
}

pub open spec fn memory_total_name() -> Seq<char> {
    namespaced("_memory_bytes_total"@)
}

pub open spec fn memory_used_name() -> Seq<char> {
    namespaced("_memory_bytes_used"@)
}

/// The four instruments as registration leaves them, in its order.
pub open spec fn initial_instruments() -> Seq<InstrumentView> {
    seq![
        fresh(health_name(), "server health"@, GaugeKind::Integer, false),
        fresh(cpu_load_name(), "CPU load average"@, GaugeKind::Millionths, true),
        fresh(memory_total_name(), "total memory in bytes"@, GaugeKind::Real, false),
        fresh(memory_used_name(), "used memory in bytes"@, GaugeKind::Real, false),
    ]
}

/// None of the four names is taken.
pub open spec fn names_free(model: Seq<InstrumentView>) -> bool {
    &&& !has_name(model, health_name())
    &&& !has_name(model, cpu_load_name())
    &&& !has_name(model, memory_total_name())
    &&& !has_name(model, memory_used_name())
}

/// Whether the four instruments are registered, each in its shape; if not,
/// what is wrong with the first that is not.
pub open spec fn readiness(model: Seq<InstrumentView>) -> Result<(), RegistryError> {
    if shape_check(model, health_name(), false) is Err {
        shape_check(model, health_name(), false)
    } else if shape_check(model, cpu_load_name(), true) is Err {
        shape_check(model, cpu_load_name(), true)
    } else if shape_check(model, memory_used_name(), false) is Err {
        shape_check(model, memory_used_name(), false)
    } else {
        shape_check(model, memory_total_name(), false)
    }
}

/// The reading of the health gauge.
pub open spec fn health_reading(healthy: bool) -> u64 {
    if healthy {
        1
    } else {
        0
    }
}

/// The registry after a refresh with the given readings.
pub open spec fn refreshed(
    model: Seq<InstrumentView>,
    healthy: bool,
    cpu: MetricsCpu,
    mem: MetricsMem,
) -> Seq<InstrumentView> {
    let with_health = with_scalar(model, health_name(), health_reading(healthy));
    let with_1m = with_series(with_health, cpu_load_name(), "1m"@, cpu.load_1m);
    let with_5m = with_series(with_1m, cpu_load_name(), "5m"@, cpu.load_5m);
    let with_15m = with_series(with_5m, cpu_load_name(), "15m"@, cpu.load_15m);
    let with_used = with_scalar(with_15m, memory_used_name(), mem.used_bytes);
    with_scalar(with_used, memory_total_name(), mem.total_bytes)
}

/// Whether a registry can be what a refresh makes of another: the readings
/// written are a health flag, a CPU snapshot of `CORE_COUNT` cores and a
/// memory snapshot of `TOTAL_BYTES`.
pub open spec fn refresh_of(before: Seq<InstrumentView>, after: Seq<InstrumentView>) -> bool {
    exists|healthy: bool, samples: Seq<u64>, mem: MetricsMem|
        sample_window(samples, CORE_COUNT) && mem.wf() && mem.total_bytes == TOTAL_BYTES && after
            == #[trigger] refreshed(before, healthy, cpu_of(samples, CORE_COUNT), mem)
}

/// The four names differ.
pub proof fn lemma_names_distinct()
    ensures
        health_name() != cpu_load_name(),
        health_name() != memory_total_name(),
        health_name() != memory_used_name(),
        cpu_load_name() != memory_total_name(),
        cpu_load_name() != memory_used_name(),
        memory_total_name() != memory_used_name(),
{
    reveal_strlit("_health");
    reveal_strlit("_cpu_load");
    reveal_strlit("_memory_bytes_total");
    reveal_strlit("_memory_bytes_used");
    assert(health_name().len() == PROM_NAMESPACE@.len() + 7);
    assert(cpu_load_name().len() == PROM_NAMESPACE@.len() + 9);
    assert(memory_total_name().len() == PROM_NAMESPACE@.len() + 19);
    assert(memory_used_name().len() == PROM_NAMESPACE@.len() + 18);
}

/// A name is taken after a registration if it was taken before, or is the
/// name registered.
pub proof fn lemma_push_has_name(model: Seq<InstrumentView>, entry: InstrumentView, name: Seq<char>)
    ensures
        has_name(model.push(entry), name) == (has_name(model, name) || entry.name == name),
{
    let after = model.push(entry);
    if has_name(model, name) {
        let i = choose|i: int| 0 <= i < model.len() && #[trigger] model[i].name == name;
        assert(after[i].name == name);
    }
    if entry.name == name {
        assert(after[model.len() as int].name == name);
    }
    if has_name(after, name) {
        let i = choose|i: int| 0 <= i < after.len() && #[trigger] after[i].name == name;
        if i < model.len() {
            assert(model[i].name == name);
        }
    }
}

/// The four instruments can be registered once: after their registration
/// each of the four names is taken, so that a second registration is refused.
pub proof fn lemma_registered_once(model: Seq<InstrumentView>)
    ensures
        has_name(model + initial_instruments(), health_name()),
        has_name(model + initial_instruments(), cpu_load_name()),
        has_name(model + initial_instruments(), memory_total_name()),
        has_name(model + initial_instruments(), memory_used_name()),
        !names_free(model + initial_instruments()),
{
    let after = model + initial_instruments();
    let base = model.len() as int;
    assert(after[base].name == health_name());
    assert(after[base + 1].name == cpu_load_name());
    assert(after[base + 2].name == memory_total_name());
    assert(after[base + 3].name == memory_used_name());
}

/// The four instruments are ready for a refresh right after registration.
pub proof fn lemma_ready_after_registration(model: Seq<InstrumentView>)
    requires
        registry_wf(model + initial_instruments()),
    ensures
        readiness(model + initial_instruments()) is Ok,
{
    let after = model + initial_instruments();
    let base = model.len() as int;
    assert(after[base] == initial_instruments()[0]);
    assert(after[base + 1] == initial_instruments()[1]);
    assert(after[base + 2] == initial_instruments()[2]);
    assert(after[base + 3] == initial_instruments()[3]);
    lemma_lookup(after, health_name(), base);
    lemma_lookup(after, cpu_load_name(), base + 1);
    lemma_lookup(after, memory_total_name(), base + 2);
    lemma_lookup(after, memory_used_name(), base + 3);
}

/// After a refresh the registry holds exactly one value for each of the
/// three single gauges, the one written, and exactly three for the CPU load
/// family: the loads written, one under each bucket.
pub proof fn lemma_refreshed_value_lines(
    model: Seq<InstrumentView>,
    healthy: bool,
    cpu: MetricsCpu,
    mem: MetricsMem,
)
    requires
        registry_wf(model),
        readiness(model) is Ok,
    ensures
        ({
            let after = refreshed(model, healthy, cpu, mem);
            &&& registry_wf(after)
            &&& same_layout(model, after)
            &&& lookup(after, health_name()) matches Some(health)
            &&& health.readings == ReadingsView::Scalar(health_reading(healthy))
            &&& value_lines(health) == 1
            &&& lookup(after, memory_used_name()) matches Some(used)
            &&& used.readings == ReadingsView::Scalar(mem.used_bytes)
            &&& value_lines(used) == 1
            &&& lookup(after, memory_total_name()) matches Some(total)
            &&& total.readings == ReadingsView::Scalar(mem.total_bytes)
            &&& value_lines(total) == 1
            &&& lookup(after, cpu_load_name()) matches Some(load)
            &&& load.readings matches ReadingsView::Family(series)
            &&& value_lines(load) == 3
            &&& bucket_value(series, "1m"@) == Some(cpu.load_1m)
            &&& bucket_value(series, "5m"@) == Some(cpu.load_5m)
            &&& bucket_value(series, "15m"@) == Some(cpu.load_15m)
        }),
{
    lemma_names_distinct();
    reveal_strlit("1m");
    reveal_strlit("5m");
    reveal_strlit("15m");
    assert("1m"@[0] != "5m"@[0]);
    assert("1m"@.len() != "15m"@.len());
    assert("5m"@.len() != "15m"@.len());
    let with_health = with_scalar(model, health_name(), health_reading(healthy));
    lemma_with_scalar(model, health_name(), health_reading(healthy));
    lemma_same_layout(model, with_health);
    lemma_scalar_written(model, health_name(), health_reading(healthy));

    let with_1m = with_series(with_health, cpu_load_name(), "1m"@, cpu.load_1m);
    lemma_with_series(with_health, cpu_load_name(), "1m"@, cpu.load_1m);
    lemma_same_layout(with_health, with_1m);
    lemma_series_written(with_health, cpu_load_name(), "1m"@, cpu.load_1m);
    let series_0 = lookup(with_health, cpu_load_name())->Some_0.readings->Family_0;
    let series_1 = put_series(series_0, "1m"@, cpu.load_1m);
    lemma_put_series_wf(series_0, "1m"@, cpu.load_1m);
    lemma_put_series_reads(series_0, "1m"@, cpu.load_1m, "1m"@);

    let with_5m = with_series(with_1m, cpu_load_name(), "5m"@, cpu.load_5m);
    lemma_with_series(with_1m, cpu_load_name(), "5m"@, cpu.load_5m);
    lemma_same_layout(with_1m, with_5m);
    lemma_series_written(with_1m, cpu_load_name(), "5m"@, cpu.load_5m);
    let series_2 = put_series(series_1, "5m"@, cpu.load_5m);
    lemma_put_series_wf(series_1, "5m"@, cpu.load_5m);
    lemma_put_series_reads(series_1, "5m"@, cpu.load_5m, "1m"@);

    let with_15m = with_series(with_5m, cpu_load_name(), "15m"@, cpu.load_15m);
    lemma_with_series(with_5m, cpu_load_name(), "15m"@, cpu.load_15m);
    lemma_same_layout(with_5m, with_15m);
    lemma_series_written(with_5m, cpu_load_name(), "15m"@, cpu.load_15m);
    let series_3 = put_series(series_2, "15m"@, cpu.load_15m);
    lemma_put_series_wf(series_2, "15m"@, cpu.load_15m);
    lemma_put_series_reads(series_2, "15m"@, cpu.load_15m, "1m"@);
    lemma_put_series_reads(series_2, "15m"@, cpu.load_15m, "5m"@);
    assert(bucket_value(series_3, "1m"@) == Some(cpu.load_1m));
    assert(bucket_value(series_3, "5m"@) == Some(cpu.load_5m));
    assert(bucket_value(series_3, "15m"@) == Some(cpu.load_15m));
    lemma_three_buckets(series_3);

    let with_used = with_scalar(with_15m, memory_used_name(), mem.used_bytes);
    lemma_with_scalar(with_15m, memory_used_name(), mem.used_bytes);
    lemma_same_layout(with_15m, with_used);
    lemma_scalar_written(with_15m, memory_used_name(), mem.used_bytes);

    let after = with_scalar(with_used, memory_total_name(), mem.total_bytes);
    lemma_with_scalar(with_used, memory_total_name(), mem.total_bytes);
    lemma_same_layout(with_used, after);
    lemma_scalar_written(with_used, memory_total_name(), mem.total_bytes);

    assert(lookup(after, health_name()) == lookup(with_health, health_name()));
    assert(lookup(after, cpu_load_name()) == lookup(with_15m, cpu_load_name()));
    assert(lookup(after, memory_used_name()) == lookup(with_used, memory_used_name()));
}

fn metric_name(suffix: &str) -> (name: String)
    ensures
        name@ == namespaced(suffix@),
{
    String::from_str(PROM_NAMESPACE).concat(suffix)
}

/// Registers the four instruments: health, CPU load, total memory and used
/// memory, in this order. Where one of the names is taken, nothing is
/// registered.
pub fn register_prom_metrics(registry: &mut MetricsRegistry) -> (done: Result<(), RegistryError>)
    requires
        old(registry).wf(),
    ensures
        done is Ok <==> names_free(old(registry)@),
        done is Ok ==> final(registry)@ == old(registry)@ + initial_instruments() && readiness(
            final(registry)@,
        ) is Ok,
        done matches Err(e) ==> e == RegistryError::Conflict && final(registry)@ == old(registry)@,
        final(registry).wf(),
{
    let health = metric_name("_health");
    let cpu_load = metric_name("_cpu_load");
    let memory_total = metric_name("_memory_bytes_total");
    let memory_used = metric_name("_memory_bytes_used");
    if registry.find(&health).is_some() || registry.find(&cpu_load).is_some() || registry.find(
        &memory_total,
    ).is_some() || registry.find(&memory_used).is_some() {
        return Err(RegistryError::Conflict);
    }
    let ghost entries = initial_instruments();
    let ghost start = registry@;
    proof {
        lemma_names_distinct();
        lemma_push_has_name(start, entries[0], cpu_load_name());
        lemma_push_has_name(start, entries[0], memory_total_name());
        lemma_push_has_name(start, entries[0], memory_used_name());
        lemma_push_has_name(start.push(entries[0]), entries[1], memory_total_name());
        lemma_push_has_name(start.push(entries[0]), entries[1], memory_used_name());
        lemma_push_has_name(start.push(entries[0]).push(entries[1]), entries[2], memory_used_name());
    }
    match registry.register(health, String::from_str("server health"), GaugeKind::Integer, false) {
        Ok(()) => {},
        Err(e) => {
            return Err(e);
        },
    }
    match registry.register(
        cpu_load,
        String::from_str("CPU load average"),
        GaugeKind::Millionths,
        true,
    ) {
        Ok(()) => {},
        Err(e) => {
            return Err(e);
        },
    }
    match registry.register(
        memory_total,
        String::from_str("total memory in bytes"),
        GaugeKind::Real,
        false,
    ) {
        Ok(()) => {},
        Err(e) => {
            return Err(e);
        },
    }
    match registry.register(
        memory_used,
        String::from_str("used memory in bytes"),
        GaugeKind::Real,
        false,
    ) {
        Ok(()) => {},
        Err(e) => {
            return Err(e);
        },
    }
    proof {
        assert(registry@ =~= start + entries);
        lemma_ready_after_registration(start);
    }
    Ok(())
}

/// Whether the four instruments are registered, each in its shape.
pub fn check_ready(registry: &MetricsRegistry) -> (ready: Result<(), RegistryError>)
    requires
        registry.wf(),
    ensures
        ready == readiness(registry@),
{
    let health = registry.check_shape(&metric_name("_health"), false);
    if health.is_err() {
        return health;
    }
    let cpu_load = registry.check_shape(&metric_name("_cpu_load"), true);
    if cpu_load.is_err() {
        return cpu_load;
    }
    let memory_used = registry.check_shape(&metric_name("_memory_bytes_used"), false);
    if memory_used.is_err() {
        return memory_used;
    }
    registry.check_shape(&metric_name("_memory_bytes_total"), false)
}

/// Writes the given readings into the four instruments: the health gauge,
/// the three gauges of the CPU load family, used and total memory. Where an
/// instrument is missing or of the wrong shape, nothing is written.
pub fn store_readings(
    registry: &mut MetricsRegistry,
    healthy: bool,
    cpu: &MetricsCpu,
    mem: &MetricsMem,
) -> (done: Result<(), RegistryError>)
    requires
        old(registry).wf(),
    ensures
        done == readiness(old(registry)@),
        done is Ok ==> final(registry)@ == refreshed(old(registry)@, healthy, *cpu, *mem),
        done is Err ==> final(registry)@ == old(registry)@,
        final(registry).wf(),
        same_layout(old(registry)@, final(registry)@),
{
    let ready = check_ready(registry);
    if ready.is_err() {
        return ready;
    }
    let ghost start = registry@;
    let cpu_load = metric_name("_cpu_load");
    let reading: u64 = if healthy {
        1
    } else {
        0
    };
    let health_done = registry.set(&metric_name("_health"), reading);
    proof {
        lemma_same_layout(start, registry@);
    }
    let ghost with_health = registry@;
    let done_1m = registry.set_labeled(&cpu_load, CpuLabels::one_minute(), cpu.load_1m);
    proof {
        lemma_same_layout(with_health, registry@);
    }
    let ghost with_1m = registry@;
    let done_5m = registry.set_labeled(&cpu_load, CpuLabels::five_minutes(), cpu.load_5m);
    proof {
        lemma_same_layout(with_1m, registry@);
    }
    let ghost with_5m = registry@;
    let done_15m = registry.set_labeled(&cpu_load, CpuLabels::fifteen_minutes(), cpu.load_15m);
    proof {
        lemma_same_layout(with_5m, registry@);
    }
    let ghost with_15m = registry@;
    let used_done = registry.set(&metric_name("_memory_bytes_used"), mem.used_bytes);
    proof {
        lemma_same_layout(with_15m, registry@);
    }
    let ghost with_used = registry@;
    let total_done = registry.set(&metric_name("_memory_bytes_total"), mem.total_bytes);
    proof {
        assert(same_layout(start, registry@));
    }
    Ok(())
}

/// Gathers fresh readings and writes them into the four instruments: one
/// health flag, one CPU snapshot of `CORE_COUNT` cores and one memory
/// snapshot of `TOTAL_BYTES`. Where an instrument is missing or of the wrong
/// shape, nothing is written.
pub fn populate_metrics(registry: &mut MetricsRegistry) -> (done: Result<(), RegistryError>)
    requires
        old(registry).wf(),
    ensures
        done == readiness(old(registry)@),
        done is Ok ==> refresh_of(old(registry)@, final(registry)@),
        done is Err ==> final(registry)@ == old(registry)@,
        final(registry).wf(),
        same_layout(old(registry)@, final(registry)@),
{
    let healthy = gen_health_status();
    let cpu = gen_metrics_cpu(CORE_COUNT);
    let mem = gen_metrics_mem(TOTAL_BYTES);
    store_readings(registry, healthy, &cpu, &mem)
}

} // verus!
