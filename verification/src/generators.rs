//! The synthetic readings: a health flag, a memory snapshot and a CPU load
//! snapshot, each computed from draws of the random source.
//!
//! Every generator comes in two parts: a function of the draws, with an exact
//! contract, and a function that makes the draws and hands them over.

use crate::random::gen_range;
use rand::rngs::ThreadRng;
use vstd::prelude::*;

verus! {

/// Total memory of the simulated machine: 4 GiB.
pub const TOTAL_BYTES: u64 = 4294967296;

/// Number of cores of the simulated machine.
pub const CORE_COUNT: u32 = 8;

/// Loads are fixed-point numbers: a load of one core is `LOAD_SCALE`.
pub const LOAD_SCALE: u64 = 1_000_000;

/// Number of load samples behind one CPU snapshot, one per simulated minute.
pub const SAMPLE_COUNT: usize = 15;

/// Chance draws are taken from `0..DRAW_LIMIT`.
pub const DRAW_LIMIT: u64 = 99;

/// A chance draw below this value is the rare outcome: an unhealthy server,
/// or a load spike.
pub const RARE_BELOW: u64 = 10;

/// Simulated memory usage.
#[derive(Clone, Copy, Debug, PartialEq, Eq, Structural)]
pub struct MetricsMem {
    pub used_bytes: u64,
    pub total_bytes: u64,
}

/// Simulated load averages, in millionths of a core, and the thread count.
#[derive(Clone, Copy, Debug, PartialEq, Eq, Structural)]
pub struct MetricsCpu {
    pub load_1m: u64,
    pub load_5m: u64,
    pub load_15m: u64,
    pub thread_count: u32,
}

/// The payload of the stats endpoint.
#[derive(Clone, Copy, Debug, PartialEq, Eq, Structural)]
pub struct MetricsRoot {
    pub cpu: MetricsCpu,
    pub memory: MetricsMem,
}

impl MetricsMem {
    /// Memory is at least half used and never full.
    pub open spec fn wf(&self) -> bool {
        self.total_bytes / 2 <= self.used_bytes < self.total_bytes
    }
}

/// Whether a chance draw is the common outcome.
pub open spec fn common_draw(draw: int) -> bool {
    draw >= RARE_BELOW
}

/// The sum of a sequence of samples.
pub open spec fn sum(s: Seq<u64>) -> int
    decreases s.len(),
{
    if s.len() == 0 {
        0
    } else {
        sum(s.drop_last()) + s.last()
    }
}

/// The one-minute load: the newest of the samples.
pub open spec fn load_1m_of(samples: Seq<u64>) -> int {
    samples[SAMPLE_COUNT - 1] as int
}

/// The five-minute load: the sum of the five newest samples.
pub open spec fn load_5m_of(samples: Seq<u64>) -> int {
    sum(samples.subrange(SAMPLE_COUNT - 5, SAMPLE_COUNT as int))
}

/// The fifteen-minute load: the sum of all samples.
pub open spec fn load_15m_of(samples: Seq<u64>) -> int {
    sum(samples)
}

/// The snapshot that a window of samples, oldest first, gives on a machine of
/// `core_count` cores. Loads are sums, not means.
pub open spec fn cpu_of(samples: Seq<u64>, core_count: u32) -> MetricsCpu {
    MetricsCpu {
        load_1m: load_1m_of(samples) as u64,
        load_5m: load_5m_of(samples) as u64,
        load_15m: load_15m_of(samples) as u64,
        thread_count: (2 * core_count) as u32,
    }
}

/// Lower end of the range that a load sample is drawn from.
pub open spec fn sample_low(draw: int, core_count: int) -> int {
    if common_draw(draw) {
        0
    } else {
        core_count * LOAD_SCALE
    }
}

/// Upper end, exclusive, of the range that a load sample is drawn from.
pub open spec fn sample_high(draw: int, core_count: int) -> int {
    if common_draw(draw) {
        core_count * LOAD_SCALE
    } else {
        2 * core_count * LOAD_SCALE
    }
}

/// A window of samples as `gen_metrics_cpu` draws it.
pub open spec fn sample_window(samples: Seq<u64>, core_count: u32) -> bool {
    &&& samples.len() == SAMPLE_COUNT
    &&& forall|i: int| 0 <= i < samples.len() ==> samples[i] < 2 * core_count * LOAD_SCALE
}

/// The sum over two sequences joined is the sum of their sums.
pub proof fn lemma_sum_concat(a: Seq<u64>, b: Seq<u64>)
    ensures
        sum(a + b) == sum(a) + sum(b),
    decreases b.len(),
{
    if b.len() == 0 {
        assert(a + b =~= a);
    } else {
        assert((a + b).drop_last() =~= a + b.drop_last());
        lemma_sum_concat(a, b.drop_last());
    }
}

/// No sum of samples is negative.
pub proof fn lemma_sum_nonnegative(s: Seq<u64>)
    ensures
        0 <= sum(s),
    decreases s.len(),
{
    if s.len() > 0 {
        lemma_sum_nonnegative(s.drop_last());
    }
}

/// The sum over a single sample is the sample.
pub proof fn lemma_sum_one(s: Seq<u64>, at: int)
    requires
        0 <= at < s.len(),
    ensures
        sum(s.subrange(at, at + 1)) == s[at],
{
    let one = s.subrange(at, at + 1);
    assert(sum(one.drop_last()) == 0);
}

/// The sum over a part of a sequence is at most the sum over the whole.
pub proof fn lemma_sum_subrange_le(s: Seq<u64>, from: int, to: int)
    requires
        0 <= from <= to <= s.len(),
    ensures
        0 <= sum(s.subrange(from, to)) <= sum(s),
{
    let head = s.subrange(0, from);
    let mid = s.subrange(from, to);
    let tail = s.subrange(to, s.len() as int);
    assert(s =~= head + mid + tail);
    lemma_sum_concat(head + mid, tail);
    lemma_sum_concat(head, mid);
    lemma_sum_nonnegative(head);
    lemma_sum_nonnegative(mid);
    lemma_sum_nonnegative(tail);
}

/// A sum of samples that all lie below `bound` lies below the bound times
/// their number.
pub proof fn lemma_sum_bounded(s: Seq<u64>, bound: int)
    requires
        forall|i: int| 0 <= i < s.len() ==> s[i] < bound,
    ensures
        sum(s) <= s.len() * (bound - 1),
    decreases s.len(),
{
    if s.len() > 0 {
        lemma_sum_bounded(s.drop_last(), bound);
        assert(s.len() * (bound - 1) == (s.len() - 1) * (bound - 1) + (bound - 1))
            by (nonlinear_arith);
    } else {
        assert(s.len() * (bound - 1) == 0) by (nonlinear_arith)
            requires
                s.len() == 0,
        ;
    }
}

/// Of every window of fifteen samples: the one-minute load is the newest
/// sample, the five-minute load is at least the one-minute load, and the
/// fifteen-minute load is at least the five-minute load. None is negative.
pub proof fn lemma_loads_ordered(samples: Seq<u64>)
    requires
        samples.len() == SAMPLE_COUNT,
    ensures
        load_1m_of(samples) == samples.last(),
        0 <= load_1m_of(samples) <= load_5m_of(samples) <= load_15m_of(samples),
{
    let newest_five = samples.subrange(SAMPLE_COUNT - 5, SAMPLE_COUNT as int);
    lemma_sum_subrange_le(samples, SAMPLE_COUNT - 5, SAMPLE_COUNT as int);
    lemma_sum_subrange_le(newest_five, 4, 5);
    assert(newest_five.subrange(4, 5) =~= samples.subrange(
        SAMPLE_COUNT - 1,
        SAMPLE_COUNT as int,
    ));
    lemma_sum_one(samples, SAMPLE_COUNT - 1);
}

/// The health flag that a chance draw gives.
pub fn health_from_draw(draw: u64) -> (healthy: bool)
    ensures
        healthy == common_draw(draw as int),
{
    draw >= RARE_BELOW
}

/// A health flag: `true` unless the chance draw, taken from `0..DRAW_LIMIT`,
/// is the rare outcome. Either flag can come.
pub fn gen_health_status() -> (healthy: bool)
    ensures
        exists|draw: u64| draw < DRAW_LIMIT && healthy == #[trigger] common_draw(draw as int),
{
    let mut rng = rand::thread_rng();
    let draw = gen_range(&mut rng, 0, DRAW_LIMIT);
    health_from_draw(draw)
}

/// The memory snapshot that a draw from the upper half of the memory gives.
pub fn mem_from_draw(total_bytes: u64, draw: u64) -> (mem: MetricsMem)
    requires
        total_bytes / 2 <= draw < total_bytes,
    ensures
        mem == (MetricsMem { used_bytes: draw, total_bytes }),
        mem.wf(),
{
    MetricsMem { used_bytes: draw, total_bytes }
}

/// A memory snapshot of a machine with `total_bytes` of memory: usage is
/// drawn from the upper half of it.
pub fn gen_metrics_mem(total_bytes: u64) -> (mem: MetricsMem)
    requires
        total_bytes >= 2,
    ensures
        mem.total_bytes == total_bytes,
        total_bytes / 2 <= mem.used_bytes < total_bytes,
        mem.wf(),
{
    let mut rng = rand::thread_rng();
    let draw = gen_range(&mut rng, total_bytes / 2, total_bytes);
    mem_from_draw(total_bytes, draw)
}

/// The range that a load sample is drawn from: below the core count on the
/// common outcome of the chance draw, between once and twice the core count
/// on the rare one.
pub fn sample_range(draw: u64, core_count: u32) -> (range: (u64, u64))
    ensures
        range.0 == sample_low(draw as int, core_count as int),
        range.1 == sample_high(draw as int, core_count as int),
{
    let full: u64 = core_count as u64 * LOAD_SCALE;
    if draw >= RARE_BELOW {
        (0, full)
    } else {
        (full, 2 * full)
    }
}

/// Sum of `samples[from..to]`.
pub fn window_sum(samples: &Vec<u64>, from: usize, to: usize) -> (total: u64)
    requires
        from <= to <= samples.len(),
        sum(samples@.subrange(from as int, to as int)) <= u64::MAX,
    ensures
        total == sum(samples@.subrange(from as int, to as int)),
{
    let mut total: u64 = 0;
    let mut i: usize = from;
    while i < to
        invariant
            from <= i <= to <= samples.len(),
            total == sum(samples@.subrange(from as int, i as int)),
            sum(samples@.subrange(from as int, to as int)) <= u64::MAX,
        decreases to - i,
    {
        proof {
            let whole = samples@.subrange(from as int, to as int);
            let next = samples@.subrange(from as int, i + 1);
            assert(next.drop_last() =~= samples@.subrange(from as int, i as int));
            assert(whole.subrange(0, i + 1 - from) =~= next);
            lemma_sum_subrange_le(whole, 0, i + 1 - from);
        }
        total = total + samples[i];
        i = i + 1;
    }
    total
}

/// The CPU snapshot of a window of samples, oldest first.
pub fn cpu_from_samples(samples: &Vec<u64>, core_count: u32) -> (cpu: MetricsCpu)
    requires
        samples.len() == SAMPLE_COUNT,
        sum(samples@) <= u64::MAX,
        2 * core_count <= u32::MAX,
    ensures
        cpu == cpu_of(samples@, core_count),
        cpu.load_1m == load_1m_of(samples@),
        cpu.load_5m == load_5m_of(samples@),
        cpu.load_15m == load_15m_of(samples@),
        cpu.thread_count == 2 * core_count,
        cpu.load_1m <= cpu.load_5m,
        cpu.load_5m <= cpu.load_15m,
{
    proof {
        lemma_loads_ordered(samples@);
        assert(samples@.subrange(0, SAMPLE_COUNT as int) =~= samples@);
    }
    let load_1m = samples[SAMPLE_COUNT - 1];
    let load_5m = window_sum(samples, SAMPLE_COUNT - 5, SAMPLE_COUNT);
    let load_15m = window_sum(samples, 0, SAMPLE_COUNT);
    MetricsCpu { load_1m, load_5m, load_15m, thread_count: core_count * 2 }
}

/// One load sample: a chance draw, taken from `0..DRAW_LIMIT`, picks the
/// range, and a second draw picks the load from that range.
pub fn gen_load_sample(rng: &mut ThreadRng, core_count: u32) -> (sample: u64)
    requires
        core_count >= 1,
    ensures
        exists|draw: u64|
            draw < DRAW_LIMIT && #[trigger] sample_low(draw as int, core_count as int) <= sample
                < sample_high(draw as int, core_count as int),
        sample < 2 * core_count * LOAD_SCALE,
{
    let draw = gen_range(rng, 0, DRAW_LIMIT);
    let range = sample_range(draw, core_count);
    gen_range(rng, range.0, range.1)
}

/// A CPU snapshot of a machine with `core_count` cores, from fifteen fresh
/// load samples.
pub fn gen_metrics_cpu(core_count: u32) -> (cpu: MetricsCpu)
    requires
        core_count >= 1,
        2 * core_count <= u32::MAX,
    ensures
        exists|samples: Seq<u64>| #[trigger]
            sample_window(samples, core_count) && cpu == cpu_of(samples, core_count),
        cpu.thread_count == 2 * core_count,
        cpu.load_1m < 2 * core_count * LOAD_SCALE,
        cpu.load_1m <= cpu.load_5m,
        cpu.load_5m <= cpu.load_15m,
        cpu.load_15m < SAMPLE_COUNT * 2 * core_count * LOAD_SCALE,
{
    let mut rng = rand::thread_rng();
    let mut samples: Vec<u64> = Vec::new();
    let mut i: usize = 0;
    while i < SAMPLE_COUNT
        invariant
            i <= SAMPLE_COUNT,
            core_count >= 1,
            samples.len() == i,
            forall|k: int| 0 <= k < samples.len() ==> samples[k] < 2 * core_count * LOAD_SCALE,
        decreases SAMPLE_COUNT - i,
    {
        let sample = gen_load_sample(&mut rng, core_count);
        samples.push(sample);
        i = i + 1;
    }
    proof {
        let bound = 2 * core_count * LOAD_SCALE;
        lemma_sum_bounded(samples@, bound);
        assert(samples@.len() * (bound - 1) < SAMPLE_COUNT * 2 * core_count * LOAD_SCALE)
            by (nonlinear_arith)
            requires
                samples@.len() == SAMPLE_COUNT,
                SAMPLE_COUNT == 15,
                bound == 2 * core_count * LOAD_SCALE,
        ;
        assert(sample_window(samples@, core_count));
    }
    cpu_from_samples(&samples, core_count)
}

} // verus!
