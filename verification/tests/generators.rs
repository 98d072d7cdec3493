use metrics_generator::generators::{
    cpu_from_samples, gen_health_status, gen_load_sample, gen_metrics_cpu, gen_metrics_mem,
    health_from_draw, mem_from_draw, sample_range, window_sum, MetricsCpu, MetricsMem,
    CORE_COUNT, DRAW_LIMIT, LOAD_SCALE, RARE_BELOW, SAMPLE_COUNT, TOTAL_BYTES,
};

#[test]
fn constants_are_the_documented_ones() {
    assert_eq!(TOTAL_BYTES, 4 * 1024 * 1024 * 1024);
    assert_eq!(CORE_COUNT, 8);
    assert_eq!(SAMPLE_COUNT, 15);
    assert_eq!(DRAW_LIMIT, 99);
    assert_eq!(RARE_BELOW, 10);
    assert_eq!(LOAD_SCALE, 1_000_000);
}

#[test]
fn health_follows_the_draw() {
    assert!(!health_from_draw(0));
    assert!(!health_from_draw(9));
    assert!(health_from_draw(10));
    assert!(health_from_draw(98));
}

#[test]
fn health_is_true_about_nine_times_in_ten() {
    let trials = 100_000;
    let mut healthy = 0;
    for _ in 0..trials {
        if gen_health_status() {
            healthy += 1;
        }
    }
    assert!(healthy >= trials * 85 / 100, "healthy {healthy} of {trials}");
    assert!(healthy <= trials * 95 / 100, "healthy {healthy} of {trials}");
}

#[test]
fn memory_from_a_draw_is_the_draw() {
    let mem = mem_from_draw(100, 73);
    assert_eq!(mem, MetricsMem { used_bytes: 73, total_bytes: 100 });
    let mem = mem_from_draw(TOTAL_BYTES, TOTAL_BYTES / 2);
    assert_eq!(mem.used_bytes, 2147483648);
    assert_eq!(mem.total_bytes, 4294967296);
}

#[test]
fn memory_is_at_least_half_used_and_never_full() {
    for _ in 0..10_000 {
        let mem = gen_metrics_mem(TOTAL_BYTES);
        assert_eq!(mem.total_bytes, TOTAL_BYTES);
        assert!(mem.used_bytes >= TOTAL_BYTES / 2);
        assert!(mem.used_bytes < TOTAL_BYTES);
    }
}

#[test]
fn memory_of_other_sizes() {
    for total in [2u64, 3, 7, 1000, u64::MAX] {
        for _ in 0..200 {
            let mem = gen_metrics_mem(total);
            assert_eq!(mem.total_bytes, total);
            assert!(mem.used_bytes >= total / 2);
            assert!(mem.used_bytes < total);
        }
    }
    assert_eq!(gen_metrics_mem(2), MetricsMem { used_bytes: 1, total_bytes: 2 });
}

#[test]
fn memory_draws_vary() {
    let first = gen_metrics_mem(TOTAL_BYTES).used_bytes;
    let mut other = false;
    for _ in 0..1000 {
        if gen_metrics_mem(TOTAL_BYTES).used_bytes != first {
            other = true;
        }
    }
    assert!(other);
    let mut above_low = false;
    for _ in 0..1000 {
        if gen_metrics_mem(TOTAL_BYTES).used_bytes != TOTAL_BYTES / 2 {
            above_low = true;
        }
    }
    assert!(above_low);
}

#[test]
fn sample_range_follows_the_draw() {
    assert_eq!(sample_range(10, 8), (0, 8_000_000));
    assert_eq!(sample_range(98, 8), (0, 8_000_000));
    assert_eq!(sample_range(9, 8), (8_000_000, 16_000_000));
    assert_eq!(sample_range(0, 8), (8_000_000, 16_000_000));
    assert_eq!(sample_range(50, 1), (0, 1_000_000));
    assert_eq!(sample_range(5, u32::MAX), (4294967295000000, 8589934590000000));
}

#[test]
fn load_samples_stay_below_twice_the_core_count() {
    let mut rng = rand::thread_rng();
    let mut spikes = 0;
    let trials = 20_000;
    for _ in 0..trials {
        let sample = gen_load_sample(&mut rng, 8);
        assert!(sample < 16_000_000);
        if sample >= 8_000_000 {
            spikes += 1;
        }
    }
    assert!(spikes > trials * 5 / 100, "spikes {spikes}");
    assert!(spikes < trials * 15 / 100, "spikes {spikes}");
}

#[test]
fn window_sum_adds_the_window() {
    let samples: Vec<u64> = vec![5, 7, 11, 13];
    assert_eq!(window_sum(&samples, 0, 4), 36);
    assert_eq!(window_sum(&samples, 1, 3), 18);
    assert_eq!(window_sum(&samples, 2, 2), 0);
    assert_eq!(window_sum(&samples, 3, 4), 13);
}

#[test]
fn cpu_snapshot_of_a_window() {
    let samples: Vec<u64> = (1..=15).map(|n| n * 1_000_000).collect();
    let cpu = cpu_from_samples(&samples, 8);
    assert_eq!(
        cpu,
        MetricsCpu {
            load_1m: 15_000_000,
            load_5m: 65_000_000,
            load_15m: 120_000_000,
            thread_count: 16,
        }
    );
}

#[test]
fn five_minute_load_sums_the_five_newest_samples() {
    let mut samples: Vec<u64> = vec![1_000_000; 15];
    samples[14] = 3_000_000;
    let cpu = cpu_from_samples(&samples, 8);
    assert_eq!(
        cpu,
        MetricsCpu {
            load_1m: 3_000_000,
            load_5m: 7_000_000,
            load_15m: 17_000_000,
            thread_count: 16,
        }
    );

    let mut samples: Vec<u64> = vec![0; 15];
    samples[14] = 1_000;
    let cpu = cpu_from_samples(&samples, 4);
    assert_eq!(cpu.load_1m, 1_000);
    assert_eq!(cpu.load_5m, 1_000);
    assert_eq!(cpu.load_15m, 1_000);
    assert_eq!(cpu.thread_count, 8);

    samples[9] = 500;
    samples[10] = 20;
    let cpu = cpu_from_samples(&samples, 4);
    assert_eq!(cpu.load_5m, 1_020);
    assert_eq!(cpu.load_5m, samples[10..15].iter().sum::<u64>());
    assert_eq!(cpu.load_15m, 1_520);
}

#[test]
fn cpu_snapshot_of_fresh_samples() {
    for _ in 0..2_000 {
        let cpu = gen_metrics_cpu(CORE_COUNT);
        assert_eq!(cpu.thread_count, 16);
        assert!(cpu.load_1m < 16 * LOAD_SCALE);
        assert!(cpu.load_5m < 5 * 16 * LOAD_SCALE);
        assert!(cpu.load_15m < 15 * 16 * LOAD_SCALE);
        assert!(cpu.load_5m >= cpu.load_1m);
        assert!(cpu.load_15m >= cpu.load_5m);
    }
}

#[test]
fn cpu_snapshot_of_the_widest_machine() {
    let cores = u32::MAX / 2;
    let cpu = gen_metrics_cpu(cores);
    assert_eq!(cpu.thread_count, u32::MAX - 1);
    assert!(cpu.load_5m >= cpu.load_1m);
    assert!(cpu.load_15m >= cpu.load_5m);
    let cpu = gen_metrics_cpu(1);
    assert_eq!(cpu.thread_count, 2);
    assert!(cpu.load_1m < 2 * LOAD_SCALE);
}
