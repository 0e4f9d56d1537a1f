use downtown::profiler::hist::{bucket_to_value, format_ns, summary_to_table, Histogram, Summary, NUM_BUCKETS};

#[test]
fn bucket_values_are_exact_below_sixteen() {
    for b in 0..16usize {
        assert_eq!(bucket_to_value(b), b as u64);
    }
}

#[test]
fn bucket_values_are_log_linear_from_sixteen() {
    assert_eq!(bucket_to_value(16), 16);
    assert_eq!(bucket_to_value(17), 18);
    assert_eq!(bucket_to_value(23), 30);
    assert_eq!(bucket_to_value(24), 32);
    assert_eq!(bucket_to_value(31), 60);
    assert_eq!(bucket_to_value(100), 12 * 2048);
    assert_eq!(bucket_to_value(495), 15u64 << 60);
}

#[test]
fn bucket_values_wrap_from_bucket_496() {
    assert_eq!(bucket_to_value(496), 0);
    assert_eq!(bucket_to_value(497), 1u64 << 61);
    assert_eq!(bucket_to_value(511), 3u64 << 62);
}

#[test]
fn bucket_values_increase_below_496() {
    for b in 1..496usize {
        assert!(bucket_to_value(b - 1) < bucket_to_value(b), "bucket {b}");
    }
}

#[test]
fn format_ns_picks_the_largest_unit() {
    assert_eq!(format_ns(0), "0 ns");
    assert_eq!(format_ns(999), "999 ns");
    assert_eq!(format_ns(1000), "1 us");
    assert_eq!(format_ns(999_999), "999 us");
    assert_eq!(format_ns(1_000_000), "1 ms");
    assert_eq!(format_ns(999_999_999), "999 ms");
    assert_eq!(format_ns(1_000_000_000), "1 s");
    assert_eq!(format_ns(1_500_000_000), "1 s");
    assert_eq!(format_ns(u64::MAX), "18446744073 s");
}

fn histogram(samples: &[(usize, u64)]) -> Histogram {
    let mut h = Histogram::default();
    for &(b, c) in samples {
        h.add(b, c);
    }
    h
}

#[test]
fn histogram_has_all_buckets() {
    assert_eq!(NUM_BUCKETS, 512);
    let mut h = Histogram::default();
    h.add(511, 1);
    assert_eq!(h.summary().max, bucket_to_value(511));
}

#[test]
fn summary_of_a_single_sample() {
    let s = histogram(&[(5, 1)]).summary();
    assert_eq!(s, Summary { min: 5, p50: 5, p90: 5, p99: 5, max: 5, samples: 1 });
}

#[test]
fn summary_picks_the_bucket_of_each_rank() {
    // 5 samples in bucket 3, 5 in bucket 20: ranks 0..4 lie in bucket 3,
    // ranks 5..9 in bucket 20; p50 is rank 5.
    let s = histogram(&[(3, 5), (20, 5)]).summary();
    assert_eq!(s, Summary { min: 3, p50: 24, p90: 24, p99: 24, max: 24, samples: 10 });
}

#[test]
fn summary_percentiles_of_a_spread() {
    // 100 samples, one per bucket 0..99 of the first 100 buckets
    let mut h = Histogram::default();
    for b in 0..100usize {
        h.add(b, 1);
    }
    let s = h.summary();
    assert_eq!(s.min, bucket_to_value(0));
    assert_eq!(s.p50, bucket_to_value(50));
    assert_eq!(s.p90, bucket_to_value(90));
    assert_eq!(s.p99, bucket_to_value(99));
    assert_eq!(s.max, bucket_to_value(99));
    assert_eq!(s.samples, 100);
}

#[test]
fn summary_counts_add_up() {
    let mut h = Histogram::default();
    h.add(7, 3);
    h.add(7, 4);
    h.add(40, 2);
    let s = h.summary();
    assert_eq!(s.samples, 9);
    assert_eq!(s.min, 7);
    assert_eq!(s.max, bucket_to_value(40));
    // rank 4 (= 9 / 2) lies in bucket 7
    assert_eq!(s.p50, 7);
    // rank 8 (= 81 / 10) lies in bucket 40
    assert_eq!(s.p90, bucket_to_value(40));
}

#[test]
fn summary_is_ordered_below_the_wrapping_buckets() {
    let cases: [&[(usize, u64)]; 4] = [
        &[(1, 1), (2, 1), (400, 7)],
        &[(495, 3), (0, 1)],
        &[(10, 100), (200, 1), (300, 1)],
        &[(64, 9), (65, 1)],
    ];
    for samples in cases {
        let s = histogram(samples).summary();
        assert!(s.min <= s.p50 && s.p50 <= s.p90 && s.p90 <= s.p99 && s.p99 <= s.max);
    }
}

#[test]
fn summary_order_breaks_in_the_wrapping_buckets() {
    let s = histogram(&[(495, 1), (496, 1)]).summary();
    assert_eq!(s.min, 15u64 << 60);
    assert_eq!(s.max, 0);
}

#[test]
fn default_summary_is_all_zero() {
    assert_eq!(Summary::default(), Summary { min: 0, p50: 0, p90: 0, p99: 0, max: 0, samples: 0 });
}

#[test]
fn summary_table_has_a_header_and_one_row() {
    let s = Summary { min: 5, p50: 1500, p90: 2_000_000, p99: 3_000_000_000, max: 4_000_000_000, samples: 42 };
    let t = summary_to_table(&s);
    let header: Vec<String> = t.header().unwrap().cell_iter().map(|c| c.content()).collect();
    assert_eq!(header, vec!["min", "p50", "p90", "p99", "max", "# samples"]);
    let rows: Vec<Vec<String>> = t.row_iter().map(|r| r.cell_iter().map(|c| c.content()).collect()).collect();
    assert_eq!(rows, vec![vec!["5 ns", "1 us", "2 ms", "3 s", "4 s", "42"]]);
}

#[test]
fn summary_table_is_drawn_with_utf8_borders() {
    let t = summary_to_table(&Summary { min: 1, p50: 1, p90: 1, p99: 1, max: 1, samples: 1 });
    let first = t.lines().next().unwrap();
    assert!(first.starts_with('┌'), "{first}");
}

#[test]
fn every_histogram_has_all_buckets() {
    let h = Histogram::default();
    assert_eq!(h.num_buckets(), NUM_BUCKETS);
}

#[test]
fn summary_tables_have_full_utf8_borders() {
    let mut t = summary_to_table(&Summary { min: 1, p50: 2, p90: 3, p99: 4, max: 5, samples: 6 });
    t.set_width(80);
    let lines: Vec<String> = t.lines().collect();
    assert!(lines[0].starts_with('┌'));
    assert!(lines[2].starts_with('╞') && lines[2].contains('═'));
    assert!(lines.last().unwrap().starts_with('└'));
}
