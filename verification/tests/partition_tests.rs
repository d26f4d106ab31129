use pi_series::partition::IndexRange;
use pi_series::partition::split_range_for_threading;

#[test]
fn ten_indices_over_three_workers_sizes_3_3_4() {
    let tasks = split_range_for_threading(10, 3);
    assert_eq!(tasks.len(), 3);
    let sizes: Vec<u64> = tasks.iter().map(|t| t.iter().map(|r| r.end - r.start).sum()).collect();
    assert_eq!(sizes, vec![3, 3, 4]);
    assert_eq!(tasks[0], vec![IndexRange { start: 0, end: 3 }]);
    assert_eq!(tasks[1], vec![IndexRange { start: 3, end: 6 }]);
    assert_eq!(tasks[2], vec![IndexRange { start: 6, end: 10 }]);
}

#[test]
fn partition_covers_every_index_exactly_once() {
    for (n, t) in [(17u64, 5u64), (8, 8), (100, 7), (5, 1)] {
        let tasks = split_range_for_threading(n, t);
        assert_eq!(tasks.len(), t as usize);
        let mut seen = vec![0u32; n as usize];
        for task in &tasks {
            for r in task {
                assert!(r.start < r.end, "empty block for n={n} t={t}");
                assert!(r.end <= n);
                for k in r.start..r.end {
                    seen[k as usize] += 1;
                }
            }
        }
        assert!(seen.iter().all(|&c| c == 1), "not a disjoint cover for n={n} t={t}");
    }
}

#[test]
fn partition_sizes_differ_at_most_by_remainder() {
    for (n, t) in [(10u64, 3u64), (23, 4), (64, 8), (7, 2)] {
        let tasks = split_range_for_threading(n, t);
        let sizes: Vec<u64> = tasks
            .iter()
            .map(|task| task.iter().map(|r| r.end - r.start).sum())
            .collect();
        let rem = n % t;
        for (i, &a) in sizes.iter().enumerate() {
            if i + 1 < sizes.len() {
                assert_eq!(a, n / t, "worker {i} of n={n} t={t}");
            } else {
                assert_eq!(a, n / t + rem, "last worker of n={n} t={t}");
            }
            for &b in &sizes {
                assert!(a <= b + rem);
            }
        }
    }
}
