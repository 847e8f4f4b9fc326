use filigram::progress::should_publish;
use filigram::ProgressCounter;

fn run(total: u64) -> Vec<u64> {
    let mut c = ProgressCounter::new(total);
    let mut seen = Vec::new();
    for _ in 0..total {
        if let Some(p) = c.record() {
            seen.push(p);
        }
    }
    seen.push(c.finish());
    seen
}

#[test]
fn small_runs_publish_every_increment() {
    assert_eq!(run(10), vec![1, 2, 3, 4, 5, 6, 7, 8, 9, 10, 10]);
    assert!(should_publish(999, 7));
}

#[test]
fn busy_runs_publish_every_hundredth() {
    let seen = run(1050);
    assert_eq!(seen.len(), 11);
    assert_eq!(seen[0], 100);
    assert_eq!(seen[9], 1000);
    assert_eq!(*seen.last().unwrap(), 1050);
    assert!(should_publish(1000, 200));
    assert!(!should_publish(1000, 201));
}

#[test]
fn reported_positions_never_decrease() {
    for total in [0u64, 1, 10, 999, 1000, 1234] {
        let seen = run(total);
        assert!(seen.windows(2).all(|w| w[0] <= w[1]));
        assert_eq!(*seen.last().unwrap(), total);
    }
}

#[test]
fn counter_tracks_total_and_count() {
    let mut c = ProgressCounter::new(3);
    assert_eq!(c.total(), 3);
    assert_eq!(c.count(), 0);
    c.record();
    assert_eq!(c.count(), 1);
}
