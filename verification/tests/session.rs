use bpci::WilsonScore;
use lonecli::search_stats::AtomicSearchStats;
use lonecli::session::{transposition_kib, RateTally, SearchOutcome};
use lonecli::tracking::SearchStatistics;

fn stats(visits: usize, unique: usize, stack: u8, hidden: Option<u8>) -> AtomicSearchStats {
    let mut s = AtomicSearchStats::new();
    for _ in 0..visits {
        s.hit_a_state(1);
    }
    for _ in 0..unique {
        s.hit_unique_state(1, 2);
    }
    if let Some(h) = hidden {
        s.hit_game_state(stack, h);
    } else {
        s.hit_game_state(stack, u8::MAX);
    }
    s
}

#[test]
fn tally_sums_deals() {
    let mut t = RateTally::new();
    t.record(SearchOutcome::Solved, &stats(10, 4, 30, Some(5)), 100);
    t.record(SearchOutcome::Terminated, &stats(7, 7, 52, None), 50);
    t.record(SearchOutcome::Unsolvable, &stats(3, 1, 8, Some(12)), 0);
    t.record(SearchOutcome::Crashed, &stats(0, 0, 0, None), 1);
    assert_eq!(t.total(), 4);
    assert_eq!(t.solved(), 1);
    assert_eq!(t.terminated(), 1);
    assert_eq!(t.optimistic_successes(), 2);
    assert_eq!(t.sum_visits(), 20);
    assert_eq!(t.sum_unique(), 12);
    assert_eq!(t.sum_tp_len(), 151);
    assert_eq!(t.sum_max_foundation(), 90);
    assert_eq!(t.sum_min_hidden(), 17);
    assert_eq!(t.min_hidden_obs_count(), 2);
}

#[test]
fn aggregate_every_hundred_deals() {
    let mut t = RateTally::new();
    let s = stats(1, 1, 0, None);
    for i in 1..=200u32 {
        t.record(SearchOutcome::Solved, &s, 0);
        assert_eq!(t.aggregate_due(), i % 100 == 0);
    }
}

#[test]
fn solve_rate_interval_brackets_the_rate() {
    let mut t = RateTally::new();
    let s = stats(1, 1, 0, None);
    for i in 0..20 {
        let outcome = if i % 4 == 0 {
            SearchOutcome::Solved
        } else if i % 4 == 1 {
            SearchOutcome::Terminated
        } else {
            SearchOutcome::Unsolvable
        };
        t.record(outcome, &s, 0);
    }
    let (lower, upper) = t.solve_rate_samples();
    let lo = WilsonScore::<f64, u32>::wilson_score(&lower, 1.960);
    let hi = WilsonScore::<f64, u32>::wilson_score(&upper, 1.960);
    let lo_bound = lo.mean - lo.margin;
    let hi_bound = hi.mean + hi.margin;
    assert!(lo_bound < 0.25);
    assert!(hi_bound > 0.5);
    assert!(lo_bound < hi_bound);
}

#[test]
fn transposition_table_size() {
    assert_eq!(transposition_kib(0), 0);
    assert_eq!(transposition_kib(1000), 7);
    assert_eq!(transposition_kib(128), 1);
}
