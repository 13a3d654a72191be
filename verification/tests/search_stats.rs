use lonecli::search_stats::{AtomicSearchStats, TRACK_DEPTH};
use lonecli::tracking::{
    DefaultTerminateSignal, EmptySearchStats, SearchStatistics, TerminateSignal,
};

#[test]
fn fresh_statistics_are_empty() {
    let s = AtomicSearchStats::new();
    assert_eq!(s.total_visit(), 0);
    assert_eq!(s.unique_visit(), 0);
    assert_eq!(s.max_depth(), 0);
    assert_eq!(s.max_stack_reached(), 0);
    assert_eq!(s.min_hidden_down(), u8::MAX);
    let r = s.report();
    assert_eq!(r.min_hidden_down, None);
    assert_eq!(r.transposition_hit, 0);
    assert_eq!(r.move_state, [(0, 0); TRACK_DEPTH]);
    let d = AtomicSearchStats::default();
    assert_eq!(d.min_hidden_down(), u8::MAX);
}

#[test]
fn visits_count_and_keep_the_deepest() {
    let mut s = AtomicSearchStats::new();
    for depth in [3usize, 7, 2, 7, 0] {
        s.hit_a_state(depth);
    }
    assert_eq!(s.total_visit(), 5);
    assert_eq!(s.max_depth(), 7);
}

#[test]
fn new_states_restart_progress_at_their_depth() {
    let mut s = AtomicSearchStats::new();
    s.hit_a_state(2);
    s.hit_unique_state(2, 300);
    for _ in 0..3 {
        s.finish_move(2);
    }
    s.finish_move(9);
    s.hit_unique_state(8, 5);
    let r = s.report();
    assert_eq!(r.move_state[2], (3, 44));
    assert_eq!(s.unique_visit(), 2);
    for (d, entry) in r.move_state.iter().enumerate() {
        if d != 2 {
            assert_eq!(*entry, (0, 0));
        }
    }
    s.hit_unique_state(2, 4);
    assert_eq!(s.report().move_state[2], (0, 4));
}

#[test]
fn finished_moves_wrap_at_256() {
    let mut s = AtomicSearchStats::new();
    s.hit_unique_state(0, 1);
    for _ in 0..257 {
        s.finish_move(0);
    }
    assert_eq!(s.report().move_state[0], (1, 1));
}

#[test]
fn game_states_keep_the_extremes() {
    let mut s = AtomicSearchStats::new();
    s.hit_game_state(10, 15);
    s.hit_game_state(5, 20);
    s.hit_game_state(12, 17);
    assert_eq!(s.max_stack_reached(), 12);
    assert_eq!(s.min_hidden_down(), 15);
    assert_eq!(s.report().min_hidden_down, Some(15));
}

#[test]
fn report_splits_visits_into_hits_and_new_states() {
    let mut s = AtomicSearchStats::new();
    for d in 0..10 {
        s.hit_a_state(d);
        if d % 3 == 0 {
            s.hit_unique_state(d, 2);
        }
    }
    let r = s.report();
    assert_eq!(r.total_visit, 10);
    assert_eq!(r.unique_visit, 4);
    assert_eq!(r.transposition_hit, 6);
    assert_eq!(r.transposition_hit + r.unique_visit, r.total_visit);
    assert_eq!(r.max_depth, 9);
}

#[test]
fn empty_statistics_accept_every_event() {
    let mut s = EmptySearchStats;
    s.hit_a_state(1);
    s.hit_unique_state(1, 3);
    s.finish_move(1);
    s.hit_game_state(4, 10);
}

#[test]
fn default_signal_is_never_raised() {
    let t = DefaultTerminateSignal;
    assert!(!t.is_terminated());
    t.terminate();
    assert!(!t.is_terminated());
}

#[test]
fn progress_reads_back_after_updates() {
    let mut s = AtomicSearchStats::new();
    s.hit_unique_state(7, 12);
    s.finish_move(7);
    s.finish_move(7);
    let progress = s.move_state();
    assert_eq!(progress.len(), TRACK_DEPTH);
    assert_eq!(progress[7], (2, 12));
    assert_eq!(progress[0], (0, 0));
}

#[test]
fn most_foundation_cards_is_the_largest_reported() {
    let mut s = AtomicSearchStats::new();
    for stack in [3u8, 40, 17, 40, 2] {
        s.hit_game_state(stack, 20);
    }
    assert_eq!(s.max_stack_reached(), 40);
}

#[test]
fn empty_statistics_keep_the_default_game_state_hook() {
    let mut s = EmptySearchStats;
    s.hit_game_state(52, 0);
    s.hit_a_state(0);
}

#[test]
fn branching_of_new_states() {
    let mut s = AtomicSearchStats::new();
    for n in [3u32, 0, 7, 0, 2] {
        s.hit_unique_state(1, n);
    }
    assert_eq!(s.branching_sum(), 12);
    assert_eq!(s.branching_max(), 7);
    assert_eq!(s.dead_ends(), 2);
    s.hit_a_state(1);
    s.hit_a_state(1);
    s.hit_a_state(1);
    s.hit_a_state(1);
    s.hit_a_state(1);
    let r = s.report();
    assert_eq!((r.branching_sum, r.branching_max, r.dead_ends), (12, 7, 2));
}
