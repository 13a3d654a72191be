use bpci::WilsonScore;
use lonecli::play::{
    choice_for_input, next_playout_step, read_move_choice, seed_prefix, trial_seed, MoveChoice,
    PlayoutStep, PlayoutTally, SeedType,
};

#[test]
fn seed_prefixes() {
    assert_eq!(seed_prefix(SeedType::Default), 'L');
    assert_eq!(seed_prefix(SeedType::Solvitaire), 'S');
    assert_eq!(seed_prefix(SeedType::KlondikeSolver), 'K');
    assert_eq!(seed_prefix(SeedType::Greenfelt), 'G');
    assert_eq!(seed_prefix(SeedType::Exact), 'E');
    assert_eq!(seed_prefix(SeedType::Microsoft), 'M');
}

#[test]
fn choices_for_parsed_input() {
    assert_eq!(choice_for_input(Some(2), 5), MoveChoice::Play(2));
    assert_eq!(choice_for_input(Some(5), 5), MoveChoice::Undo);
    assert_eq!(choice_for_input(Some(-1), 5), MoveChoice::Undo);
    assert_eq!(choice_for_input(Some(0), 0), MoveChoice::Undo);
    assert_eq!(choice_for_input(None, 5), MoveChoice::Invalid);
}

#[test]
fn reading_input_lines() {
    assert_eq!(read_move_choice("3\n", 5), MoveChoice::Play(3));
    assert_eq!(read_move_choice("  +1  ", 5), MoveChoice::Play(1));
    assert_eq!(read_move_choice("-7", 5), MoveChoice::Undo);
    assert_eq!(read_move_choice("9", 5), MoveChoice::Undo);
    assert_eq!(read_move_choice("128", 200), MoveChoice::Invalid);
    assert_eq!(read_move_choice("-128", 5), MoveChoice::Undo);
    assert_eq!(read_move_choice("abc", 5), MoveChoice::Invalid);
    assert_eq!(read_move_choice("", 5), MoveChoice::Invalid);
    assert_eq!(read_move_choice("1 2", 5), MoveChoice::Invalid);
}

#[test]
fn playout_steps() {
    assert_eq!(next_playout_step(true, 0), PlayoutStep::Won);
    assert_eq!(next_playout_step(true, 4), PlayoutStep::Won);
    assert_eq!(next_playout_step(false, 0), PlayoutStep::Stuck);
    assert_eq!(next_playout_step(false, 4), PlayoutStep::Play);
}

#[test]
fn trial_seeds_wrap() {
    assert_eq!(trial_seed(10, 5), 15);
    assert_eq!(trial_seed(u64::MAX, 1), 0);
    assert_eq!(trial_seed(u64::MAX - 1, 3), 1);
}

#[test]
fn playout_tally() {
    let mut t = PlayoutTally::new();
    for i in 0..10 {
        t.record(i % 5 == 0);
    }
    assert_eq!(t.trials(), 10);
    assert_eq!(t.wins(), 2);
    let interval = WilsonScore::<f64, u32>::wilson_score(&t.sample(), 1.960);
    assert!(interval.mean - interval.margin < 0.2);
    assert!(interval.mean + interval.margin > 0.2);
}

#[test]
fn unicode_white_space_around_the_number_is_ignored() {
    assert_eq!(read_move_choice("\u{3000}\t4\u{2028}\r\n", 5), MoveChoice::Play(4));
    assert_eq!(read_move_choice("\u{200B}4", 5), MoveChoice::Invalid);
}

#[test]
fn one_more_playout_adds_at_most_one_win() {
    let outcomes = [true, false, false, true, true, false];
    let mut previous = 0;
    for t in 1..=outcomes.len() {
        let mut tally = PlayoutTally::new();
        for &won in &outcomes[..t] {
            tally.record(won);
        }
        assert!(previous <= tally.wins() && tally.wins() <= previous + 1);
        previous = tally.wins();
    }
    assert_eq!(trial_seed(41, 3), trial_seed(41, 3));
}
