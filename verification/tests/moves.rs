use lonecli::deal::Card;
use lonecli::moves::{
    map_pos, minimal_klondike_notation, solution_histogram, Move, MoveBreakdown, MoveKind, Pos,
    StandardMove,
};

fn card() -> Card {
    Card::new(0, 0)
}

#[test]
fn histogram_counts_each_kind() {
    let moves = vec![
        Move::Reveal(card()),
        Move::PileStack(card()),
        Move::DeckPile(card()),
        Move::DeckPile(card()),
        Move::DeckStack(card()),
        Move::StackPile(card()),
        Move::StackPile(card()),
        Move::StackPile(card()),
    ];
    let b = solution_histogram(&moves);
    assert_eq!(
        b,
        MoveBreakdown { reveal: 1, pile_stack: 1, deck_pile: 2, deck_stack: 1, stack_pile: 3 }
    );
    assert_eq!(b.worry_back(), 3);
    assert_eq!(b.reveal + b.pile_stack + b.deck_pile + b.deck_stack + b.stack_pile, moves.len());
}

#[test]
fn histogram_of_no_moves() {
    let b = solution_histogram(&[]);
    assert_eq!(
        b,
        MoveBreakdown { reveal: 0, pile_stack: 0, deck_pile: 0, deck_stack: 0, stack_pile: 0 }
    );
}

#[test]
fn move_kinds() {
    assert_eq!(Move::Reveal(card()).kind(), MoveKind::Reveal);
    assert_eq!(Move::StackPile(card()).kind(), MoveKind::StackPile);
}

#[test]
fn letters_of_places() {
    assert_eq!(map_pos(Pos::Deck), 'A');
    assert_eq!(map_pos(Pos::Stack(0)), 'B');
    assert_eq!(map_pos(Pos::Stack(3)), 'E');
    assert_eq!(map_pos(Pos::Pile(0)), 'F');
    assert_eq!(map_pos(Pos::Pile(6)), 'L');
    assert_eq!(map_pos(Pos::Stack(255)), '\u{141}');
}

#[test]
fn compact_notation_of_a_solution() {
    let moves = [
        StandardMove { from: Pos::Deck, to: Pos::Deck },
        StandardMove { from: Pos::Deck, to: Pos::Pile(0) },
        StandardMove { from: Pos::Pile(3), to: Pos::Stack(1) },
        StandardMove { from: Pos::Stack(0), to: Pos::Pile(6) },
        StandardMove { from: Pos::Deck, to: Pos::Deck },
    ];
    assert_eq!(minimal_klondike_notation(&moves), "@AF IC BL @");
    assert_eq!(minimal_klondike_notation(&[]), "");
}
