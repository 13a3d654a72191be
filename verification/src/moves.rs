//! Solutions: how many moves of each kind a solution makes, and how a
//! solution reads in the compact notation of Klondike solvers.

use vstd::prelude::*;
use crate::deal::Card;

verus! {

/// A move of the solver, carrying the card that moves.
#[derive(Clone, Copy, Debug, PartialEq, Eq, Structural)]
pub enum Move {
    /// A face-down pile card is turned over.
    Reveal(Card),
    /// A card goes from a pile to its foundation stack.
    PileStack(Card),
    /// A card goes from the deck to a pile.
    DeckPile(Card),
    /// A card goes from the deck to its foundation stack.
    DeckStack(Card),
    /// A card comes back from its foundation stack to a pile.
    StackPile(Card),
}

/// The kind of a move, without its card.
#[derive(Clone, Copy, Debug, PartialEq, Eq, Structural)]
pub enum MoveKind {
    Reveal,
    PileStack,
    DeckPile,
    DeckStack,
    StackPile,
}

impl Move {
    pub open spec fn spec_kind(self) -> MoveKind {
        match self {
            Move::Reveal(_) => MoveKind::Reveal,
            Move::PileStack(_) => MoveKind::PileStack,
            Move::DeckPile(_) => MoveKind::DeckPile,
            Move::DeckStack(_) => MoveKind::DeckStack,
            Move::StackPile(_) => MoveKind::StackPile,
        }
    }

    pub fn kind(&self) -> (k: MoveKind)
        ensures
            k == self.spec_kind(),
    {
        match self {
            Move::Reveal(_) => MoveKind::Reveal,
            Move::PileStack(_) => MoveKind::PileStack,
            Move::DeckPile(_) => MoveKind::DeckPile,
            Move::DeckStack(_) => MoveKind::DeckStack,
            Move::StackPile(_) => MoveKind::StackPile,
        }
    }
}

/// Number of moves of kind `k`.
pub open spec fn kind_count(moves: Seq<Move>, k: MoveKind) -> nat
    decreases moves.len(),
{
    if moves.len() == 0 {
        0
    } else {
        kind_count(moves.drop_last(), k) + if moves.last().spec_kind() == k {
            1nat
        } else {
            0nat
        }
    }
}

/// How many moves of each kind a solution makes.
#[derive(Clone, Copy, Debug, PartialEq, Eq, Structural)]
pub struct MoveBreakdown {
    pub reveal: usize,
    pub pile_stack: usize,
    pub deck_pile: usize,
    pub deck_stack: usize,
    /// Moves back from a foundation stack ("worry-back" moves).
    pub stack_pile: usize,
}

impl MoveBreakdown {
    pub open spec fn counts(self, moves: Seq<Move>) -> bool {
        &&& self.reveal == kind_count(moves, MoveKind::Reveal)
        &&& self.pile_stack == kind_count(moves, MoveKind::PileStack)
        &&& self.deck_pile == kind_count(moves, MoveKind::DeckPile)
        &&& self.deck_stack == kind_count(moves, MoveKind::DeckStack)
        &&& self.stack_pile == kind_count(moves, MoveKind::StackPile)
    }

    /// Number of worry-back moves: moves from a foundation stack back to a pile.
    pub fn worry_back(&self) -> (n: usize)
        ensures
            n == self.stack_pile,
    {
        self.stack_pile
    }
}

/// Every move has exactly one kind: the five counts add up to the length of
/// the solution.
pub proof fn lemma_kind_counts_sum(moves: Seq<Move>)
    ensures
        kind_count(moves, MoveKind::Reveal) + kind_count(moves, MoveKind::PileStack) + kind_count(
            moves,
            MoveKind::DeckPile,
        ) + kind_count(moves, MoveKind::DeckStack) + kind_count(moves, MoveKind::StackPile)
            == moves.len(),
    decreases moves.len(),
{
    if moves.len() > 0 {
        lemma_kind_counts_sum(moves.drop_last());
    }
}

/// Every move has the kind of its own variant, whatever card it carries.
pub proof fn lemma_kind_of_each_move(c: Card)
    ensures
        Move::Reveal(c).spec_kind() == MoveKind::Reveal,
        Move::PileStack(c).spec_kind() == MoveKind::PileStack,
        Move::DeckPile(c).spec_kind() == MoveKind::DeckPile,
        Move::DeckStack(c).spec_kind() == MoveKind::DeckStack,
        Move::StackPile(c).spec_kind() == MoveKind::StackPile,
{
}

/// Each kind is counted in its own field: the number of moves of a kind is the
/// number of moves of the matching variant in the solution.
pub proof fn lemma_kind_count_by_variant(moves: Seq<Move>)
    ensures
        kind_count(moves, MoveKind::Reveal) == moves.filter(|m: Move| m is Reveal).len(),
        kind_count(moves, MoveKind::PileStack) == moves.filter(|m: Move| m is PileStack).len(),
        kind_count(moves, MoveKind::DeckPile) == moves.filter(|m: Move| m is DeckPile).len(),
        kind_count(moves, MoveKind::DeckStack) == moves.filter(|m: Move| m is DeckStack).len(),
        kind_count(moves, MoveKind::StackPile) == moves.filter(|m: Move| m is StackPile).len(),
    decreases moves.len(),
{
    reveal(Seq::filter);
    if moves.len() > 0 {
        lemma_kind_count_by_variant(moves.drop_last());
    }
}

/// Counts the moves of a solution by kind.
pub fn solution_histogram(moves: &[Move]) -> (b: MoveBreakdown)
    ensures
        b.counts(moves@),
        b.reveal + b.pile_stack + b.deck_pile + b.deck_stack + b.stack_pile == moves@.len(),
{
    let mut b = MoveBreakdown { reveal: 0, pile_stack: 0, deck_pile: 0, deck_stack: 0, stack_pile: 0 };
    let mut i: usize = 0;
    while i < moves.len()
        invariant
            i <= moves@.len(),
            b.counts(moves@.subrange(0, i as int)),
            b.reveal + b.pile_stack + b.deck_pile + b.deck_stack + b.stack_pile == i,
        decreases moves@.len() - i,
    {
        assert(moves@.subrange(0, i as int + 1).drop_last() =~= moves@.subrange(0, i as int));
        match moves[i].kind() {
            MoveKind::Reveal => b.reveal = b.reveal + 1,
            MoveKind::PileStack => b.pile_stack = b.pile_stack + 1,
            MoveKind::DeckPile => b.deck_pile = b.deck_pile + 1,
            MoveKind::DeckStack => b.deck_stack = b.deck_stack + 1,
            MoveKind::StackPile => b.stack_pile = b.stack_pile + 1,
        }
        i = i + 1;
    }
    assert(moves@.subrange(0, i as int) =~= moves@);
    b
}

// ---------------------------------------------------------------------------
// Compact notation
// ---------------------------------------------------------------------------

/// A place cards move between: the deck, a foundation stack, or a tableau pile.
#[derive(Clone, Copy, Debug, PartialEq, Eq, Structural)]
pub enum Pos {
    Deck,
    Stack(u8),
    Pile(u8),
}

/// A move between two places, as a player sees it.
#[derive(Clone, Copy, Debug, PartialEq, Eq, Structural)]
pub struct StandardMove {
    pub from: Pos,
    pub to: Pos,
}

/// The letter of a place: `A` for the deck, `B` onwards for the foundation
/// stacks, `F` onwards for the piles.
pub open spec fn pos_letter(p: Pos) -> char {
    match p {
        Pos::Deck => 'A',
        Pos::Stack(id) => (66 + id) as char,
        Pos::Pile(id) => (70 + id) as char,
    }
}

/// The notation of one move: `@` for turning the deck, else the letters of
/// its source and target followed by a space.
pub open spec fn move_notation(m: StandardMove) -> Seq<char> {
    if m.from == Pos::Deck && m.to == Pos::Deck {
        seq!['@']
    } else {
        seq![pos_letter(m.from), pos_letter(m.to), ' ']
    }
}

/// The notation of a whole solution: the notations of its moves in order.
pub open spec fn solution_notation(moves: Seq<StandardMove>) -> Seq<char>
    decreases moves.len(),
{
    if moves.len() == 0 {
        seq![]
    } else {
        solution_notation(moves.drop_last()) + move_notation(moves.last())
    }
}

/// `std::char::from_u32`: the character with the given code point, if the code
/// point is a Unicode scalar value (not a surrogate, at most `0x10FFFF`).
#[verifier::external_body]
fn char_from_u32(i: u32) -> (c: Option<char>)
    ensures
        (i <= 0xD7FF || (0xE000 <= i && i <= 0x10FFFF)) ==> c == Some(i as char),
        !(i <= 0xD7FF || (0xE000 <= i && i <= 0x10FFFF)) ==> c is None,
{
    char::from_u32(i)
}

/// `String::push`: appends one character.
#[verifier::external_body]
fn push_char(s: &mut String, c: char)
    ensures
        final(s)@ == old(s)@.push(c),
{
    s.push(c)
}

/// The letter of a place in the compact notation.
pub fn map_pos(p: Pos) -> (c: char)
    ensures
        c == pos_letter(p),
{
    match p {
        Pos::Deck => 'A',
        Pos::Stack(id) => match char_from_u32(66 + id as u32) {
            Some(c) => c,
            None => 'A',
        },
        Pos::Pile(id) => match char_from_u32(70 + id as u32) {
            Some(c) => c,
            None => 'A',
        },
    }
}

/// The letters name places apart: the deck, the four foundation stacks and
/// the seven piles all have different letters, and none of them is the deck
/// turn mark `@` or the separating space.
pub proof fn lemma_letters_name_places_apart(a: Pos, b: Pos)
    requires
        a matches Pos::Stack(i) ==> i < 4,
        a matches Pos::Pile(i) ==> i < 7,
        b matches Pos::Stack(i) ==> i < 4,
        b matches Pos::Pile(i) ==> i < 7,
    ensures
        a != b ==> pos_letter(a) != pos_letter(b),
        pos_letter(a) != '@' && pos_letter(a) != ' ',
        'A' <= pos_letter(a) <= 'L',
{
}

/// Every move other than a deck turn is written as the letter of its source,
/// then the letter of its target, then a space; a deck turn is written `@`.
/// Writing one more move appends its notation to that of the moves before.
pub proof fn lemma_notation_source_then_target(moves: Seq<StandardMove>, m: StandardMove)
    ensures
        !(m.from == Pos::Deck && m.to == Pos::Deck) ==> {
            let text = solution_notation(moves.push(m));
            let before = solution_notation(moves).len() as int;
            &&& text.len() == before + 3
            &&& text[before] == pos_letter(m.from)
            &&& text[before + 1] == pos_letter(m.to)
            &&& text[before + 2] == ' '
        },
        m.from == Pos::Deck && m.to == Pos::Deck ==> solution_notation(moves.push(m))
            == solution_notation(moves).push('@'),
        solution_notation(moves.push(m)).subrange(0, solution_notation(moves).len() as int)
            == solution_notation(moves),
{
    assert(moves.push(m).drop_last() =~= moves);
    assert(solution_notation(moves.push(m)).subrange(0, solution_notation(moves).len() as int)
        =~= solution_notation(moves));
}

/// Writes a solution in the compact notation of Klondike solvers.
pub fn minimal_klondike_notation(moves: &[StandardMove]) -> (text: String)
    ensures
        text@ == solution_notation(moves@),
{
    let mut text = String::new();
    let mut i: usize = 0;
    while i < moves.len()
        invariant
            i <= moves@.len(),
            text@ == solution_notation(moves@.subrange(0, i as int)),
        decreases moves@.len() - i,
    {
        assert(moves@.subrange(0, i as int + 1).drop_last() =~= moves@.subrange(0, i as int));
        let m = moves[i];
        match (m.from, m.to) {
            (Pos::Deck, Pos::Deck) => push_char(&mut text, '@'),
            (from, to) => {
                push_char(&mut text, map_pos(from));
                push_char(&mut text, map_pos(to));
                push_char(&mut text, ' ');
            },
        }
        assert(text@ =~= solution_notation(moves@.subrange(0, i as int + 1)));
        i = i + 1;
    }
    assert(moves@.subrange(0, i as int) =~= moves@);
    text
}

} // verus!
