//! The opening layout of a Klondike deal and the features that can be read
//! off it before any search.
//!
//! A shuffled deck of 52 cards is dealt as follows: positions `0..28` form the
//! seven tableau piles, pile `p` occupying positions `p(p+1)/2 ..= p(p+1)/2 + p`
//! with its last position face up, and positions `28..52` form the stock.

use vstd::prelude::*;

verus! {

/// Number of tableau piles.
pub const N_PILES: u8 = 7;

/// Number of cards dealt to the tableau.
pub const N_PILE_CARDS: u8 = 28;

/// Number of cards in a deck.
pub const N_CARDS: usize = 52;

/// A playing card: `rank` 0 is the ace and 12 the king; `suit`s 0 and 1 are
/// red, 2 and 3 black.
#[derive(Clone, Copy, Debug, PartialEq, Eq, Structural)]
pub struct Card {
    pub rank: u8,
    pub suit: u8,
}

impl Card {
    pub fn new(rank: u8, suit: u8) -> (c: Card)
        ensures
            c.rank == rank,
            c.suit == suit,
    {
        Card { rank, suit }
    }
}

// ---------------------------------------------------------------------------
// Counting over integer ranges
// ---------------------------------------------------------------------------

/// Number of `i` in `0..n` for which `p(i)` holds.
pub open spec fn count_below(n: int, p: spec_fn(int) -> bool) -> nat
    decreases n,
{
    if n <= 0 {
        0
    } else {
        count_below(n - 1, p) + if p(n - 1) {
            1nat
        } else {
            0nat
        }
    }
}

/// Sum of `f(i)` for `i` in `0..n`.
pub open spec fn sum_below(n: int, f: spec_fn(int) -> int) -> int
    decreases n,
{
    if n <= 0 {
        0
    } else {
        sum_below(n - 1, f) + f(n - 1)
    }
}

/// Largest `f(i)` for `i` in `0..n`, and 0 when it is larger.
pub open spec fn max_below(n: int, f: spec_fn(int) -> int) -> int
    decreases n,
{
    if n <= 0 {
        0
    } else {
        let m = max_below(n - 1, f);
        if f(n - 1) > m {
            f(n - 1)
        } else {
            m
        }
    }
}

/// Smallest `f(i)` for `i` in `0..n`, and 13 (one past the king) when it is
/// smaller.
pub open spec fn min_rank_below(n: int, f: spec_fn(int) -> int) -> int
    decreases n,
{
    if n <= 0 {
        13
    } else {
        let m = min_rank_below(n - 1, f);
        if f(n - 1) < m {
            f(n - 1)
        } else {
            m
        }
    }
}

// ---------------------------------------------------------------------------
// The tableau layout
// ---------------------------------------------------------------------------

/// First deck position of pile `p`.
pub open spec fn pile_start(p: int) -> int {
    p * (p + 1) / 2
}

/// Deck position of the face-up card of pile `p`, its last position.
pub open spec fn pile_top(p: int) -> int {
    pile_start(p) + p
}

/// The pile that deck position `pos` (in `0..28`) is dealt to.
pub open spec fn pile_of_pos(pos: int) -> int {
    if pos >= pile_start(6) {
        6
    } else if pos >= pile_start(5) {
        5
    } else if pos >= pile_start(4) {
        4
    } else if pos >= pile_start(3) {
        3
    } else if pos >= pile_start(2) {
        2
    } else if pos >= pile_start(1) {
        1
    } else {
        0
    }
}

/// Position `pos` is dealt to the stock.
pub open spec fn in_stock(pos: int) -> bool {
    pos >= 28
}

/// Position `pos` is dealt face up onto a pile.
pub open spec fn face_up(pos: int) -> bool {
    0 <= pos < 28 && pos == pile_top(pile_of_pos(pos))
}

/// Position `pos` is dealt face down onto a pile.
pub open spec fn face_down(pos: int) -> bool {
    0 <= pos < 28 && pos != pile_top(pile_of_pos(pos))
}

/// How many cards lie on top of position `pos` in its pile.
pub open spec fn buried_depth(pos: int) -> int {
    pile_top(pile_of_pos(pos)) - pos
}

/// Drawing `draw_step` cards at a time, the stock card at position `pos` is
/// turned face up on the first pass through the stock: stock indices
/// `k-1, 2k-1, 3k-1, ...` and the last card.
pub open spec fn first_pass_visible(pos: int, draw_step: int) -> bool {
    in_stock(pos) && ((pos - 28 + 1) % draw_step == 0 || pos == 51)
}

/// Where each pile starts.
pub proof fn lemma_pile_start_values()
    ensures
        pile_start(0) == 0,
        pile_start(1) == 1,
        pile_start(2) == 3,
        pile_start(3) == 6,
        pile_start(4) == 10,
        pile_start(5) == 15,
        pile_start(6) == 21,
        pile_start(7) == 28,
{
    assert(0int * 1 / 2 == 0) by (nonlinear_arith);
    assert(1int * 2 / 2 == 1) by (nonlinear_arith);
    assert(2int * 3 / 2 == 3) by (nonlinear_arith);
    assert(3int * 4 / 2 == 6) by (nonlinear_arith);
    assert(4int * 5 / 2 == 10) by (nonlinear_arith);
    assert(5int * 6 / 2 == 15) by (nonlinear_arith);
    assert(6int * 7 / 2 == 21) by (nonlinear_arith);
    assert(7int * 8 / 2 == 28) by (nonlinear_arith);
}

/// The face-up card of pile `p` lies at position `(p+2)(p+1)/2 - 1`.
pub proof fn lemma_pile_top_formula(p: int)
    requires
        0 <= p < 7,
    ensures
        pile_top(p) == (p + 2) * (p + 1) / 2 - 1,
{
    lemma_pile_start_values();
    assert(2int * 1 / 2 == 1 && 3int * 2 / 2 == 3 && 4int * 3 / 2 == 6 && 5int * 4 / 2 == 10
        && 6int * 5 / 2 == 15 && 7int * 6 / 2 == 21 && 8int * 7 / 2 == 28) by (nonlinear_arith);
    assert(p == 0 || p == 1 || p == 2 || p == 3 || p == 4 || p == 5 || p == 6);
}

/// The pile layout: every tableau position lies in exactly the pile
/// `pile_of_pos` names, between that pile's first and top positions.
pub proof fn lemma_pile_of_pos(pos: int)
    requires
        0 <= pos < 28,
    ensures
        0 <= pile_of_pos(pos) < 7,
        pile_start(pile_of_pos(pos)) <= pos <= pile_top(pile_of_pos(pos)),
{
    lemma_pile_start_values();
}

/// A position between the first and top positions of pile `p` is dealt to `p`.
pub proof fn lemma_pile_unique(p: int, pos: int)
    requires
        0 <= p < 7,
        pile_start(p) <= pos <= pile_top(p),
    ensures
        pile_of_pos(pos) == p,
{
    lemma_pile_start_values();
}

/// Consecutive piles are adjacent: pile `p + 1` starts right after the top of pile `p`.
pub proof fn lemma_pile_next(p: int)
    requires
        0 <= p < 7,
    ensures
        pile_start(p + 1) == pile_top(p) + 1,
{
    lemma_pile_start_values();
    assert(p == 0 || p == 1 || p == 2 || p == 3 || p == 4 || p == 5 || p == 6);
}

/// First deck position of pile `p`.
pub fn pile_start_pos(p: u8) -> (start: u8)
    requires
        p < 7,
    ensures
        start == pile_start(p as int),
{
    proof {
        lemma_pile_start_values();
    }
    match p {
        0 => 0,
        1 => 1,
        2 => 3,
        3 => 6,
        4 => 10,
        5 => 15,
        _ => 21,
    }
}

/// Deck position of the face-up card of pile `p`.
pub fn pile_top_pos(p: u8) -> (top: u8)
    requires
        p < 7,
    ensures
        top == pile_top(p as int),
{
    proof {
        lemma_pile_start_values();
    }
    match p {
        0 => 0,
        1 => 2,
        2 => 5,
        3 => 9,
        4 => 14,
        5 => 20,
        _ => 27,
    }
}

/// The pile that deck position `deck_pos` is dealt to, or `None` for a stock
/// position.
pub fn pile_of(deck_pos: u8) -> (pile: Option<u8>)
    ensures
        deck_pos >= 28 ==> pile is None,
        deck_pos < 28 ==> pile == Some(pile_of_pos(deck_pos as int) as u8),
        pile matches Some(p) ==> p < 7 && pile_start(p as int) <= deck_pos <= pile_top(p as int),
{
    if deck_pos >= N_PILE_CARDS {
        return None;
    }
    proof {
        lemma_pile_of_pos(deck_pos as int);
    }
    let mut p: u8 = 7;
    while p > 0
        invariant
            p <= 7,
            deck_pos < 28,
            forall|q: int| p <= q < 7 ==> deck_pos < #[trigger] pile_start(q),
        decreases p,
    {
        p = p - 1;
        if deck_pos >= pile_start_pos(p) {
            proof {
                lemma_pile_next(p as int);
                if p < 6 {
                    assert(deck_pos < pile_start(p + 1));
                } else {
                    assert(pile_top(6) == 27);
                }
                lemma_pile_unique(p as int, deck_pos as int);
            }
            return Some(p);
        }
    }
    assert(deck_pos < pile_start(0));
    None
}

// ---------------------------------------------------------------------------
// Features of a deal
// ---------------------------------------------------------------------------

/// Deck positions that hold an ace dealt face up.
pub open spec fn aces_face_up_at(cards: Seq<Card>) -> spec_fn(int) -> bool {
    |i: int| face_up(i) && cards[i].rank == 0
}

/// Deck positions that hold an ace in the stock.
pub open spec fn aces_in_stock_at(cards: Seq<Card>) -> spec_fn(int) -> bool {
    |i: int| in_stock(i) && cards[i].rank == 0
}

/// For each deck position, the depth of the ace dealt face down there (else 0).
pub open spec fn aces_buried_at(cards: Seq<Card>) -> spec_fn(int) -> int {
    |i: int|
        if face_down(i) && cards[i].rank == 0 {
            buried_depth(i)
        } else {
            0
        }
}

/// Deck positions that hold a king dealt face up.
pub open spec fn kings_face_up_at(cards: Seq<Card>) -> spec_fn(int) -> bool {
    |i: int| face_up(i) && cards[i].rank == 12
}

/// Deck positions that hold a king in the stock.
pub open spec fn kings_in_stock_at(cards: Seq<Card>) -> spec_fn(int) -> bool {
    |i: int| in_stock(i) && cards[i].rank == 12
}

/// For each deck position, the depth of the king dealt face down there (else 0).
pub open spec fn kings_buried_at(cards: Seq<Card>) -> spec_fn(int) -> int {
    |i: int|
        if face_down(i) && cards[i].rank == 12 {
            buried_depth(i)
        } else {
            0
        }
}

/// Stock positions seen on the first pass that hold an ace or a two.
pub open spec fn aces_2s_accessible_at(cards: Seq<Card>, draw_step: int) -> spec_fn(int) -> bool {
    |i: int| first_pass_visible(i, draw_step) && cards[i].rank <= 1
}

/// Stock positions seen on the first pass that hold an ace, two, three or four.
pub open spec fn low_rank_accessible_at(cards: Seq<Card>, draw_step: int) -> spec_fn(int) -> bool {
    |i: int| first_pass_visible(i, draw_step) && cards[i].rank < 4
}

/// Piles whose face-up card is red.
pub open spec fn red_top_at(cards: Seq<Card>) -> spec_fn(int) -> bool {
    |p: int| cards[pile_top(p)].suit < 2
}

/// Piles whose face-up card is black.
pub open spec fn black_top_at(cards: Seq<Card>) -> spec_fn(int) -> bool {
    |p: int| cards[pile_top(p)].suit >= 2
}

/// The rank of the face-up card of each pile.
pub open spec fn top_rank_at(cards: Seq<Card>) -> spec_fn(int) -> int {
    |p: int| cards[pile_top(p)].rank as int
}

/// Face-down positions holding a lower card of the same suit as the face-up
/// card of their pile.
pub open spec fn lockup_at(cards: Seq<Card>) -> spec_fn(int) -> bool {
    |i: int|
        face_down(i) && cards[i].suit == cards[pile_top(pile_of_pos(i))].suit && cards[i].rank
            < cards[pile_top(pile_of_pos(i))].rank
}

/// The first position at or after `from` of a card of the given rank and suit,
/// or the length of the deck when there is none.
pub open spec fn first_position_from(cards: Seq<Card>, from: int, rank: int, suit: int) -> int
    decreases cards.len() - from,
{
    if from >= cards.len() || from < 0 {
        cards.len() as int
    } else if cards[from].rank == rank && cards[from].suit == suit {
        from
    } else {
        first_position_from(cards, from + 1, rank, suit)
    }
}

/// The first position of a card of the given rank and suit.
pub open spec fn first_position(cards: Seq<Card>, rank: int, suit: int) -> int {
    first_position_from(cards, 0, rank, suit)
}

/// The deck holds a card of the given rank and suit.
pub open spec fn deck_has(cards: Seq<Card>, rank: int, suit: int) -> bool {
    exists|i: int| 0 <= i < cards.len() && cards[i].rank == rank && cards[i].suit == suit
}

/// Suits whose ace is dealt to a pile below that suit's two.
pub open spec fn blocked_suit_at(cards: Seq<Card>) -> spec_fn(int) -> bool {
    |s: int|
        {
            let a = first_position(cards, 0, s);
            let t = first_position(cards, 1, s);
            a < 28 && t < 28 && pile_of_pos(a) == pile_of_pos(t) && t > a
        }
}

/// The deals this analysis accepts: 52 cards, among them an ace and a two of
/// every suit.
pub open spec fn analysable_deck(cards: Seq<Card>) -> bool {
    &&& cards.len() == 52
    &&& forall|s: int| 0 <= s < 4 ==> #[trigger] deck_has(cards, 0, s) && deck_has(cards, 1, s)
}

/// Features of a deal that can be computed without any search.
#[derive(Clone, Copy, Debug, PartialEq, Eq, Structural)]
pub struct DealFeatures {
    pub aces_face_up: u32,
    pub aces_in_stock: u32,
    /// Sum over aces dealt face down of the number of cards on top of them.
    pub aces_buried_depth_sum: u32,
    pub kings_face_up: u32,
    pub kings_in_stock: u32,
    /// Sum over kings dealt face down of the number of cards on top of them.
    pub kings_buried_depth_sum: u32,
    /// Aces and twos in the stock turned up on the first pass.
    pub aces_2s_in_stock_accessible: u32,
    /// Ranks ace to four in the stock turned up on the first pass.
    pub low_rank_accessible: u32,
    /// Difference between the numbers of red and black face-up pile cards.
    pub top_color_imbalance: u32,
    pub top_rank_sum: u32,
    pub top_rank_max: u8,
    pub top_rank_min: u8,
    /// Face-down cards below a higher face-up card of their suit in their pile.
    pub suit_lockup: u32,
    /// Suits whose ace lies below the two of its suit in the same pile.
    pub blocked_aces: u32,
}

impl DealFeatures {
    /// The features of the deal `cards` when the stock is drawn `draw_step`
    /// cards at a time.
    pub open spec fn describes(self, cards: Seq<Card>, draw_step: int) -> bool {
        let red = count_below(7, red_top_at(cards)) as int;
        let black = count_below(7, black_top_at(cards)) as int;
        &&& self.aces_face_up == count_below(52, aces_face_up_at(cards))
        &&& self.aces_in_stock == count_below(52, aces_in_stock_at(cards))
        &&& self.aces_buried_depth_sum == sum_below(52, aces_buried_at(cards))
        &&& self.kings_face_up == count_below(52, kings_face_up_at(cards))
        &&& self.kings_in_stock == count_below(52, kings_in_stock_at(cards))
        &&& self.kings_buried_depth_sum == sum_below(52, kings_buried_at(cards))
        &&& self.aces_2s_in_stock_accessible == count_below(
            52,
            aces_2s_accessible_at(cards, draw_step),
        )
        &&& self.low_rank_accessible == count_below(52, low_rank_accessible_at(cards, draw_step))
        &&& self.top_color_imbalance == if red >= black {
            red - black
        } else {
            black - red
        }
        &&& self.top_rank_sum == sum_below(7, top_rank_at(cards))
        &&& self.top_rank_max == max_below(7, top_rank_at(cards))
        &&& self.top_rank_min == min_rank_below(7, top_rank_at(cards))
        &&& self.suit_lockup == count_below(28, lockup_at(cards))
        &&& self.blocked_aces == count_below(4, blocked_suit_at(cards))
    }
}

/// The per-position counts of a single walk over the deck.
struct DeckWalk {
    aces_face_up: u32,
    aces_in_stock: u32,
    aces_buried_depth_sum: u32,
    kings_face_up: u32,
    kings_in_stock: u32,
    kings_buried_depth_sum: u32,
    aces_2s_in_stock_accessible: u32,
    low_rank_accessible: u32,
}

fn walk_deck(cards: &[Card], draw_step: u8) -> (w: DeckWalk)
    requires
        cards@.len() == 52,
        draw_step >= 1,
    ensures
        w.aces_face_up == count_below(52, aces_face_up_at(cards@)),
        w.aces_in_stock == count_below(52, aces_in_stock_at(cards@)),
        w.aces_buried_depth_sum == sum_below(52, aces_buried_at(cards@)),
        w.kings_face_up == count_below(52, kings_face_up_at(cards@)),
        w.kings_in_stock == count_below(52, kings_in_stock_at(cards@)),
        w.kings_buried_depth_sum == sum_below(52, kings_buried_at(cards@)),
        w.aces_2s_in_stock_accessible == count_below(52, aces_2s_accessible_at(cards@, draw_step as int)),
        w.low_rank_accessible == count_below(52, low_rank_accessible_at(cards@, draw_step as int)),
{
    let ghost k = draw_step as int;
    let mut w = DeckWalk {
        aces_face_up: 0,
        aces_in_stock: 0,
        aces_buried_depth_sum: 0,
        kings_face_up: 0,
        kings_in_stock: 0,
        kings_buried_depth_sum: 0,
        aces_2s_in_stock_accessible: 0,
        low_rank_accessible: 0,
    };
    let mut i: usize = 0;
    while i < N_CARDS
        invariant
            i <= 52,
            cards@.len() == 52,
            draw_step >= 1,
            k == draw_step as int,
            w.aces_face_up == count_below(i as int, aces_face_up_at(cards@)),
            w.aces_in_stock == count_below(i as int, aces_in_stock_at(cards@)),
            w.aces_buried_depth_sum == sum_below(i as int, aces_buried_at(cards@)),
            w.kings_face_up == count_below(i as int, kings_face_up_at(cards@)),
            w.kings_in_stock == count_below(i as int, kings_in_stock_at(cards@)),
            w.kings_buried_depth_sum == sum_below(i as int, kings_buried_at(cards@)),
            w.aces_2s_in_stock_accessible == count_below(i as int, aces_2s_accessible_at(cards@, k)),
            w.low_rank_accessible == count_below(i as int, low_rank_accessible_at(cards@, k)),
            w.aces_face_up <= i,
            w.aces_in_stock <= i,
            w.aces_buried_depth_sum <= 6 * i,
            w.kings_face_up <= i,
            w.kings_in_stock <= i,
            w.kings_buried_depth_sum <= 6 * i,
            w.aces_2s_in_stock_accessible <= i,
            w.low_rank_accessible <= i,
        decreases 52 - i,
    {
        let pos = i as u8;
        let c = cards[i];
        let rank = c.rank;
        if pos >= N_PILE_CARDS {
            if rank == 0 {
                w.aces_in_stock = w.aces_in_stock + 1;
            }
            if rank == 12 {
                w.kings_in_stock = w.kings_in_stock + 1;
            }
            let stock_idx = pos - N_PILE_CARDS;
            let is_cursor = (stock_idx + 1) % draw_step == 0 || pos == 51;
            if is_cursor {
                if rank == 0 || rank == 1 {
                    w.aces_2s_in_stock_accessible = w.aces_2s_in_stock_accessible + 1;
                }
                if rank < 4 {
                    w.low_rank_accessible = w.low_rank_accessible + 1;
                }
            }
            assert(!face_up(i as int) && !face_down(i as int));
        } else {
            let p = match pile_of(pos) {
                Some(p) => p,
                None => 0,
            };
            proof {
                lemma_pile_of_pos(i as int);
            }
            let top = pile_top_pos(p);
            if pos == top {
                if rank == 0 {
                    w.aces_face_up = w.aces_face_up + 1;
                }
                if rank == 12 {
                    w.kings_face_up = w.kings_face_up + 1;
                }
            } else if rank == 0 {
                w.aces_buried_depth_sum = w.aces_buried_depth_sum + (top - pos) as u32;
            } else if rank == 12 {
                w.kings_buried_depth_sum = w.kings_buried_depth_sum + (top - pos) as u32;
            }
            assert(!first_pass_visible(i as int, k));
        }
        i = i + 1;
    }
    w
}

/// Colour counts, rank sum and rank extremes of the seven face-up pile cards.
fn pile_top_summary(cards: &[Card]) -> (r: (u32, u32, u32, u8, u8))
    requires
        cards@.len() == 52,
    ensures
        r.0 == count_below(7, red_top_at(cards@)),
        r.1 == count_below(7, black_top_at(cards@)),
        r.2 == sum_below(7, top_rank_at(cards@)),
        r.3 == max_below(7, top_rank_at(cards@)),
        r.4 == min_rank_below(7, top_rank_at(cards@)),
{
    let mut red_tops: u32 = 0;
    let mut black_tops: u32 = 0;
    let mut top_rank_sum: u32 = 0;
    let mut top_rank_max: u8 = 0;
    let mut top_rank_min: u8 = 13;
    let mut p: u8 = 0;
    while p < N_PILES
        invariant
            p <= 7,
            cards@.len() == 52,
            red_tops == count_below(p as int, red_top_at(cards@)),
            black_tops == count_below(p as int, black_top_at(cards@)),
            top_rank_sum == sum_below(p as int, top_rank_at(cards@)),
            top_rank_max == max_below(p as int, top_rank_at(cards@)),
            top_rank_min == min_rank_below(p as int, top_rank_at(cards@)),
            red_tops <= p,
            black_tops <= p,
            top_rank_sum <= 255 * p,
        decreases 7 - p,
    {
        let top_pos = pile_top_pos(p);
        proof {
            lemma_pile_start_values();
        }
        let c = cards[top_pos as usize];
        if c.suit < 2 {
            red_tops = red_tops + 1;
        } else {
            black_tops = black_tops + 1;
        }
        let r = c.rank;
        top_rank_sum = top_rank_sum + r as u32;
        if r > top_rank_max {
            top_rank_max = r;
        }
        if r < top_rank_min {
            top_rank_min = r;
        }
        p = p + 1;
    }
    (red_tops, black_tops, top_rank_sum, top_rank_max, top_rank_min)
}

/// Number of face-down pile cards lower than, and of the same suit as, the
/// face-up card of their pile.
fn suit_lockup_count(cards: &[Card]) -> (n: u32)
    requires
        cards@.len() == 52,
    ensures
        n == count_below(28, lockup_at(cards@)),
{
    let mut suit_lockup: u32 = 0;
    let mut p: u8 = 0;
    proof {
        lemma_pile_start_values();
    }
    while p < N_PILES
        invariant
            p <= 7,
            cards@.len() == 52,
            suit_lockup == count_below(pile_start(p as int), lockup_at(cards@)),
            suit_lockup <= pile_start(p as int),
            pile_start(0) == 0 && pile_start(7) == 28,
        decreases 7 - p,
    {
        let start = pile_start_pos(p);
        let top = pile_top_pos(p);
        proof {
            lemma_pile_start_values();
            lemma_pile_next(p as int);
        }
        let top_c = cards[top as usize];
        let mut pos: u8 = start;
        while pos < top
            invariant
                p < 7,
                start == pile_start(p as int),
                top == pile_top(p as int),
                start <= pos <= top,
                top < 28,
                cards@.len() == 52,
                top_c == cards@[top as int],
                suit_lockup == count_below(pos as int, lockup_at(cards@)),
                suit_lockup <= pos,
            decreases top - pos,
        {
            let c = cards[pos as usize];
            proof {
                lemma_pile_unique(p as int, pos as int);
            }
            if c.suit == top_c.suit && c.rank < top_c.rank {
                suit_lockup = suit_lockup + 1;
            }
            pos = pos + 1;
        }
        proof {
            lemma_pile_unique(p as int, top as int);
            lemma_pile_next(p as int);
        }
        p = p + 1;
    }
    suit_lockup
}

/// The first position at or after `from` of a card of the given rank and suit.
proof fn lemma_first_position_found(cards: Seq<Card>, from: int, rank: int, suit: int, at: int)
    requires
        0 <= from <= at < cards.len(),
        cards[at].rank == rank && cards[at].suit == suit,
    ensures
        from <= first_position_from(cards, from, rank, suit) <= at,
    decreases at - from,
{
    if cards[from].rank != rank || cards[from].suit != suit {
        lemma_first_position_found(cards, from + 1, rank, suit, at);
    }
}

/// Position of the first card of the given rank and suit.
fn position_of(cards: &[Card], rank: u8, suit: u8) -> (pos: usize)
    requires
        cards@.len() == 52,
        deck_has(cards@, rank as int, suit as int),
    ensures
        pos == first_position(cards@, rank as int, suit as int),
        pos < 52,
{
    let mut i: usize = 0;
    proof {
        let at = choose|at: int|
            0 <= at < cards@.len() && cards@[at].rank == rank && cards@[at].suit == suit;
        lemma_first_position_found(cards@, 0, rank as int, suit as int, at);
    }
    while i < N_CARDS
        invariant
            i <= 52,
            cards@.len() == 52,
            first_position(cards@, rank as int, suit as int) == first_position_from(
                cards@,
                i as int,
                rank as int,
                suit as int,
            ),
            first_position(cards@, rank as int, suit as int) < 52,
        decreases 52 - i,
    {
        let c = cards[i];
        if c.rank == rank && c.suit == suit {
            return i;
        }
        i = i + 1;
    }
    i
}

/// Number of suits whose ace is dealt to the same pile as, and below, the
/// two of its suit.
fn blocked_aces_count(cards: &[Card]) -> (n: u32)
    requires
        analysable_deck(cards@),
    ensures
        n == count_below(4, blocked_suit_at(cards@)),
{
    let mut blocked_aces: u32 = 0;
    let mut suit: u8 = 0;
    while suit < 4
        invariant
            suit <= 4,
            analysable_deck(cards@),
            blocked_aces == count_below(suit as int, blocked_suit_at(cards@)),
            blocked_aces <= suit,
        decreases 4 - suit,
    {
        assert(deck_has(cards@, 0, suit as int));
        let ace_pos = position_of(cards, 0, suit) as u8;
        let two_pos = position_of(cards, 1, suit) as u8;
        if ace_pos < N_PILE_CARDS && two_pos < N_PILE_CARDS {
            match (pile_of(ace_pos), pile_of(two_pos)) {
                (Some(ap), Some(tp)) => {
                    if ap == tp && two_pos > ace_pos {
                        blocked_aces = blocked_aces + 1;
                    }
                },
                _ => {},
            }
        }
        suit = suit + 1;
    }
    blocked_aces
}

/// Computes the features of the deal `cards` (a shuffled deck, position 0
/// first) when the stock is drawn `draw_step` cards at a time.
pub fn deal_features(cards: &[Card], draw_step: u8) -> (f: DealFeatures)
    requires
        analysable_deck(cards@),
        draw_step >= 1,
    ensures
        f.describes(cards@, draw_step as int),
{
    let w = walk_deck(cards, draw_step);
    let (red_tops, black_tops, top_rank_sum, top_rank_max, top_rank_min) = pile_top_summary(cards);
    let top_color_imbalance = if red_tops >= black_tops {
        red_tops - black_tops
    } else {
        black_tops - red_tops
    };
    let suit_lockup = suit_lockup_count(cards);
    let blocked_aces = blocked_aces_count(cards);
    DealFeatures {
        aces_face_up: w.aces_face_up,
        aces_in_stock: w.aces_in_stock,
        aces_buried_depth_sum: w.aces_buried_depth_sum,
        kings_face_up: w.kings_face_up,
        kings_in_stock: w.kings_in_stock,
        kings_buried_depth_sum: w.kings_buried_depth_sum,
        aces_2s_in_stock_accessible: w.aces_2s_in_stock_accessible,
        low_rank_accessible: w.low_rank_accessible,
        top_color_imbalance,
        top_rank_sum,
        top_rank_max,
        top_rank_min,
        suit_lockup,
        blocked_aces,
    }
}

// ---------------------------------------------------------------------------
// Laws of the layout and of the features
// ---------------------------------------------------------------------------

/// Two predicates that split `0..n` between them count `n` positions together.
pub proof fn lemma_count_complement(n: int, p: spec_fn(int) -> bool, q: spec_fn(int) -> bool)
    requires
        0 <= n,
        forall|i: int| 0 <= i < n ==> (#[trigger] p(i) <==> !q(i)),
    ensures
        count_below(n, p) + count_below(n, q) == n,
    decreases n,
{
    if n > 0 {
        lemma_count_complement(n - 1, p, q);
    }
}

/// Within pile `p`, no position before the top is face up.
proof fn lemma_face_up_within_pile(p: int, n: int)
    requires
        0 <= p < 7,
        pile_start(p) <= n <= pile_top(p),
    ensures
        count_below(n, |i: int| face_up(i)) == count_below(pile_start(p), |i: int| face_up(i)),
    decreases n - pile_start(p),
{
    if n > pile_start(p) {
        lemma_face_up_within_pile(p, n - 1);
        lemma_pile_unique(p, n - 1);
    }
}

/// The first `p` piles hold exactly `p` face-up cards.
proof fn lemma_face_up_in_first_piles(p: int)
    requires
        0 <= p <= 7,
    ensures
        count_below(pile_start(p), |i: int| face_up(i)) == p,
    decreases p,
{
    lemma_pile_start_values();
    if p > 0 {
        lemma_face_up_in_first_piles(p - 1);
        lemma_pile_next(p - 1);
        lemma_face_up_within_pile(p - 1, pile_top(p - 1));
        lemma_pile_unique(p - 1, pile_top(p - 1));
    }
}

/// A fresh deal shows one face-up card per pile, 7 in all, and hides the
/// other 21 tableau cards face down.
pub proof fn lemma_fresh_deal_face_counts()
    ensures
        count_below(28, |i: int| face_up(i)) == 7,
        count_below(28, |i: int| face_down(i)) == 21,
        forall|p: int| 0 <= p < 7 ==> #[trigger] face_up(pile_top(p)),
{
    lemma_pile_start_values();
    lemma_face_up_in_first_piles(7);
    lemma_count_complement(28, |i: int| face_up(i), |i: int| face_down(i));
    assert forall|p: int| 0 <= p < 7 implies #[trigger] face_up(pile_top(p)) by {
        lemma_pile_unique(p, pile_top(p));
        lemma_pile_next(p);
    }
}

/// Every face-up pile card is either red or black: the two colour counts of
/// any deal add up to the seven piles.
pub proof fn lemma_top_colors_partition(cards: Seq<Card>)
    ensures
        count_below(7, red_top_at(cards)) + count_below(7, black_top_at(cards)) == 7,
{
    lemma_count_complement(7, red_top_at(cards), black_top_at(cards));
}

/// The colour imbalance of the face-up pile cards of any deal is odd and at
/// most 7.
pub proof fn lemma_color_imbalance_odd(f: DealFeatures, cards: Seq<Card>, draw_step: int)
    requires
        f.describes(cards, draw_step),
    ensures
        f.top_color_imbalance % 2 == 1,
        f.top_color_imbalance <= 7,
{
    lemma_top_colors_partition(cards);
}

/// Drawing one card at a time turns up every stock card on the first pass,
/// so the accessible low ranks are all the low ranks in the stock.
pub proof fn lemma_draw_one_sees_whole_stock(cards: Seq<Card>)
    ensures
        count_below(52, low_rank_accessible_at(cards, 1)) == count_below(
            52,
            |i: int| in_stock(i) && cards[i].rank < 4,
        ),
        count_below(52, aces_2s_accessible_at(cards, 1)) == count_below(
            52,
            |i: int| in_stock(i) && cards[i].rank <= 1,
        ),
{
    assert(low_rank_accessible_at(cards, 1) =~= |i: int| in_stock(i) && cards[i].rank < 4);
    assert(aces_2s_accessible_at(cards, 1) =~= |i: int| in_stock(i) && cards[i].rank <= 1);
}

/// A predicate false on `from..to` counts no more up to `to` than up to `from`.
proof fn lemma_count_unchanged(p: spec_fn(int) -> bool, from: int, to: int)
    requires
        0 <= from <= to,
        forall|i: int| from <= i < to ==> !#[trigger] p(i),
    ensures
        count_below(to, p) == count_below(from, p),
    decreases to - from,
{
    if to > from {
        lemma_count_unchanged(p, from, to - 1);
    }
}

/// Over the first `p` piles, the face-up positions whose card satisfies `r`
/// are as many as the piles whose face-up card satisfies `r`.
proof fn lemma_face_up_by_pile(cards: Seq<Card>, r: spec_fn(Card) -> bool, p: int)
    requires
        0 <= p <= 7,
    ensures
        count_below(pile_start(p), |i: int| face_up(i) && r(cards[i])) == count_below(
            p,
            |q: int| r(cards[pile_top(q)]),
        ),
    decreases p,
{
    lemma_pile_start_values();
    if p > 0 {
        let q = p - 1;
        lemma_face_up_by_pile(cards, r, q);
        lemma_pile_next(q);
        let pred = |j: int| face_up(j) && r(cards[j]);
        assert forall|i: int| pile_start(q) <= i < pile_top(q) implies !#[trigger] pred(i) by {
            lemma_pile_unique(q, i);
        }
        lemma_count_unchanged(pred, pile_start(q), pile_top(q));
        lemma_pile_unique(q, pile_top(q));
    }
}

/// Face-up aces and kings are counted pile by pile: each count is the number
/// of piles whose face-up card is an ace, or a king. Every pile's face-up card
/// counts, whatever the pile.
pub proof fn lemma_face_up_counts_by_pile(f: DealFeatures, cards: Seq<Card>, draw_step: int)
    requires
        f.describes(cards, draw_step),
    ensures
        f.aces_face_up == count_below(7, |p: int| cards[pile_top(p)].rank == 0),
        f.kings_face_up == count_below(7, |p: int| cards[pile_top(p)].rank == 12),
{
    lemma_pile_start_values();
    let ace = |c: Card| c.rank == 0;
    let king = |c: Card| c.rank == 12;
    lemma_face_up_by_pile(cards, ace, 7);
    lemma_face_up_by_pile(cards, king, 7);
    assert(aces_face_up_at(cards) =~= |i: int| face_up(i) && ace(cards[i]));
    assert(kings_face_up_at(cards) =~= |i: int| face_up(i) && king(cards[i]));
    lemma_count_unchanged(aces_face_up_at(cards), 28, 52);
    lemma_count_unchanged(kings_face_up_at(cards), 28, 52);
    assert((|q: int| ace(cards[pile_top(q)])) =~= (|p: int| cards[pile_top(p)].rank == 0));
    assert((|q: int| king(cards[pile_top(q)])) =~= (|p: int| cards[pile_top(p)].rank == 12));
}

/// Three predicates that split the positions satisfying a fourth count as
/// many positions together as the fourth.
proof fn lemma_count_split3(
    n: int,
    a: spec_fn(int) -> bool,
    b: spec_fn(int) -> bool,
    c: spec_fn(int) -> bool,
    d: spec_fn(int) -> bool,
)
    requires
        0 <= n,
        forall|i: int|
            0 <= i < n ==> (#[trigger] d(i) <==> (a(i) || b(i) || c(i))) && !(a(i) && b(i)) && !(
            a(i) && c(i)) && !(b(i) && c(i)),
    ensures
        count_below(n, a) + count_below(n, b) + count_below(n, c) == count_below(n, d),
    decreases n,
{
    if n > 0 {
        lemma_count_split3(n - 1, a, b, c, d);
        assert(d(n - 1) <==> (a(n - 1) || b(n - 1) || c(n - 1)));
    }
}

/// Every card of a rank is dealt face up, face down or to the stock: the aces
/// (and the kings) counted face up, in the stock and face down add up to the
/// aces (the kings) in the deck.
pub proof fn lemma_aces_and_kings_accounted(f: DealFeatures, cards: Seq<Card>, draw_step: int)
    requires
        f.describes(cards, draw_step),
    ensures
        f.aces_face_up + f.aces_in_stock + count_below(
            52,
            |i: int| face_down(i) && cards[i].rank == 0,
        ) == count_below(52, |i: int| cards[i].rank == 0),
        f.kings_face_up + f.kings_in_stock + count_below(
            52,
            |i: int| face_down(i) && cards[i].rank == 12,
        ) == count_below(52, |i: int| cards[i].rank == 12),
{
    lemma_count_split3(
        52,
        aces_face_up_at(cards),
        aces_in_stock_at(cards),
        |i: int| face_down(i) && cards[i].rank == 0,
        |i: int| cards[i].rank == 0,
    );
    lemma_count_split3(
        52,
        kings_face_up_at(cards),
        kings_in_stock_at(cards),
        |i: int| face_down(i) && cards[i].rank == 12,
        |i: int| cards[i].rank == 12,
    );
}

} // verus!
