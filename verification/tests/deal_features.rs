use lonecli::deal::{deal_features, pile_of, pile_start_pos, pile_top_pos, Card, DealFeatures};

fn ordered_deck() -> Vec<Card> {
    (0..52u8).map(|i| Card::new(i % 13, i / 13)).collect()
}

fn reversed_deck() -> Vec<Card> {
    let mut d = ordered_deck();
    d.reverse();
    d
}

fn shuffled_deck() -> Vec<Card> {
    let pairs: [(u8, u8); 52] = [
        (4, 1), (0, 3), (5, 2), (10, 0), (1, 3), (11, 0), (0, 0), (6, 1),
        (1, 1), (11, 3), (3, 1), (8, 0), (12, 2), (5, 3), (7, 2), (6, 3),
        (11, 1), (3, 2), (9, 1), (12, 0), (8, 1), (4, 3), (4, 2), (2, 2),
        (10, 3), (12, 3), (7, 0), (9, 3), (5, 1), (9, 2), (1, 0), (10, 2),
        (3, 3), (2, 1), (7, 3), (0, 2), (1, 2), (5, 0), (2, 0), (0, 1),
        (6, 2), (8, 3), (11, 2), (10, 1), (6, 0), (8, 2), (4, 0), (3, 0),
        (2, 3), (12, 1), (9, 0), (7, 1),
    ];
    pairs.iter().map(|&(r, s)| Card::new(r, s)).collect()
}

fn features(
    counts: [u32; 10],
    top_rank_max: u8,
    top_rank_min: u8,
    suit_lockup: u32,
    blocked_aces: u32,
) -> DealFeatures {
    DealFeatures {
        aces_face_up: counts[0],
        aces_in_stock: counts[1],
        aces_buried_depth_sum: counts[2],
        kings_face_up: counts[3],
        kings_in_stock: counts[4],
        kings_buried_depth_sum: counts[5],
        aces_2s_in_stock_accessible: counts[6],
        low_rank_accessible: counts[7],
        top_color_imbalance: counts[8],
        top_rank_sum: counts[9],
        top_rank_max,
        top_rank_min,
        suit_lockup,
        blocked_aces,
    }
}

#[test]
fn features_of_ordered_deck_draw_one() {
    let f = deal_features(&ordered_deck(), 1);
    assert_eq!(f, features([1, 1, 2, 0, 2, 4, 2, 6, 5, 25], 9, 0, 13, 2));
}

#[test]
fn features_of_ordered_deck_draw_three() {
    let f = deal_features(&ordered_deck(), 3);
    assert_eq!(f, features([1, 1, 2, 0, 2, 4, 1, 2, 5, 25], 9, 0, 13, 2));
}

#[test]
fn features_of_shuffled_deck_draw_three() {
    let f = deal_features(&shuffled_deck(), 3);
    assert_eq!(f, features([0, 2, 4, 0, 1, 5, 3, 5, 1, 55], 11, 4, 2, 0));
}

#[test]
fn features_of_shuffled_deck_draw_one() {
    let f = deal_features(&shuffled_deck(), 1);
    assert_eq!(f, features([0, 2, 4, 0, 1, 5, 4, 9, 1, 55], 11, 4, 2, 0));
}

#[test]
fn features_of_reversed_deck() {
    let f = deal_features(&reversed_deck(), 3);
    assert_eq!(f, features([0, 2, 4, 1, 1, 2, 1, 3, 5, 59], 12, 3, 0, 0));
}

#[test]
fn top_colour_imbalance_is_odd() {
    for deck in [ordered_deck(), reversed_deck(), shuffled_deck()] {
        for draw in 1..=5u8 {
            let f = deal_features(&deck, draw);
            assert_eq!(f.top_color_imbalance % 2, 1);
            assert!(f.top_color_imbalance <= 7);
        }
    }
}

#[test]
fn drawing_one_sees_every_low_stock_card() {
    for deck in [ordered_deck(), reversed_deck(), shuffled_deck()] {
        let f = deal_features(&deck, 1);
        let low_in_stock = deck[28..].iter().filter(|c| c.rank < 4).count() as u32;
        let aces_twos_in_stock = deck[28..].iter().filter(|c| c.rank <= 1).count() as u32;
        assert_eq!(f.low_rank_accessible, low_in_stock);
        assert_eq!(f.aces_2s_in_stock_accessible, aces_twos_in_stock);
    }
}

#[test]
fn a_large_draw_step_sees_only_the_last_stock_card() {
    // With a step of 200 only position 51, the king of the last suit here, is seen.
    let f = deal_features(&ordered_deck(), 200);
    assert_eq!(f.low_rank_accessible, 0);
    assert_eq!(f.aces_2s_in_stock_accessible, 0);
    let mut deck = ordered_deck();
    deck.swap(51, 39); // an ace of the last suit moves to position 51
    let f = deal_features(&deck, 200);
    assert_eq!(f.low_rank_accessible, 1);
    assert_eq!(f.aces_2s_in_stock_accessible, 1);
}

#[test]
fn pile_of_maps_every_tableau_position() {
    let expected: [u8; 28] = [
        0, 1, 1, 2, 2, 2, 3, 3, 3, 3, 4, 4, 4, 4, 4, 5, 5, 5, 5, 5, 5, 6, 6, 6, 6, 6, 6, 6,
    ];
    for pos in 0..28u8 {
        assert_eq!(pile_of(pos), Some(expected[pos as usize]));
    }
    for pos in 28..=255u8 {
        assert_eq!(pile_of(pos), None);
    }
}

#[test]
fn fresh_deal_hides_twenty_one_cards() {
    let mut face_up = 0;
    let mut face_down = 0;
    for pos in 0..28u8 {
        let p = pile_of(pos).unwrap();
        if pos == pile_top_pos(p) {
            face_up += 1;
        } else {
            face_down += 1;
        }
    }
    assert_eq!(face_up, 7);
    assert_eq!(face_down, 21);
}

#[test]
fn pile_layout_positions() {
    let starts: Vec<u8> = (0..7).map(pile_start_pos).collect();
    let tops: Vec<u8> = (0..7).map(pile_top_pos).collect();
    assert_eq!(starts, vec![0, 1, 3, 6, 10, 15, 21]);
    assert_eq!(tops, vec![0, 2, 5, 9, 14, 20, 27]);
}

#[test]
fn blocked_ace_below_its_two() {
    // Put the ace and the two of suit 0 in pile 6, the ace deeper.
    let mut deck = ordered_deck();
    deck.swap(0, 22); // ace of suit 0 to position 22
    deck.swap(1, 25); // two of suit 0 to position 25
    let f = deal_features(&deck, 3);
    // Suits 1 (pile 4) and 2 (pile 6) were blocked already; suit 0 joins them.
    assert_eq!(f.blocked_aces, 3);
}
