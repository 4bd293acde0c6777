use figgie_server::game::scoring::score_round;
use figgie_server::models::card::{Hand, Suit};

fn hand_with_hearts(n: u8) -> Hand {
    Hand { spades: 0, hearts: n, diamonds: 0, clubs: 0 }
}

#[test]
fn sole_leader_takes_the_pot() {
    let hands = vec![(1u128, hand_with_hearts(4)), (2, hand_with_hearts(3)), (3, hand_with_hearts(2)), (4, hand_with_hearts(1))];
    let chips = vec![(1u128, 50), (2, 40), (3, 60), (4, 50)];
    let r = score_round(Suit::Hearts, Suit::Spades, &hands, &chips, 200);
    assert_eq!(r.target_suit, Suit::Hearts);
    assert_eq!(r.common_suit, Suit::Spades);
    assert_eq!(r.pot, 200);
    assert_eq!(r.results.len(), 4);
    assert_eq!(r.results[0].player_id, 1);
    assert_eq!(r.results[0].chips_start, 50);
    assert_eq!(r.results[0].chips_end, 50 + 40 + 200);
    assert!(r.results[0].got_pot);
    assert_eq!(r.results[0].target_cards, 4);
    assert_eq!(r.results[1].chips_end, 40 + 30);
    assert!(!r.results[1].got_pot);
    assert_eq!(r.results[2].chips_end, 60 + 20);
    assert_eq!(r.results[3].chips_end, 50 + 10);
}

#[test]
fn tie_for_most_target_cards_leaves_pot_unawarded() {
    let hands = vec![(1u128, hand_with_hearts(4)), (2, hand_with_hearts(4)), (3, hand_with_hearts(1)), (4, hand_with_hearts(1))];
    let chips = vec![(1u128, 50), (2, 50), (3, 50), (4, 50)];
    let r = score_round(Suit::Hearts, Suit::Spades, &hands, &chips, 200);
    assert!(r.results.iter().all(|p| !p.got_pot));
    assert_eq!(r.results[0].chips_end, 90);
    assert_eq!(r.results[1].chips_end, 90);
    assert_eq!(r.results[2].chips_end, 60);
}

#[test]
fn missing_chip_entry_counts_as_fifty() {
    let hands = vec![(1u128, hand_with_hearts(2)), (2, hand_with_hearts(0))];
    let chips = vec![(2u128, 10)];
    let r = score_round(Suit::Hearts, Suit::Spades, &hands, &chips, 200);
    assert_eq!(r.results[0].chips_start, 50);
    assert_eq!(r.results[0].chips_end, 50 + 20 + 200);
    assert_eq!(r.results[1].chips_start, 10);
    assert_eq!(r.results[1].chips_end, 10);
}

#[test]
fn nobody_holding_target_all_tie_at_zero() {
    let hands = vec![(1u128, hand_with_hearts(0)), (2, hand_with_hearts(0))];
    let chips = vec![(1u128, 50), (2, 50)];
    let r = score_round(Suit::Hearts, Suit::Spades, &hands, &chips, 200);
    assert!(r.results.iter().all(|p| !p.got_pot && p.chips_end == 50));
}

#[test]
fn single_player_with_no_target_cards_still_takes_pot() {
    let hands = vec![(1u128, hand_with_hearts(0))];
    let chips = vec![(1u128, 50)];
    let r = score_round(Suit::Hearts, Suit::Spades, &hands, &chips, 200);
    assert!(r.results[0].got_pot);
    assert_eq!(r.results[0].chips_end, 250);
}

#[test]
fn empty_table_scores_nobody() {
    let r = score_round(Suit::Clubs, Suit::Diamonds, &vec![], &vec![], 200);
    assert!(r.results.is_empty());
}

#[test]
fn duplicate_copies_a_result() {
    let hands = vec![(1u128, hand_with_hearts(3))];
    let r = score_round(Suit::Hearts, Suit::Spades, &hands, &vec![], 200);
    let d = r.duplicate();
    assert_eq!(d.results, r.results);
    assert_eq!(d.pot, r.pot);
}
