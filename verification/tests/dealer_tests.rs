use figgie_server::game::dealer::{build_deck, deal, deal_from_deck};
use figgie_server::models::card::{Hand, Suit};

fn expected_count(common: Suit, s: Suit) -> usize {
    if s == common {
        12
    } else if s == common.cross_suit() {
        10
    } else {
        9
    }
}

#[test]
fn deck_holds_forty_cards_twelve_ten_nine_nine() {
    for common in Suit::ALL {
        let deck = build_deck(common);
        assert_eq!(deck.len(), 40);
        for s in Suit::ALL {
            assert_eq!(deck.iter().filter(|c| **c == s).count(), expected_count(common, s));
        }
    }
}

#[test]
fn deal_from_deck_gives_each_seat_ten_cards_in_a_row() {
    let deck = build_deck(Suit::Spades);
    let ids = [1u128, 2, 3, 4];
    let r = deal_from_deck(&ids, Suit::Spades, &deck);
    assert_eq!(r.common_suit, Suit::Spades);
    assert_eq!(r.target_suit, Suit::Hearts);
    assert_eq!(r.hands.len(), 4);
    // Unshuffled deck: 12 spades, 10 hearts, 9 diamonds, 9 clubs.
    assert_eq!(r.hands[0], (1, Hand { spades: 10, hearts: 0, diamonds: 0, clubs: 0 }));
    assert_eq!(r.hands[1], (2, Hand { spades: 2, hearts: 8, diamonds: 0, clubs: 0 }));
    assert_eq!(r.hands[2], (3, Hand { spades: 0, hearts: 2, diamonds: 8, clubs: 0 }));
    assert_eq!(r.hands[3], (4, Hand { spades: 0, hearts: 0, diamonds: 1, clubs: 9 }));
}

#[test]
fn deal_from_deck_merges_a_repeated_player() {
    let deck = build_deck(Suit::Clubs);
    let ids = [7u128, 8, 7, 9];
    let r = deal_from_deck(&ids, Suit::Clubs, &deck);
    assert_eq!(r.hands.len(), 3);
    let seven = r.hands.iter().find(|(id, _)| *id == 7).unwrap().1;
    assert_eq!(seven.total(), 20);
}

#[test]
fn random_deal_is_fair() {
    for _ in 0..20 {
        let ids = [11u128, 12, 13, 14];
        let r = deal(&ids);
        assert_eq!(r.target_suit, r.common_suit.cross_suit());
        assert_eq!(r.hands.len(), 4);
        for (i, (id, hand)) in r.hands.iter().enumerate() {
            assert_eq!(*id, ids[i]);
            assert_eq!(hand.total(), 10);
        }
        for s in Suit::ALL {
            let total: usize = r.hands.iter().map(|(_, h)| h.count(s) as usize).sum();
            assert_eq!(total, expected_count(r.common_suit, s));
        }
    }
}

#[test]
fn random_deals_are_shuffled() {
    // An unshuffled deck always gives seat 0 ten cards of the first suit.
    let ids = [1u128, 2, 3, 4];
    let mut varied = false;
    for _ in 0..20 {
        let r = deal(&ids);
        let first = r.hands[0].1;
        if Suit::ALL.iter().all(|s| first.count(*s) != 10) {
            varied = true;
        }
    }
    assert!(varied);
}
