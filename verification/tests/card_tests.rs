use figgie_server::models::card::{Hand, Suit};
use figgie_server::models::game::GameStatus;
use figgie_server::models::order::OrderSide;

#[test]
fn cross_suit_pairs_spades_hearts_diamonds_clubs() {
    assert_eq!(Suit::Spades.cross_suit(), Suit::Hearts);
    assert_eq!(Suit::Hearts.cross_suit(), Suit::Spades);
    assert_eq!(Suit::Diamonds.cross_suit(), Suit::Clubs);
    assert_eq!(Suit::Clubs.cross_suit(), Suit::Diamonds);
}

#[test]
fn cross_suit_is_an_involution_without_fixed_points() {
    for s in Suit::ALL {
        assert_eq!(s.cross_suit().cross_suit(), s);
        assert_ne!(s.cross_suit(), s);
    }
}

#[test]
fn suit_names_round_trip() {
    for s in Suit::ALL {
        assert_eq!(Suit::from_str(s.as_str()), Some(s));
        assert_eq!(s.to_string(), s.as_str().to_string());
    }
    assert_eq!(Suit::Spades.as_str(), "Spades");
    assert_eq!(Suit::Clubs.as_str(), "Clubs");
}

#[test]
fn suit_from_str_rejects_other_spellings() {
    assert_eq!(Suit::from_str("spades"), None);
    assert_eq!(Suit::from_str("Spade"), None);
    assert_eq!(Suit::from_str(""), None);
    assert_eq!(Suit::from_str(" Hearts"), None);
}

#[test]
fn hand_add_remove_and_total() {
    let mut h = Hand::default();
    assert_eq!(h.total(), 0);
    h.add(Suit::Spades);
    h.add(Suit::Spades);
    h.add(Suit::Clubs);
    assert_eq!(h.count(Suit::Spades), 2);
    assert_eq!(h.count(Suit::Clubs), 1);
    assert_eq!(h.count(Suit::Hearts), 0);
    assert_eq!(h.total(), 3);
    assert!(h.remove(Suit::Spades));
    assert_eq!(h.count(Suit::Spades), 1);
    assert_eq!(h.total(), 2);
}

#[test]
fn hand_remove_from_empty_suit_changes_nothing() {
    let mut h = Hand { spades: 0, hearts: 2, diamonds: 0, clubs: 1 };
    assert!(!h.remove(Suit::Spades));
    assert_eq!(h, Hand { spades: 0, hearts: 2, diamonds: 0, clubs: 1 });
}

#[test]
fn hand_add_then_remove_gives_hand_back() {
    let start = Hand { spades: 3, hearts: 1, diamonds: 4, clubs: 2 };
    for s in Suit::ALL {
        let mut h = start;
        h.add(s);
        assert_eq!(h.total(), start.total() + 1);
        assert!(h.remove(s));
        assert_eq!(h, start);
    }
}

#[test]
fn game_status_names_round_trip() {
    for s in [GameStatus::Lobby, GameStatus::Active, GameStatus::Finished] {
        assert_eq!(GameStatus::from_str(s.as_str()), Some(s));
    }
    assert_eq!(GameStatus::Lobby.as_str(), "lobby");
    assert_eq!(GameStatus::Active.as_str(), "active");
    assert_eq!(GameStatus::Finished.as_str(), "finished");
    assert_eq!(GameStatus::from_str("Lobby"), None);
}

#[test]
fn order_side_names() {
    assert_eq!(OrderSide::Bid.as_str(), "bid");
    assert_eq!(OrderSide::Ask.as_str(), "ask");
}

