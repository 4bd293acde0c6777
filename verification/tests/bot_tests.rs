use figgie_server::bots::stub::{bot_move, held_suits, RandomBot};
use figgie_server::game::engine::GameEngine;
use figgie_server::models::card::{Hand, Suit};
use figgie_server::ws::messages::ClientMsg;

#[test]
fn held_suits_lists_suits_with_cards_in_order() {
    assert_eq!(held_suits(&Hand { spades: 0, hearts: 2, diamonds: 0, clubs: 1 }), vec![Suit::Hearts, Suit::Clubs]);
    assert!(held_suits(&Hand::default()).is_empty());
    assert_eq!(held_suits(&Hand { spades: 1, hearts: 1, diamonds: 1, clubs: 1 }), Suit::ALL.to_vec());
}

#[test]
fn random_bot_moves_stay_in_range() {
    let bot = RandomBot::new();
    assert_eq!(bot.player_id(), bot.id);
    let view = GameEngine::new(1).view();
    let hand = Hand { spades: 0, hearts: 3, diamonds: 0, clubs: 0 };
    let mut seen_bid = false;
    for _ in 0..300 {
        match bot.take_action(&view, &hand) {
            ClientMsg::Pass => {}
            ClientMsg::PlaceBid { price, .. } => {
                seen_bid = true;
                assert!((1..=15).contains(&price));
            }
            ClientMsg::PlaceAsk { suit, price } => {
                assert_eq!(suit, Suit::Hearts);
                assert!((1..=15).contains(&price));
            }
            other => panic!("unexpected {:?}", other),
        }
    }
    assert!(seen_bid);
}

#[test]
fn random_bot_with_empty_hand_never_asks() {
    let bot = RandomBot { id: 5 };
    let view = GameEngine::new(1).view();
    for _ in 0..100 {
        assert!(!matches!(bot.take_action(&view, &Hand::default()), ClientMsg::PlaceAsk { .. }));
    }
}

#[test]
fn random_bots_get_distinct_version_four_ids() {
    let a = RandomBot::new();
    let b = RandomBot::new();
    assert_ne!(a.id, b.id);
    assert_eq!((a.id >> 76) & 0xf, 4);
}

#[test]
fn bot_move_follows_the_draws() {
    let held = vec![Suit::Hearts, Suit::Clubs];
    assert_eq!(bot_move(0, Suit::Diamonds, &held, 0, 7), ClientMsg::PlaceBid { suit: Suit::Diamonds, price: 7 });
    assert_eq!(bot_move(1, Suit::Diamonds, &held, 1, 3), ClientMsg::PlaceAsk { suit: Suit::Clubs, price: 3 });
    assert_eq!(bot_move(1, Suit::Diamonds, &held, 0, 3), ClientMsg::PlaceAsk { suit: Suit::Hearts, price: 3 });
    assert_eq!(bot_move(1, Suit::Diamonds, &vec![], 0, 3), ClientMsg::Pass);
    assert_eq!(bot_move(2, Suit::Diamonds, &held, 0, 3), ClientMsg::Pass);
}

#[test]
fn random_bot_ids_have_uuid_variant_bits() {
    let a = RandomBot::new();
    assert_eq!((a.id >> 62) & 0x3, 2);
}
