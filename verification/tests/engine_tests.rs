use figgie_server::game::engine::GameEngine;
use figgie_server::game::order_book::OrderEntry;
use figgie_server::models::card::{Hand, Suit};
use figgie_server::models::game::GameStatus;

const A: u128 = 101;
const B: u128 = 102;
const C: u128 = 103;
const D: u128 = 104;

fn lobby_with(players: &[u128]) -> GameEngine {
    let mut e = GameEngine::new(9);
    for p in players {
        e.add_player(*p, false).unwrap();
    }
    e
}

/// An active game with known hands: common Spades, target Hearts.
fn active_game() -> GameEngine {
    let mut e = lobby_with(&[A, B, C, D]);
    e.start().unwrap();
    e.common_suit = Some(Suit::Spades);
    e.target_suit = Some(Suit::Hearts);
    e.hands = vec![
        Hand { spades: 3, hearts: 4, diamonds: 2, clubs: 1 },
        Hand { spades: 3, hearts: 2, diamonds: 2, clubs: 3 },
        Hand { spades: 3, hearts: 2, diamonds: 3, clubs: 2 },
        Hand { spades: 3, hearts: 2, diamonds: 2, clubs: 3 },
    ];
    e
}

#[test]
fn new_engine_is_an_empty_lobby() {
    let e = GameEngine::new(5);
    assert_eq!(e.game_id, 5);
    assert_eq!(e.status, GameStatus::Lobby);
    assert!(e.players.is_empty());
    assert!(e.hands.is_empty());
    assert!(e.trade_log.is_empty());
    assert_eq!(e.common_suit, None);
    assert!(e.score_result.is_none());
}

#[test]
fn add_player_gives_next_seat_and_fifty_chips() {
    let mut e = GameEngine::new(1);
    assert_eq!(e.add_player(A, false), Ok(0));
    assert_eq!(e.add_player(B, true), Ok(1));
    assert_eq!(e.players, vec![A, B]);
    assert_eq!(e.is_bot, vec![false, true]);
    assert_eq!(e.chips, vec![50, 50]);
    assert!(!e.is_full());
}

#[test]
fn add_player_refusals() {
    let mut e = lobby_with(&[A]);
    assert_eq!(e.add_player(A, false), Err("Player already in game".to_string()));
    let mut full = lobby_with(&[A, B, C, D]);
    assert!(full.is_full());
    assert_eq!(full.add_player(105, false), Err("Game is full".to_string()));
    assert_eq!(full.players.len(), 4);
    full.start().unwrap();
    assert_eq!(full.add_player(105, false), Err("Game is not in lobby".to_string()));
}

#[test]
fn start_needs_four_players() {
    let mut e = lobby_with(&[A, B]);
    assert_eq!(e.start(), Err("Need 4 players, have 2".to_string()));
    assert_eq!(e.status, GameStatus::Lobby);
    let mut empty = GameEngine::new(1);
    assert_eq!(empty.start(), Err("Need 4 players, have 0".to_string()));
}

#[test]
fn start_deals_a_fair_hand_to_each_seat() {
    let mut e = lobby_with(&[A, B, C, D]);
    assert_eq!(e.start(), Ok(()));
    assert_eq!(e.status, GameStatus::Active);
    let common = e.common_suit.unwrap();
    assert_eq!(e.target_suit, Some(common.cross_suit()));
    assert_eq!(e.hands.len(), 4);
    for h in &e.hands {
        assert_eq!(h.total(), 10);
    }
    for s in Suit::ALL {
        let total: u32 = e.hands.iter().map(|h| h.count(s) as u32).sum();
        let expected = if s == common { 12 } else if s == common.cross_suit() { 10 } else { 9 };
        assert_eq!(total, expected);
    }
    assert_eq!(e.start(), Err("Game is not in lobby".to_string()));
}

#[test]
fn bids_need_active_game_member_and_positive_price() {
    let mut lobby = lobby_with(&[A, B]);
    assert_eq!(lobby.place_bid(A, Suit::Spades, 5), Err("Game is not active".to_string()));
    let mut e = active_game();
    assert_eq!(e.place_bid(999, Suit::Spades, 5), Err("Player not in this game".to_string()));
    assert_eq!(e.place_bid(A, Suit::Spades, 0), Err("Price must be positive".to_string()));
    assert_eq!(e.place_bid(A, Suit::Spades, -3), Err("Price must be positive".to_string()));
    let id = e.place_bid(A, Suit::Spades, 5).unwrap();
    assert_eq!(e.order_book.spades.unwrap().best_bid, Some(OrderEntry { order_id: id, player_id: A, price: 5 }));
    // a lower bid does not replace the best one
    let id2 = e.place_bid(B, Suit::Spades, 4).unwrap();
    assert_ne!(id, id2);
    assert_eq!(e.order_book.spades.unwrap().best_bid.unwrap().order_id, id);
}

#[test]
fn asks_need_a_card_of_the_suit() {
    let mut e = active_game();
    e.hands[1].clubs = 0;
    assert_eq!(e.place_ask(B, Suit::Clubs, 5), Err("No Clubs cards to sell".to_string()));
    assert_eq!(e.place_ask(B, Suit::Diamonds, 0), Err("Price must be positive".to_string()));
    let id = e.place_ask(B, Suit::Diamonds, 6).unwrap();
    assert_eq!(e.order_book.diamonds.unwrap().best_ask, Some(OrderEntry { order_id: id, player_id: B, price: 6 }));
}

#[test]
fn accepting_an_ask_moves_one_card_and_the_price() {
    let mut e = active_game();
    e.place_ask(B, Suit::Hearts, 7).unwrap();
    let t = e.accept_ask(A, Suit::Hearts).unwrap();
    assert_eq!(t.buyer_id, A);
    assert_eq!(t.seller_id, B);
    assert_eq!(t.suit, Suit::Hearts);
    assert_eq!(t.price, 7);
    assert_eq!(e.hands[0].hearts, 5);
    assert_eq!(e.hands[1].hearts, 1);
    assert_eq!(e.chips, vec![43, 57, 50, 50]);
    assert_eq!(e.trade_log, vec![t]);
    assert_eq!(e.order_book.hearts.unwrap().best_ask, None);
}

#[test]
fn accepting_a_bid_moves_one_card_and_the_price() {
    let mut e = active_game();
    e.place_bid(C, Suit::Diamonds, 9).unwrap();
    let t = e.accept_bid(D, Suit::Diamonds).unwrap();
    assert_eq!((t.buyer_id, t.seller_id, t.price), (C, D, 9));
    assert_eq!(e.hands[2].diamonds, 4);
    assert_eq!(e.hands[3].diamonds, 1);
    assert_eq!(e.chips, vec![50, 50, 41, 59]);
}

#[test]
fn trading_conserves_chips_and_cards() {
    let mut e = active_game();
    e.place_ask(B, Suit::Hearts, 7).unwrap();
    e.accept_ask(A, Suit::Hearts).unwrap();
    e.place_bid(C, Suit::Spades, 3).unwrap();
    e.accept_bid(D, Suit::Spades).unwrap();
    assert_eq!(e.chips.iter().sum::<i32>(), 200);
    let counts = |s: Suit| e.hands.iter().map(|h| h.count(s) as u32).sum::<u32>();
    assert_eq!(counts(Suit::Spades), 12);
    assert_eq!(counts(Suit::Hearts), 10);
    assert_eq!(counts(Suit::Diamonds), 9);
    assert_eq!(counts(Suit::Clubs), 9);
}

#[test]
fn cannot_trade_with_yourself_and_order_stays() {
    let mut e = active_game();
    let id = e.place_ask(A, Suit::Hearts, 7).unwrap();
    assert_eq!(e.accept_ask(A, Suit::Hearts), Err("Cannot trade with yourself".to_string()));
    assert_eq!(e.order_book.hearts.unwrap().best_ask, Some(OrderEntry { order_id: id, player_id: A, price: 7 }));
    let bid = e.place_bid(B, Suit::Clubs, 2).unwrap();
    assert_eq!(e.accept_bid(B, Suit::Clubs), Err("Cannot trade with yourself".to_string()));
    assert_eq!(e.order_book.clubs.unwrap().best_bid.unwrap().order_id, bid);
    assert!(e.trade_log.is_empty());
}

#[test]
fn accept_without_orders_is_refused() {
    let mut e = active_game();
    assert_eq!(e.accept_ask(A, Suit::Clubs), Err("No ask to accept".to_string()));
    assert_eq!(e.accept_bid(A, Suit::Clubs), Err("No bid to accept".to_string()));
    assert_eq!(e.accept_ask(999, Suit::Clubs), Err("Player not in this game".to_string()));
}

#[test]
fn insufficient_chips_refuses_and_consumes_the_ask() {
    let mut e = active_game();
    e.place_ask(B, Suit::Hearts, 60).unwrap();
    assert_eq!(e.accept_ask(A, Suit::Hearts), Err("Buyer has insufficient chips".to_string()));
    assert_eq!(e.order_book.hearts.unwrap().best_ask, None);
    assert_eq!(e.chips, vec![50, 50, 50, 50]);
    assert!(e.trade_log.is_empty());
}

#[test]
fn seller_without_the_card_refuses_and_consumes_the_ask() {
    let mut e = active_game();
    e.place_ask(B, Suit::Hearts, 5).unwrap();
    e.hands[1].hearts = 0;
    assert_eq!(e.accept_ask(A, Suit::Hearts), Err("Seller has no Hearts to sell".to_string()));
    assert_eq!(e.order_book.hearts.unwrap().best_ask, None);
}

#[test]
fn cancel_order_removes_only_own_order() {
    let mut e = active_game();
    let bid = e.place_bid(A, Suit::Clubs, 4).unwrap();
    let ask = e.place_ask(B, Suit::Spades, 9).unwrap();
    e.cancel_order(B, bid);
    assert_eq!(e.order_book.clubs.unwrap().best_bid.unwrap().order_id, bid);
    e.cancel_order(A, bid);
    assert_eq!(e.order_book.clubs.unwrap().best_bid, None);
    e.cancel_order(B, ask);
    assert_eq!(e.order_book.spades.unwrap().best_ask, None);
    e.cancel_order(B, 12345);
}

#[test]
fn end_game_pays_target_cards_and_pot() {
    let mut e = active_game();
    let r = e.end_game().unwrap();
    assert_eq!(r.target_suit, Suit::Hearts);
    assert_eq!(r.common_suit, Suit::Spades);
    assert_eq!(r.pot, 200);
    assert_eq!(r.results.len(), 4);
    assert!(r.results[0].got_pot);
    assert_eq!(r.results[0].chips_end, 50 + 40 + 200);
    assert_eq!(r.results[1].chips_end, 70);
    assert_eq!(e.chips, vec![290, 70, 70, 70]);
    assert_eq!(e.status, GameStatus::Finished);
    assert!(e.score_result.is_some());
    assert_eq!(e.end_game().unwrap_err(), "Game is not active".to_string());
    assert_eq!(e.place_bid(A, Suit::Hearts, 3), Err("Game is not active".to_string()));
}

#[test]
fn end_game_with_a_tie_pays_no_pot() {
    let mut e = active_game();
    e.hands[0].hearts = 3;
    e.hands[1].hearts = 3;
    let r = e.end_game().unwrap();
    assert!(r.results.iter().all(|p| !p.got_pot));
    assert_eq!(e.chips.iter().sum::<i32>(), 200 + 100);
}

#[test]
fn end_game_needs_active_game() {
    let mut e = lobby_with(&[A]);
    assert_eq!(e.end_game().unwrap_err(), "Game is not active".to_string());
}

#[test]
fn view_hides_suits_until_finished() {
    let mut e = active_game();
    let v = e.view();
    assert_eq!(v.target_suit, None);
    assert_eq!(v.common_suit, None);
    assert_eq!(v.players, vec![A, B, C, D]);
    assert_eq!(v.chips, vec![50, 50, 50, 50]);
    assert_eq!(v.status, GameStatus::Active);
    e.end_game().unwrap();
    let v = e.view();
    assert_eq!(v.target_suit, Some(Suit::Hearts));
    assert_eq!(v.common_suit, Some(Suit::Spades));
    assert_eq!(v.status, GameStatus::Finished);
}

#[test]
fn hand_for_only_seated_players() {
    let e = active_game();
    assert_eq!(e.hand_for(C), Some(&Hand { spades: 3, hearts: 2, diamonds: 3, clubs: 2 }));
    assert_eq!(e.hand_for(999), None);
    let lobby = lobby_with(&[A]);
    assert_eq!(lobby.hand_for(A), None);
}

#[test]
fn refused_orders_leave_the_engine_unchanged() {
    let mut e = active_game();
    let before_book = e.order_book;
    let before_hands = e.hands.clone();
    assert!(e.place_bid(A, Suit::Hearts, 0).is_err());
    assert!(e.place_ask(999, Suit::Hearts, 3).is_err());
    assert!(e.accept_bid(A, Suit::Hearts).is_err());
    assert_eq!(e.order_book, before_book);
    assert_eq!(e.hands, before_hands);
    assert_eq!(e.chips, vec![50, 50, 50, 50]);
    assert_eq!(e.status, GameStatus::Active);
}

#[test]
fn status_moves_lobby_active_finished() {
    let mut e = lobby_with(&[A, B, C, D]);
    assert_eq!(e.status, GameStatus::Lobby);
    e.start().unwrap();
    assert_eq!(e.status, GameStatus::Active);
    e.end_game().unwrap();
    assert_eq!(e.status, GameStatus::Finished);
    assert!(e.start().is_err());
    assert_eq!(e.status, GameStatus::Finished);
}

#[test]
fn order_ids_are_version_four_uuids() {
    let mut e = active_game();
    let id = e.place_bid(A, Suit::Spades, 5).unwrap();
    assert_eq!((id >> 76) & 0xf, 4);
    assert_eq!((id >> 62) & 0x3, 2);
}
