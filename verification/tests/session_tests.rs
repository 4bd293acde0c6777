use figgie_server::game::engine::GameEngine;
use figgie_server::handlers::games::{join_and_start, start_game_internal};
use figgie_server::handlers::players::normalize_username;
use figgie_server::models::card::{Hand, Suit};
use figgie_server::ws::messages::{ClientMsg, ServerMsg};
use figgie_server::ws::session::{game_not_found, opening_messages, process_client_msg};

fn started() -> GameEngine {
    let mut e = GameEngine::new(3);
    for p in [1u128, 2, 3, 4] {
        e.add_player(p, false).unwrap();
    }
    e.start().unwrap();
    e.hands = vec![
        Hand { spades: 3, hearts: 4, diamonds: 2, clubs: 1 },
        Hand { spades: 3, hearts: 2, diamonds: 2, clubs: 3 },
        Hand { spades: 3, hearts: 2, diamonds: 3, clubs: 2 },
        Hand { spades: 3, hearts: 2, diamonds: 2, clubs: 3 },
    ];
    e.common_suit = Some(Suit::Spades);
    e.target_suit = Some(Suit::Hearts);
    e
}

#[test]
fn place_bid_message_announces_the_order() {
    let mut e = started();
    match process_client_msg(ClientMsg::PlaceBid { suit: Suit::Clubs, price: 4 }, &mut e, 2) {
        Ok(ServerMsg::OrderPlaced { order_id, player_id, suit, side, price }) => {
            assert_eq!(player_id, 2);
            assert_eq!(suit, Suit::Clubs);
            assert_eq!(side, "bid");
            assert_eq!(price, 4);
            assert_eq!(e.order_book.clubs.unwrap().best_bid.unwrap().order_id, order_id);
        }
        other => panic!("unexpected {:?}", other),
    }
}

#[test]
fn place_ask_message_announces_the_order() {
    let mut e = started();
    match process_client_msg(ClientMsg::PlaceAsk { suit: Suit::Hearts, price: 8 }, &mut e, 1) {
        Ok(ServerMsg::OrderPlaced { side, price, .. }) => {
            assert_eq!(side, "ask");
            assert_eq!(price, 8);
        }
        other => panic!("unexpected {:?}", other),
    }
}

#[test]
fn refused_message_returns_the_reason() {
    let mut e = started();
    let r = process_client_msg(ClientMsg::PlaceBid { suit: Suit::Clubs, price: 0 }, &mut e, 2);
    assert_eq!(r.unwrap_err(), "Price must be positive");
    let r = process_client_msg(ClientMsg::AcceptAsk { suit: Suit::Clubs }, &mut e, 2);
    assert_eq!(r.unwrap_err(), "No ask to accept");
}

#[test]
fn trade_and_cancel_messages() {
    let mut e = started();
    process_client_msg(ClientMsg::PlaceAsk { suit: Suit::Hearts, price: 8 }, &mut e, 1).unwrap();
    match process_client_msg(ClientMsg::AcceptAsk { suit: Suit::Hearts }, &mut e, 3) {
        Ok(ServerMsg::TradeExecuted { trade }) => {
            assert_eq!((trade.buyer_id, trade.seller_id, trade.price), (3, 1, 8));
        }
        other => panic!("unexpected {:?}", other),
    }
    process_client_msg(ClientMsg::PlaceBid { suit: Suit::Hearts, price: 2 }, &mut e, 4).unwrap();
    match process_client_msg(ClientMsg::AcceptBid { suit: Suit::Hearts }, &mut e, 2) {
        Ok(ServerMsg::TradeExecuted { trade }) => assert_eq!((trade.buyer_id, trade.seller_id), (4, 2)),
        other => panic!("unexpected {:?}", other),
    }
    match process_client_msg(ClientMsg::CancelOrder { order_id: 77 }, &mut e, 2) {
        Ok(ServerMsg::OrderCancelled { order_id }) => assert_eq!(order_id, 77),
        other => panic!("unexpected {:?}", other),
    }
}

#[test]
fn pass_and_end_game_messages() {
    let mut e = started();
    match process_client_msg(ClientMsg::Pass, &mut e, 1) {
        Ok(ServerMsg::GameState { game }) => {
            assert_eq!(game.players, vec![1, 2, 3, 4]);
            assert_eq!(game.target_suit, None);
        }
        other => panic!("unexpected {:?}", other),
    }
    match process_client_msg(ClientMsg::EndGame, &mut e, 1) {
        Ok(ServerMsg::GameEnded { result }) => {
            assert_eq!(result.results[0].chips_end, 290);
        }
        other => panic!("unexpected {:?}", other),
    }
    let r = process_client_msg(ClientMsg::EndGame, &mut e, 1);
    assert_eq!(r.unwrap_err(), "Game is not active");
}

#[test]
fn only_the_host_ends_the_game() {
    let mut e = started();
    let r = process_client_msg(ClientMsg::EndGame, &mut e, 2);
    assert_eq!(r.unwrap_err(), "Only the host can end the game");
    let r = process_client_msg(ClientMsg::EndGame, &mut e, 99);
    assert_eq!(r.unwrap_err(), "Only the host can end the game");
    assert_eq!(e.status, figgie_server::models::game::GameStatus::Active);
    assert_eq!(e.chips, vec![50, 50, 50, 50]);
    assert!(process_client_msg(ClientMsg::EndGame, &mut e, 1).is_ok());
}

#[test]
fn opening_messages_send_state_and_hand() {
    let e = started();
    let msgs = opening_messages(&e, 3);
    assert_eq!(msgs.len(), 2);
    assert!(matches!(&msgs[0], ServerMsg::GameState { .. }));
    match &msgs[1] {
        ServerMsg::YourHand { hand } => assert_eq!(*hand, Hand { spades: 3, hearts: 2, diamonds: 3, clubs: 2 }),
        other => panic!("unexpected {:?}", other),
    }
    assert!(opening_messages(&e, 99).is_empty());
}

#[test]
fn unknown_game_message() {
    match game_not_found() {
        ServerMsg::Error { message } => assert_eq!(message, "Game not found"),
        other => panic!("unexpected {:?}", other),
    }
}

#[test]
fn start_game_internal_sends_each_player_their_own_hand() {
    let mut e = GameEngine::new(3);
    for p in [1u128, 2, 3, 4] {
        e.add_player(p, false).unwrap();
    }
    let msgs = start_game_internal(&mut e).unwrap();
    assert_eq!(msgs.len(), 4);
    for (i, (player, msg)) in msgs.iter().enumerate() {
        assert_eq!(*player, e.players[i]);
        match msg {
            ServerMsg::GameStarted { your_hand, game } => {
                assert_eq!(*your_hand, e.hands[i]);
                assert_eq!(your_hand.total(), 10);
                assert_eq!(game.players, vec![1, 2, 3, 4]);
                assert_eq!(game.common_suit, None);
            }
            other => panic!("unexpected {:?}", other),
        }
    }
    assert_eq!(start_game_internal(&mut e).unwrap_err(), "Game is not in lobby");
}

#[test]
fn fourth_join_starts_the_game() {
    let mut e = GameEngine::new(3);
    for p in [1u128, 2, 3] {
        let out = join_and_start(&mut e, p, false).unwrap();
        assert!(out.started.is_empty());
        match out.joined {
            ServerMsg::PlayerJoined { player_id, seat } => {
                assert_eq!(player_id, p);
                assert_eq!(seat as u128, p - 1);
            }
            other => panic!("unexpected {:?}", other),
        }
    }
    let out = join_and_start(&mut e, 4, true).unwrap();
    assert_eq!(out.seat, 3);
    assert_eq!(out.started.len(), 4);
    assert_eq!(e.status, figgie_server::models::game::GameStatus::Active);
    assert_eq!(join_and_start(&mut e, 5, false).unwrap_err(), "Game is not in lobby");
}

#[test]
fn join_refusal_leaves_lobby_unchanged() {
    let mut e = GameEngine::new(3);
    join_and_start(&mut e, 1, false).unwrap();
    assert_eq!(join_and_start(&mut e, 1, false).unwrap_err(), "Player already in game");
    assert_eq!(e.players, vec![1]);
}

#[test]
fn start_game_internal_refuses_short_table() {
    let mut e = GameEngine::new(3);
    e.add_player(1, false).unwrap();
    assert_eq!(start_game_internal(&mut e).unwrap_err(), "Need 4 players, have 1");
}

#[test]
fn usernames_are_trimmed() {
    assert_eq!(normalize_username("  bob \n"), Ok("bob".to_string()));
    assert_eq!(normalize_username("alice"), Ok("alice".to_string()));
    assert_eq!(normalize_username("   "), Err("Username cannot be empty".to_string()));
    assert_eq!(normalize_username(""), Err("Username cannot be empty".to_string()));
}

#[test]
fn usernames_trim_unicode_white_space_like_std() {
    let samples = [
        "\u{3000}bob\u{a0}",
        "\t\u{2028} a b \u{85}",
        "\u{200b}zero-width\u{200b}",
        "\u{1680}\u{205f}",
        "x",
        " \u{202f}mid\u{2009}dle ",
    ];
    for s in samples {
        let expected = s.trim();
        if expected.is_empty() {
            assert!(normalize_username(s).is_err());
        } else {
            assert_eq!(normalize_username(s), Ok(expected.to_string()));
        }
    }
}
