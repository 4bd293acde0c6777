//! What a game session decides: the answer to each client message and the
//! messages a connecting player receives.

use vstd::prelude::*;
use crate::game::engine::{GameEngine, EngineState, TradeRecord, is_fresh_order_id};
use crate::models::order::{OrderSide, side_name};
use crate::text::owned;
use crate::ws::messages::{ClientMsg, ServerMsg};

verus! {

/// What handling `msg` from `player` does: `r` is the answer to broadcast
/// (or the refusal), `post` the engine afterwards.
pub open spec fn handled(pre: EngineState, post: EngineState, player: u128, msg: ClientMsg, r: Result<ServerMsg, String>) -> bool {
    match msg {
        ClientMsg::PlaceBid { suit, price } => match r {
            Ok(ServerMsg::OrderPlaced { order_id, player_id, suit: s, side, price: p }) => {
                &&& pre.bid_refusal(player, price) is None
                &&& post == pre.with_bid(suit, order_id, player, price)
                &&& is_fresh_order_id(order_id)
                &&& player_id == player && s == suit && side@ == side_name(OrderSide::Bid) && p == price
            },
            Ok(_) => false,
            Err(e) => pre.bid_refusal(player, price) == Some(e@) && post == pre,
        },
        ClientMsg::PlaceAsk { suit, price } => match r {
            Ok(ServerMsg::OrderPlaced { order_id, player_id, suit: s, side, price: p }) => {
                &&& pre.ask_refusal(player, suit, price) is None
                &&& post == pre.with_ask(suit, order_id, player, price)
                &&& is_fresh_order_id(order_id)
                &&& player_id == player && s == suit && side@ == side_name(OrderSide::Ask) && p == price
            },
            Ok(_) => false,
            Err(e) => pre.ask_refusal(player, suit, price) == Some(e@) && post == pre,
        },
        ClientMsg::CancelOrder { order_id } => {
            &&& r matches Ok(ServerMsg::OrderCancelled { order_id: o }) && o == order_id
            &&& post == pre.cancel_order(player, order_id)
        },
        ClientMsg::AcceptBid { suit } => match r {
            Ok(ServerMsg::TradeExecuted { trade }) => pre.accept_bid(player, suit) == (post, Ok::<_, Seq<char>>(trade)),
            Ok(_) => false,
            Err(e) => pre.accept_bid(player, suit) == (post, Err::<TradeRecord, _>(e@)),
        },
        ClientMsg::AcceptAsk { suit } => match r {
            Ok(ServerMsg::TradeExecuted { trade }) => pre.accept_ask(player, suit) == (post, Ok::<_, Seq<char>>(trade)),
            Ok(_) => false,
            Err(e) => pre.accept_ask(player, suit) == (post, Err::<TradeRecord, _>(e@)),
        },
        ClientMsg::Pass => {
            &&& r matches Ok(ServerMsg::GameState { game }) && game@ == pre.public_view()
            &&& post == pre
        },
        ClientMsg::EndGame => match r {
            Ok(ServerMsg::GameEnded { result }) => {
                &&& pre.end_request_refusal(player) is None
                &&& result@ == pre.final_score()
                &&& post == pre.finished()
            },
            Ok(_) => false,
            Err(e) => pre.end_request_refusal(player) == Some(e@) && post == pre,
        },
    }
}

/// Applies one client message to the engine and says what to broadcast.
///
/// A refusal is only for the player who sent the message; the engine is
/// then left as the refused action leaves it. Ending the game is for the
/// host alone (the player in seat 0).
pub fn process_client_msg(msg: ClientMsg, engine: &mut GameEngine, player_id: u128) -> (r: Result<ServerMsg, String>)
    requires
        old(engine).wf(),
    ensures
        final(engine).wf(),
        handled(old(engine).state(), final(engine).state(), player_id, msg, r),
{
    match msg {
        ClientMsg::PlaceBid { suit, price } => match engine.place_bid(player_id, suit, price) {
            Ok(order_id) => Ok(ServerMsg::OrderPlaced {
                order_id,
                player_id,
                suit,
                side: owned(OrderSide::Bid.as_str()),
                price,
            }),
            Err(e) => Err(e),
        },
        ClientMsg::PlaceAsk { suit, price } => match engine.place_ask(player_id, suit, price) {
            Ok(order_id) => Ok(ServerMsg::OrderPlaced {
                order_id,
                player_id,
                suit,
                side: owned(OrderSide::Ask.as_str()),
                price,
            }),
            Err(e) => Err(e),
        },
        ClientMsg::CancelOrder { order_id } => {
            engine.cancel_order(player_id, order_id);
            Ok(ServerMsg::OrderCancelled { order_id })
        },
        ClientMsg::AcceptBid { suit } => match engine.accept_bid(player_id, suit) {
            Ok(trade) => Ok(ServerMsg::TradeExecuted { trade }),
            Err(e) => Err(e),
        },
        ClientMsg::AcceptAsk { suit } => match engine.accept_ask(player_id, suit) {
            Ok(trade) => Ok(ServerMsg::TradeExecuted { trade }),
            Err(e) => Err(e),
        },
        ClientMsg::Pass => {
            // A pass just broadcasts current state
            Ok(ServerMsg::GameState { game: engine.view() })
        },
        ClientMsg::EndGame => {
            // host-only: trigger end of trading phase
            if !engine.is_host(player_id) {
                return Err(owned("Only the host can end the game"));
            }
            match engine.end_game() {
                Ok(result) => Ok(ServerMsg::GameEnded { result }),
                Err(e) => Err(e),
            }
        },
    }
}

/// The messages a player receives on connecting: the public state and their
/// private hand, or nothing if they hold no hand in this game.
pub fn opening_messages(engine: &GameEngine, player_id: u128) -> (r: Vec<ServerMsg>)
    requires
        engine.wf(),
    ensures
        match engine.state().hand(player_id) {
            Some(h) => {
                &&& r@.len() == 2
                &&& r@[0] matches ServerMsg::GameState { game } && game@ == engine.state().public_view()
                &&& r@[1] == ServerMsg::YourHand { hand: h }
            },
            None => r@.len() == 0,
        },
{
    let mut r: Vec<ServerMsg> = Vec::new();
    let view = engine.view();
    if let Some(hand) = engine.hand_for(player_id) {
        r.push(ServerMsg::GameState { game: view });
        r.push(ServerMsg::YourHand { hand: *hand });
    }
    r
}

/// The message a connection to an unknown game receives.
pub fn game_not_found() -> (r: ServerMsg)
    ensures
        r matches ServerMsg::Error { message } && message@ == "Game not found"@,
{
    ServerMsg::Error { message: owned("Game not found") }
}

} // verus!
