//! What the game endpoints decide, apart from storage and broadcasting.

use vstd::prelude::*;
use crate::game::engine::{GameEngine, fair_deal, SEATS};
use crate::models::game::GameStatus;
use crate::ws::messages::ServerMsg;

verus! {

/// Starts a full lobby and builds the announcements: one per seat, each
/// addressed to the player in that seat and carrying the public state and
/// that player's private hand, to be delivered to that player alone.
pub fn start_game_internal(engine: &mut GameEngine) -> (r: Result<Vec<(u128, ServerMsg)>, String>)
    requires
        old(engine).wf(),
    ensures
        final(engine).wf(),
        match r {
            Ok(msgs) => {
                &&& old(engine).state().start_refusal() is None
                &&& final(engine).common_suit is Some
                &&& final(engine).state() == old(engine).state().with_deal(final(engine).common_suit.unwrap(), final(engine).hands@)
                &&& fair_deal(final(engine).common_suit.unwrap(), final(engine).hands@)
                &&& msgs@.len() == 4
                &&& forall|i: int| 0 <= i < 4 ==> {
                    &&& (#[trigger] msgs@[i]).0 == final(engine).players@[i]
                    &&& msgs@[i].1 matches ServerMsg::GameStarted { your_hand, game }
                    &&& your_hand == final(engine).hands@[i]
                    &&& game@ == final(engine).state().public_view()
                }
            },
            Err(e) => {
                &&& old(engine).state().start_refusal() == Some(e@)
                &&& final(engine).state() == old(engine).state()
            },
        },
{
    if let Err(e) = engine.start() {
        return Err(e);
    }
    let mut msgs: Vec<(u128, ServerMsg)> = Vec::new();
    let mut i: usize = 0;
    while i < 4
        invariant
            i <= 4,
            engine.wf(),
            engine.status == GameStatus::Active,
            msgs@.len() == i,
            forall|j: int| 0 <= j < i ==> {
                &&& (#[trigger] msgs@[j]).0 == engine.players@[j]
                &&& msgs@[j].1 matches ServerMsg::GameStarted { your_hand, game }
                &&& your_hand == engine.hands@[j]
                &&& game@ == engine.state().public_view()
            },
        decreases 4 - i,
    {
        let player = engine.players[i];
        let hand = engine.hands[i];
        msgs.push((player, ServerMsg::GameStarted { your_hand: hand, game: engine.view() }));
        i += 1;
    }
    Ok(msgs)
}

/// What a join does: the seat taken, the announcement of it, and, when
/// this join filled the table, the start announcements (one per seat).
#[derive(Debug)]
pub struct JoinOutcome {
    pub seat: usize,
    pub joined: ServerMsg,
    pub started: Vec<(u128, ServerMsg)>,
}

/// Seats a player in the lobby; the join that fills the fourth seat starts
/// the game.
pub fn join_and_start(engine: &mut GameEngine, player_id: u128, is_bot: bool) -> (r: Result<JoinOutcome, String>)
    requires
        old(engine).wf(),
    ensures
        final(engine).wf(),
        match r {
            Ok(out) => {
                let seated = old(engine).state().with_player(player_id, is_bot);
                &&& old(engine).state().join_refusal(player_id) is None
                &&& out.seat == old(engine).players@.len()
                &&& out.joined matches ServerMsg::PlayerJoined { player_id: p, seat } && p == player_id && seat == out.seat
                &&& if seated.players.len() == SEATS {
                    &&& final(engine).common_suit is Some
                    &&& final(engine).state() == seated.with_deal(final(engine).common_suit.unwrap(), final(engine).hands@)
                    &&& fair_deal(final(engine).common_suit.unwrap(), final(engine).hands@)
                    &&& out.started@.len() == 4
                    &&& forall|i: int| 0 <= i < 4 ==> {
                        &&& (#[trigger] out.started@[i]).0 == final(engine).players@[i]
                        &&& out.started@[i].1 matches ServerMsg::GameStarted { your_hand, game }
                        &&& your_hand == final(engine).hands@[i]
                        &&& game@ == final(engine).state().public_view()
                    }
                } else {
                    &&& out.started@.len() == 0
                    &&& final(engine).state() == seated
                }
            },
            Err(e) => {
                &&& old(engine).state().join_refusal(player_id) == Some(e@)
                &&& final(engine).state() == old(engine).state()
            },
        },
{
    let seat = match engine.add_player(player_id, is_bot) {
        Ok(seat) => seat,
        Err(e) => {
            return Err(e);
        },
    };
    let joined = ServerMsg::PlayerJoined { player_id, seat };
    if engine.is_full() {
        match start_game_internal(engine) {
            Ok(started) => Ok(JoinOutcome { seat, joined, started }),
            Err(e) => {
                // A full lobby always starts.
                proof {
                    assert(false);
                }
                Err(e)
            },
        }
    } else {
        Ok(JoinOutcome { seat, joined, started: Vec::new() })
    }
}

} // verus!
