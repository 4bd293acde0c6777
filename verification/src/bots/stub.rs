//! A bot that trades at random.

use vstd::prelude::*;
use crate::game::engine::GameView;
use crate::models::card::{Hand, Suit, all_suits};
use crate::rng::{choose_suit, random_between, new_v4_id};
use crate::ws::messages::ClientMsg;

verus! {

/// The lowest price a random bot quotes.
pub const MIN_BOT_PRICE: i32 = 1;

/// The highest price a random bot quotes.
pub const MAX_BOT_PRICE: i32 = 15;

/// A bot that randomly places bids, asks, or passes.
pub struct RandomBot {
    pub id: u128,
}

/// The suits the hand holds at least one card of, in `Suit::ALL` order.
pub open spec fn spec_held_suits(hand: Hand) -> Seq<Suit> {
    all_suits().filter(|s: Suit| hand.spec_count(s) > 0)
}

/// A move a random bot may make holding `hand`: pass, bid on any suit, or
/// ask on a suit it holds, at a price from 1 to 15.
pub open spec fn allowed_bot_move(hand: Hand, m: ClientMsg) -> bool {
    match m {
        ClientMsg::Pass => true,
        ClientMsg::PlaceBid { suit, price } => MIN_BOT_PRICE <= price <= MAX_BOT_PRICE,
        ClientMsg::PlaceAsk { suit, price } => hand.spec_count(suit) > 0 && MIN_BOT_PRICE <= price <= MAX_BOT_PRICE,
        _ => false,
    }
}

/// The suits the hand holds at least one card of, in `Suit::ALL` order.
pub fn held_suits(hand: &Hand) -> (r: Vec<Suit>)
    ensures
        r@ == spec_held_suits(*hand),
{
    let mut held: Vec<Suit> = Vec::new();
    let mut i: usize = 0;
    while i < 4
        invariant
            i <= 4,
            held@ == all_suits().subrange(0, i as int).filter(|s: Suit| hand.spec_count(s) > 0),
        decreases 4 - i,
    {
        let suit = Suit::ALL[i];
        assert(suit == all_suits()[i as int]);
        proof {
            reveal(Seq::filter);
            assert(all_suits().subrange(0, i + 1).drop_last() =~= all_suits().subrange(0, i as int));
        }
        if hand.count(suit) > 0 {
            held.push(suit);
        }
        i += 1;
    }
    assert(all_suits().subrange(0, 4) =~= all_suits());
    held
}

impl RandomBot {
    /// A bot with a fresh random id.
    pub fn new() -> (r: Self)
        ensures
            (r.id >> 76u128) & 0xfu128 == 4u128,
            (r.id >> 62u128) & 0x3u128 == 2u128,
    {
        RandomBot { id: new_v4_id() }
    }

    pub fn player_id(&self) -> (r: u128)
        ensures
            r == self.id,
    {
        self.id
    }

    /// Picks a random move: a bid on a random suit, an ask on a random held
    /// suit (a pass when nothing is held), or a pass, each with the same
    /// chance; prices are random from 1 to 15. The drawn values are handed
    /// to `bot_move`, which decides.
    pub fn take_action(&self, _view: &GameView, my_hand: &Hand) -> (r: ClientMsg)
        ensures
            allowed_bot_move(*my_hand, r),
            spec_held_suits(*my_hand).len() == 0 ==> !(r is PlaceAsk),
            exists|action: i32, bid_suit: Suit, pick: int, price: i32|
                #![trigger spec_bot_move(action, bid_suit, spec_held_suits(*my_hand), pick, price)]
                0 <= action <= 2 && MIN_BOT_PRICE <= price <= MAX_BOT_PRICE
                    && (spec_held_suits(*my_hand).len() > 0 ==> 0 <= pick < spec_held_suits(*my_hand).len())
                    && r == spec_bot_move(action, bid_suit, spec_held_suits(*my_hand), pick, price),
    {
        let action = random_between(0, 2);
        let bid_suit = choose_suit(&Suit::ALL);
        let price = random_between(MIN_BOT_PRICE, MAX_BOT_PRICE);
        let held = held_suits(my_hand);
        proof {
            all_suits().lemma_filter_len(|s: Suit| my_hand.spec_count(s) > 0);
        }
        let pick: usize = if held.len() > 0 {
            let last = (held.len() - 1) as i32;
            random_between(0, last) as usize
        } else {
            0
        };
        let r = bot_move(action, bid_suit, &held, pick, price);
        proof {
            if action == 1 && held@.len() > 0 {
                all_suits().lemma_filter_pred(|s: Suit| my_hand.spec_count(s) > 0, pick as int);
            }
        }
        assert(r == spec_bot_move(action, bid_suit, spec_held_suits(*my_hand), pick as int, price));
        r
    }
}

/// The move a random bot makes from its draws: `action` 0 bids `price` on
/// `bid_suit`; `action` 1 asks `price` for the held suit at position `pick`,
/// or passes when nothing is held; any other `action` passes.
pub open spec fn spec_bot_move(action: i32, bid_suit: Suit, held: Seq<Suit>, pick: int, price: i32) -> ClientMsg {
    if action == 0 {
        ClientMsg::PlaceBid { suit: bid_suit, price }
    } else if action == 1 {
        if held.len() == 0 {
            ClientMsg::Pass
        } else {
            ClientMsg::PlaceAsk { suit: held[pick], price }
        }
    } else {
        ClientMsg::Pass
    }
}

/// The move a random bot makes from its draws (see `spec_bot_move`).
pub fn bot_move(action: i32, bid_suit: Suit, held: &Vec<Suit>, pick: usize, price: i32) -> (r: ClientMsg)
    requires
        action == 1 && held@.len() > 0 ==> pick < held@.len(),
    ensures
        r == spec_bot_move(action, bid_suit, held@, pick as int, price),
{
    if action == 0 {
        // Random bid on a random suit
        ClientMsg::PlaceBid { suit: bid_suit, price }
    } else if action == 1 {
        // Ask on a suit we hold
        if held.len() == 0 {
            ClientMsg::Pass
        } else {
            ClientMsg::PlaceAsk { suit: held[pick], price }
        }
    } else {
        ClientMsg::Pass
    }
}

} // verus!
