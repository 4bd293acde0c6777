//! Properties that hold across the engine's operations.

use vstd::prelude::*;
use crate::game::dealer::deck_count;
use crate::game::engine::{EngineState, TradeRecord, suit_total, chip_total, cards_conserved, chips_conserved, chips_nonneg, POT};
use crate::game::order_book::SuitBook;
use crate::game::scoring::{
    holders, max_target, wins_pot, chips_before, target_cards_of, lemma_pot_goes_to_sole_leader,
};
use crate::models::card::{Suit, spec_cross_suit};
use crate::models::game::GameStatus;

verus! {

/// A trade keeps the invariant and the status; when it goes through, the
/// record names the buyer, seller, suit and price, it is appended to the
/// trade log, and one card and `price` chips only change hands: the chips in
/// play and the cards of every suit in play stay the same, and when no
/// balance was negative none becomes so. A trade of a player with themselves
/// is logged and changes no hand and no balance. A refused trade changes
/// nothing. The only inputs left out are those on which paying the seller
/// would overflow an `i32`.
pub proof fn lemma_trade_conserves(st: EngineState, buyer: u128, seller: u128, suit: Suit, price: i32)
    requires
        st.wf(),
        price > 0,
        st.sale_fits(buyer, seller, suit, price),
    ensures
        ({
            let (post, r) = st.execute_trade(buyer, seller, suit, price);
            &&& post.wf()
            &&& post.status == st.status
            &&& post.order_book == st.order_book
            &&& post.players == st.players
            &&& (r matches Ok(t) ==> {
                &&& t == TradeRecord { buyer_id: buyer, seller_id: seller, suit, price }
                &&& post.trade_log == st.trade_log.push(t)
                &&& chip_total(post.chips) == chip_total(st.chips)
                &&& forall|s: Suit| #[trigger] suit_total(post.hands, s) == suit_total(st.hands, s)
                &&& (chips_nonneg(st.chips) ==> chips_nonneg(post.chips))
                &&& (buyer == seller ==> post.hands == st.hands && post.chips == st.chips)
            })
            &&& (r is Err ==> post == st)
        }),
{
    let (post, r) = st.execute_trade(buyer, seller, suit, price);
    if r is Ok {
        let b = st.seat(buyer);
        let s = st.seat(seller);
        assert(st.players.contains(buyer));
        assert(st.players.contains(seller));
        assert(st.players[b] == buyer);
        assert(st.players[s] == seller);
        assert(buyer == seller <==> b == s);
        let common = st.common_suit.unwrap();
        assert(st.status != GameStatus::Lobby);
        assert(suit_total(st.hands, suit) == deck_count(common, suit));
        if b == s {
            assert(post.hands =~= st.hands);
            assert(post.chips =~= st.chips);
        }
        assert forall|x: Suit| #[trigger] suit_total(post.hands, x) == suit_total(st.hands, x) by {}
        assert(cards_conserved(common, post.hands)) by {
            assert forall|x: Suit| #[trigger] suit_total(post.hands, x) == deck_count(common, x) by {
                assert(suit_total(st.hands, x) == deck_count(common, x));
            }
        }
        if st.status == GameStatus::Active {
            assert(chips_conserved(post.chips));
        }
    }
}

/// In an active game every balance is between 0 and 200, so paying a
/// seller never overflows.
pub proof fn lemma_active_sale_fits(st: EngineState, buyer: u128, seller: u128, suit: Suit, price: i32)
    requires
        st.wf(),
        st.status == GameStatus::Active,
    ensures
        st.sale_fits(buyer, seller, suit, price),
{
    assert(st.chips[0] >= 0 && st.chips[1] >= 0 && st.chips[2] >= 0 && st.chips[3] >= 0);
    if st.players.contains(buyer) {
        assert(st.players[st.seat(buyer)] == buyer);
    }
    if st.players.contains(seller) {
        assert(st.players[st.seat(seller)] == seller);
    }
}

/// Taking the best ask conserves chips and cards and keeps the invariant.
pub proof fn lemma_accept_ask_conserves(st: EngineState, buyer: u128, suit: Suit)
    requires
        st.wf(),
    ensures
        ({
            let (post, r) = st.accept_ask(buyer, suit);
            &&& post.wf()
            &&& post.status == st.status
            &&& st.status == GameStatus::Active ==> chip_total(post.chips) == chip_total(st.chips)
            &&& st.status == GameStatus::Active ==> forall|s: Suit| #[trigger] suit_total(post.hands, s) == suit_total(st.hands, s)
        }),
{
    if st.action_refusal(buyer) is None {
        let b = st.order_book.book(suit);
        if let Some(ask) = b.best_ask {
            if ask.player_id != buyer {
                let mid = st.with_suit_book(suit, SuitBook { best_ask: None, ..b });
                assert(mid.order_book.prices_positive());
                lemma_active_sale_fits(mid, buyer, ask.player_id, suit, ask.price);
                lemma_trade_conserves(mid, buyer, ask.player_id, suit, ask.price);
            }
        }
    }
}

/// Taking the best bid conserves chips and cards and keeps the invariant.
pub proof fn lemma_accept_bid_conserves(st: EngineState, seller: u128, suit: Suit)
    requires
        st.wf(),
    ensures
        ({
            let (post, r) = st.accept_bid(seller, suit);
            &&& post.wf()
            &&& post.status == st.status
            &&& st.status == GameStatus::Active ==> chip_total(post.chips) == chip_total(st.chips)
            &&& st.status == GameStatus::Active ==> forall|s: Suit| #[trigger] suit_total(post.hands, s) == suit_total(st.hands, s)
        }),
{
    if st.action_refusal(seller) is None {
        let b = st.order_book.book(suit);
        if let Some(bid) = b.best_bid {
            if bid.player_id != seller {
                let mid = st.with_suit_book(suit, SuitBook { best_bid: None, ..b });
                assert(mid.order_book.prices_positive());
                lemma_active_sale_fits(mid, bid.player_id, seller, suit, bid.price);
                lemma_trade_conserves(mid, bid.player_id, seller, suit, bid.price);
            }
        }
    }
}

/// A refused acceptance leaves the game as it was, except that the taken
/// order stays out of the book when the refusal comes from the seller's
/// cards or the buyer's chips.
pub proof fn lemma_refused_accept_ask(st: EngineState, buyer: u128, suit: Suit)
    requires
        st.wf(),
    ensures
        ({
            let (post, r) = st.accept_ask(buyer, suit);
            r is Err ==> (post == st || post == st.with_suit_book(suit, SuitBook { best_ask: None, ..st.order_book.book(suit) }))
        }),
{
}

/// The same for taking the best bid.
pub proof fn lemma_refused_accept_bid(st: EngineState, seller: u128, suit: Suit)
    requires
        st.wf(),
    ensures
        ({
            let (post, r) = st.accept_bid(seller, suit);
            r is Err ==> (post == st || post == st.with_suit_book(suit, SuitBook { best_bid: None, ..st.order_book.book(suit) }))
        }),
{
}

/// Until the game is over the public view reveals neither the common nor
/// the target suit; once it is over it reveals both.
pub proof fn lemma_view_hides_suits(st: EngineState)
    ensures
        st.status != GameStatus::Finished ==> st.public_view().target_suit is None && st.public_view().common_suit is None,
        st.status == GameStatus::Finished ==> st.public_view().target_suit == st.target_suit
            && st.public_view().common_suit == st.common_suit,
{
}

/// Ending an active game pays 10 chips per target card (the target suit has
/// 10 cards, so 100 in all) plus the 200-chip pot when one player alone holds
/// the most target cards.
pub proof fn lemma_end_game_payout(st: EngineState)
    requires
        st.wf(),
        st.status == GameStatus::Active,
    ensures
        ({
            let hp = st.hand_pairs();
            let t = st.target_suit.unwrap();
            let sole = holders(hp, t, max_target(hp, t, 4), 4) == 1;
            chip_total(st.finished().chips) == chip_total(st.chips) + 100 + if sole { POT as int } else { 0int }
        }),
{
    let hp = st.hand_pairs();
    let cp = st.chip_pairs();
    let t = st.target_suit.unwrap();
    let c = st.common_suit.unwrap();
    lemma_pot_goes_to_sole_leader(hp, t);
    assert(hp.len() == 4);
    assert forall|i: int| 0 <= i < 4 implies #[trigger] chips_before(cp, hp[i].0) == st.chips[i] by {
        crate::game::engine::lemma_chips_before_seat(st.players, st.chips, i);
    }
    assert forall|i: int| 0 <= i < 4 implies #[trigger] target_cards_of(hp, t, i) == st.hands[i].spec_count(t) by {}
    assert(suit_total(st.hands, t) == deck_count(c, t));
    assert(deck_count(c, spec_cross_suit(c)) == 10);
    let sole = holders(hp, t, max_target(hp, t, 4), 4) == 1;
    if sole {
        let w = choose|i: int| 0 <= i < hp.len() && wins_pot(hp, t, i);
        assert(0 <= w < 4);
        assert(forall|j: int| 0 <= j < 4 && j != w ==> !wins_pot(hp, t, j));
    } else {
        assert(forall|j: int| 0 <= j < 4 ==> !wins_pot(hp, t, j));
    }
}

/// The best bid is the highest bid placed: a new bid replaces it exactly
/// when it is strictly higher. Symmetrically the best ask is the lowest.
pub proof fn lemma_best_prices(b: SuitBook, order_id: u128, player_id: u128, price: i32)
    ensures
        b.after_bid(order_id, player_id, price).best_bid matches Some(e) && e.price >= price
            && (b.best_bid matches Some(old) ==> e.price >= old.price),
        b.after_ask(order_id, player_id, price).best_ask matches Some(e) && e.price <= price
            && (b.best_ask matches Some(old) ==> e.price <= old.price),
        b.after_bid(order_id, player_id, price).best_ask == b.best_ask,
        b.after_ask(order_id, player_id, price).best_bid == b.best_bid,
{
}

/// Taking the best order and putting it back gives the book back.
pub proof fn lemma_take_and_restore(b: SuitBook)
    ensures
        b.best_ask matches Some(a) ==> (SuitBook { best_ask: None, ..b }).after_ask(a.order_id, a.player_id, a.price) == b,
        b.best_bid matches Some(e) ==> (SuitBook { best_bid: None, ..b }).after_bid(e.order_id, e.player_id, e.price) == b,
{
}

/// The status moves forward only: lobby, then active, then finished.
pub open spec fn status_advance(pre: GameStatus, post: GameStatus) -> bool {
    ||| post == pre
    ||| (pre == GameStatus::Lobby && post == GameStatus::Active)
    ||| (pre == GameStatus::Active && post == GameStatus::Finished)
}

/// No operation moves the game backwards: joining keeps the lobby, dealing
/// opens trading, market actions keep the status, ending finishes the game.
pub proof fn lemma_status_only_advances(st: EngineState, id: u128, is_bot: bool, suit: Suit, order_id: u128, price: i32, common: Suit, hands: Seq<crate::models::card::Hand>)
    requires
        st.wf(),
    ensures
        st.join_refusal(id) is None ==> st.with_player(id, is_bot).status == GameStatus::Lobby,
        st.start_refusal() is None ==> st.status == GameStatus::Lobby && st.with_deal(common, hands).status == GameStatus::Active,
        status_advance(st.status, st.with_bid(suit, order_id, id, price).status),
        status_advance(st.status, st.with_ask(suit, order_id, id, price).status),
        status_advance(st.status, st.accept_ask(id, suit).0.status),
        status_advance(st.status, st.accept_bid(id, suit).0.status),
        status_advance(st.status, st.cancel_order(id, order_id).status),
        st.end_refusal() is None ==> st.status == GameStatus::Active && st.finished().status == GameStatus::Finished,
{
    lemma_accept_ask_conserves(st, id, suit);
    lemma_accept_bid_conserves(st, id, suit);
}

/// Cancelling a bid removes the best bid exactly when it carries that id and
/// never touches the ask; cancelling an ask likewise leaves the bid.
pub proof fn lemma_cancel_touches_one_side(b: SuitBook, order_id: u128)
    ensures
        b.without_bid(order_id).best_ask == b.best_ask,
        b.without_bid(order_id).best_bid == (if b.best_bid matches Some(e) && e.order_id == order_id {
            None
        } else {
            b.best_bid
        }),
        b.without_ask(order_id).best_bid == b.best_bid,
        b.without_ask(order_id).best_ask == (if b.best_ask matches Some(e) && e.order_id == order_id {
            None
        } else {
            b.best_ask
        }),
{
}

/// A player's cancel removes at most one resting order, and only one with
/// that id placed by that player: every suit's book is left as it was, or
/// loses just its bid or just its ask, which carried that id and player.
pub proof fn lemma_cancel_order_removes_only_own(st: EngineState, player: u128, order_id: u128)
    ensures
        ({
            let post = st.cancel_order(player, order_id);
            &&& post.status == st.status
            &&& post.players == st.players
            &&& post.hands == st.hands
            &&& post.chips == st.chips
            &&& post.trade_log == st.trade_log
            &&& forall|s: Suit| {
                let before = #[trigger] st.order_book.book(s);
                let after = post.order_book.book(s);
                ||| after == before
                ||| {
                    &&& after.best_ask == before.best_ask
                    &&& after.best_bid is None
                    &&& before.best_bid matches Some(e) && e.order_id == order_id && e.player_id == player
                }
                ||| {
                    &&& after.best_bid == before.best_bid
                    &&& after.best_ask is None
                    &&& before.best_ask matches Some(e) && e.order_id == order_id && e.player_id == player
                }
            }
        }),
{
    reveal_with_fuel(crate::game::engine::cancel_from, 5);
    let bk = st.order_book;
    assert(crate::models::card::all_suits()[0] == Suit::Spades);
    assert(crate::models::card::all_suits()[1] == Suit::Hearts);
    assert(crate::models::card::all_suits()[2] == Suit::Diamonds);
    assert(crate::models::card::all_suits()[3] == Suit::Clubs);
}

/// The public view shows the engine's seats, chips, order book, trade log,
/// status and id as they are.
pub proof fn lemma_public_view_shows_market(st: EngineState)
    ensures
        st.public_view().order_book == st.order_book,
        st.public_view().players == st.players,
        st.public_view().chips == st.chips,
        st.public_view().trade_log == st.trade_log,
        st.public_view().status == st.status,
        st.public_view().game_id == st.game_id,
{
}

/// A successful sale into the best bid consumes that bid: the bidder buys
/// one card of the suit from the seller at the bid's price, the bid leaves
/// the book, the ask of that suit and the books of the other suits stay,
/// and the trade is logged.
pub proof fn lemma_accept_bid_consumes_bid(st: EngineState, seller: u128, suit: Suit)
    requires
        st.wf(),
    ensures
        ({
            let (post, r) = st.accept_bid(seller, suit);
            r matches Ok(t) ==> {
                &&& st.order_book.book(suit).best_bid matches Some(bid)
                &&& t == TradeRecord { buyer_id: bid.player_id, seller_id: seller, suit, price: bid.price }
                &&& bid.player_id != seller
                &&& post.order_book.book(suit).best_bid is None
                &&& post.order_book.book(suit).best_ask == st.order_book.book(suit).best_ask
                &&& forall|s: Suit| s != suit ==> #[trigger] post.order_book.book(s) == st.order_book.book(s)
                &&& post.trade_log == st.trade_log.push(t)
            }
        }),
{
    if st.action_refusal(seller) is None {
        let b = st.order_book.book(suit);
        if let Some(bid) = b.best_bid {
            if bid.player_id != seller {
                let mid = st.with_suit_book(suit, SuitBook { best_bid: None, ..b });
                lemma_active_sale_fits(mid, bid.player_id, seller, suit, bid.price);
                lemma_trade_conserves(mid, bid.player_id, seller, suit, bid.price);
            }
        }
    }
}

/// A successful purchase from the best ask consumes that ask: the buyer buys
/// one card of the suit from the asker at the ask's price, the ask leaves
/// the book, the bid of that suit and the books of the other suits stay,
/// and the trade is logged.
pub proof fn lemma_accept_ask_consumes_ask(st: EngineState, buyer: u128, suit: Suit)
    requires
        st.wf(),
    ensures
        ({
            let (post, r) = st.accept_ask(buyer, suit);
            r matches Ok(t) ==> {
                &&& st.order_book.book(suit).best_ask matches Some(ask)
                &&& t == TradeRecord { buyer_id: buyer, seller_id: ask.player_id, suit, price: ask.price }
                &&& ask.player_id != buyer
                &&& post.order_book.book(suit).best_ask is None
                &&& post.order_book.book(suit).best_bid == st.order_book.book(suit).best_bid
                &&& forall|s: Suit| s != suit ==> #[trigger] post.order_book.book(s) == st.order_book.book(s)
                &&& post.trade_log == st.trade_log.push(t)
            }
        }),
{
    if st.action_refusal(buyer) is None {
        let b = st.order_book.book(suit);
        if let Some(ask) = b.best_ask {
            if ask.player_id != buyer {
                let mid = st.with_suit_book(suit, SuitBook { best_ask: None, ..b });
                lemma_active_sale_fits(mid, buyer, ask.player_id, suit, ask.price);
                lemma_trade_conserves(mid, buyer, ask.player_id, suit, ask.price);
            }
        }
    }
}

} // verus!
