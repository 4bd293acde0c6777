//! The in-memory game engine: seats, hands, chips, the order book and the
//! trade log of one game, and every rule that changes them.

use vstd::prelude::*;
use crate::game::dealer::{self, deck_count, hand_of, seat_cards, pairs_map, is_full_deck, DealResult};
use crate::game::order_book::{OrderBook, SuitBook};
use crate::game::scoring::{score_round, result_for, chips_after, chips_before, target_cards_of, ScoreModel, ScoreResult};
use crate::models::card::{Hand, Suit, spec_cross_suit, suit_name, all_suits};
use crate::models::game::GameStatus;
use crate::text::owned;

verus! {

/// Seats at a table.
pub const SEATS: usize = 4;

/// Chips each player starts with.
pub const STARTING_CHIPS: i32 = 50;

/// The pot paid to the sole holder of the most target cards.
pub const POT: i32 = 200;

/// A completed trade.
#[derive(Debug, Clone, Copy, PartialEq, Eq, Structural)]
pub struct TradeRecord {
    pub buyer_id: u128,
    pub seller_id: u128,
    pub suit: Suit,
    pub price: i32,
}

/// A snapshot of game state sent to players (no hidden info here;
/// hands are sent individually by the WS session layer).
#[derive(Debug, Clone)]
pub struct GameView {
    pub game_id: u128,
    pub status: GameStatus,
    /// in seat order
    pub players: Vec<u128>,
    /// current chip counts, by seat
    pub chips: Vec<i32>,
    pub order_book: OrderBook,
    pub trade_log: Vec<TradeRecord>,
    /// revealed only after game ends
    pub target_suit: Option<Suit>,
    /// revealed only after game ends
    pub common_suit: Option<Suit>,
}

/// What a `GameView` holds.
pub struct GameViewModel {
    pub game_id: u128,
    pub status: GameStatus,
    pub players: Seq<u128>,
    pub chips: Seq<i32>,
    pub order_book: OrderBook,
    pub trade_log: Seq<TradeRecord>,
    pub target_suit: Option<Suit>,
    pub common_suit: Option<Suit>,
}

impl View for GameView {
    type V = GameViewModel;

    open spec fn view(&self) -> GameViewModel {
        GameViewModel {
            game_id: self.game_id,
            status: self.status,
            players: self.players@,
            chips: self.chips@,
            order_book: self.order_book,
            trade_log: self.trade_log@,
            target_suit: self.target_suit,
            common_suit: self.common_suit,
        }
    }
}

/// Core in-memory game engine. Handles all game logic; persistence is done
/// by handlers that observe the engine's outputs.
///
/// Per-player data is kept by seat: `is_bot[i]`, `hands[i]` and `chips[i]`
/// belong to the player `players[i]`.
#[derive(Debug)]
pub struct GameEngine {
    pub game_id: u128,
    pub status: GameStatus,
    /// Seat-ordered list of player ids (index = seat number)
    pub players: Vec<u128>,
    pub is_bot: Vec<bool>,
    /// Empty until the game starts, then one hand per seat.
    pub hands: Vec<Hand>,
    pub chips: Vec<i32>,
    pub order_book: OrderBook,
    pub trade_log: Vec<TradeRecord>,
    pub common_suit: Option<Suit>,
    pub target_suit: Option<Suit>,
    pub score_result: Option<ScoreResult>,
}

/// What a `GameEngine` holds.
pub struct EngineState {
    pub game_id: u128,
    pub status: GameStatus,
    pub players: Seq<u128>,
    pub is_bot: Seq<bool>,
    pub hands: Seq<Hand>,
    pub chips: Seq<i32>,
    pub order_book: OrderBook,
    pub trade_log: Seq<TradeRecord>,
    pub common_suit: Option<Suit>,
    pub target_suit: Option<Suit>,
    pub score: Option<ScoreModel>,
}

impl GameEngine {
    /// What the engine holds, as sequences.
    pub open spec fn state(&self) -> EngineState {
        EngineState {
            game_id: self.game_id,
            status: self.status,
            players: self.players@,
            is_bot: self.is_bot@,
            hands: self.hands@,
            chips: self.chips@,
            order_book: self.order_book,
            trade_log: self.trade_log@,
            common_suit: self.common_suit,
            target_suit: self.target_suit,
            score: match self.score_result {
                Some(s) => Some(s@),
                None => None,
            },
        }
    }
}

/// An id as `Uuid::new_v4` makes them: version 4 and variant 0b10.
pub open spec fn is_fresh_order_id(id: u128) -> bool {
    &&& (id >> 76u128) & 0xfu128 == 4u128
    &&& (id >> 62u128) & 0x3u128 == 2u128
}

/// A result whose error is a `String`, with the error as its characters.
pub open spec fn outcome<T>(r: Result<T, String>) -> Result<T, Seq<char>> {
    match r {
        Ok(v) => Ok(v),
        Err(e) => Err(e@),
    }
}

/// The decimal text of a player count below four.
pub open spec fn count_text(n: nat) -> Seq<char> {
    if n == 0 {
        "0"@
    } else if n == 1 {
        "1"@
    } else if n == 2 {
        "2"@
    } else {
        "3"@
    }
}

/// Each seat holds ten cards, and together the seats hold the deck of the
/// given common suit.
pub open spec fn fair_deal(common: Suit, hands: Seq<Hand>) -> bool {
    &&& hands.len() == 4
    &&& forall|i: int| 0 <= i < 4 ==> (#[trigger] hands[i]).spec_total() == 10
    &&& cards_conserved(common, hands)
}

/// The cards of suit `s` held across the four seats.
pub open spec fn suit_total(hands: Seq<Hand>, s: Suit) -> int {
    hands[0].spec_count(s) + hands[1].spec_count(s) + hands[2].spec_count(s) + hands[3].spec_count(s)
}

/// The four seats hold, suit by suit, exactly the deck of `common`.
pub open spec fn cards_conserved(common: Suit, hands: Seq<Hand>) -> bool {
    forall|s: Suit| #[trigger] suit_total(hands, s) == deck_count(common, s)
}

/// The chips across the four seats.
pub open spec fn chip_total(chips: Seq<i32>) -> int {
    chips[0] + chips[1] + chips[2] + chips[3]
}

/// Trading keeps 200 chips in play and nobody below zero.
pub open spec fn chips_conserved(chips: Seq<i32>) -> bool {
    &&& chip_total(chips) == 4 * STARTING_CHIPS
    &&& forall|i: int| 0 <= i < 4 ==> #[trigger] chips[i] >= 0
}

/// No seat has a negative chip count.
pub open spec fn chips_nonneg(chips: Seq<i32>) -> bool {
    forall|i: int| 0 <= i < chips.len() ==> #[trigger] chips[i] >= 0
}

/// Each player paired with the value of their seat.
pub open spec fn seat_pairs<V>(ids: Seq<u128>, vals: Seq<V>) -> Seq<(u128, V)> {
    Seq::new(ids.len(), |i: int| (ids[i], vals[i]))
}

/// Walks the suits from position `k` of `Suit::ALL` and removes the first
/// resting order with this id placed by this player, looking at the bid
/// before the ask in each suit.
pub open spec fn cancel_from(book: OrderBook, player: u128, order_id: u128, k: int) -> OrderBook
    decreases 4 - k,
{
    if k < 0 || k >= 4 {
        book
    } else {
        let s = all_suits()[k];
        let b = book.book(s);
        if b.best_bid matches Some(e) && e.order_id == order_id && e.player_id == player {
            book.with_book(s, b.without_bid(order_id))
        } else if b.best_ask matches Some(e) && e.order_id == order_id && e.player_id == player {
            book.with_book(s, b.without_ask(order_id))
        } else {
            cancel_from(book, player, order_id, k + 1)
        }
    }
}

impl EngineState {
    /// The engine's invariant.
    pub open spec fn wf(self) -> bool {
        &&& self.players.len() <= 4
        &&& self.players.no_duplicates()
        &&& self.is_bot.len() == self.players.len()
        &&& self.chips.len() == self.players.len()
        &&& self.order_book.complete()
        &&& self.order_book.prices_positive()
        &&& self.status == GameStatus::Lobby ==> {
            &&& self.hands.len() == 0
            &&& forall|i: int| 0 <= i < self.chips.len() ==> #[trigger] self.chips[i] == STARTING_CHIPS
        }
        &&& self.status != GameStatus::Lobby ==> {
            &&& self.players.len() == 4
            &&& self.hands.len() == 4
            &&& self.common_suit is Some
            &&& self.target_suit == Some(spec_cross_suit(self.common_suit.unwrap()))
            &&& cards_conserved(self.common_suit.unwrap(), self.hands)
        }
        &&& self.status == GameStatus::Active ==> chips_conserved(self.chips)
    }

    /// The seat of a player (meaningful when they are seated).
    pub open spec fn seat(self, id: u128) -> int {
        self.players.index_of(id)
    }

    /// The player's hand, if they have one.
    pub open spec fn hand(self, id: u128) -> Option<Hand> {
        if self.players.contains(id) && self.seat(id) < self.hands.len() {
            Some(self.hands[self.seat(id)])
        } else {
            None
        }
    }

    /// A fresh lobby.
    pub open spec fn initial(game_id: u128) -> EngineState {
        EngineState {
            game_id,
            status: GameStatus::Lobby,
            players: Seq::empty(),
            is_bot: Seq::empty(),
            hands: Seq::empty(),
            chips: Seq::empty(),
            order_book: OrderBook::empty(),
            trade_log: Seq::empty(),
            common_suit: None,
            target_suit: None,
            score: None,
        }
    }

    /// Why a player cannot join, if they cannot.
    pub open spec fn join_refusal(self, id: u128) -> Option<Seq<char>> {
        if self.status != GameStatus::Lobby {
            Some("Game is not in lobby"@)
        } else if self.players.len() >= 4 {
            Some("Game is full"@)
        } else if self.players.contains(id) {
            Some("Player already in game"@)
        } else {
            None
        }
    }

    /// The lobby with a player seated in the next seat with 50 chips.
    pub open spec fn with_player(self, id: u128, is_bot: bool) -> EngineState {
        EngineState {
            players: self.players.push(id),
            is_bot: self.is_bot.push(is_bot),
            chips: self.chips.push(STARTING_CHIPS),
            ..self
        }
    }

    /// Why the game cannot start, if it cannot.
    pub open spec fn start_refusal(self) -> Option<Seq<char>> {
        if self.status != GameStatus::Lobby {
            Some("Game is not in lobby"@)
        } else if self.players.len() != 4 {
            Some("Need 4 players, have "@ + count_text(self.players.len()))
        } else {
            None
        }
    }

    /// The game after dealing `hands` with common suit `common`.
    pub open spec fn with_deal(self, common: Suit, hands: Seq<Hand>) -> EngineState {
        EngineState {
            status: GameStatus::Active,
            hands,
            common_suit: Some(common),
            target_suit: Some(spec_cross_suit(common)),
            order_book: OrderBook::empty(),
            ..self
        }
    }

    /// Why a player may not act in the market, if they may not.
    pub open spec fn action_refusal(self, id: u128) -> Option<Seq<char>> {
        if self.status != GameStatus::Active {
            Some("Game is not active"@)
        } else if !self.players.contains(id) {
            Some("Player not in this game"@)
        } else {
            None
        }
    }

    /// Why a bid is refused, if it is.
    pub open spec fn bid_refusal(self, id: u128, price: i32) -> Option<Seq<char>> {
        if self.action_refusal(id) is Some {
            self.action_refusal(id)
        } else if price <= 0 {
            Some("Price must be positive"@)
        } else {
            None
        }
    }

    /// Why an ask is refused, if it is.
    pub open spec fn ask_refusal(self, id: u128, suit: Suit, price: i32) -> Option<Seq<char>> {
        if self.action_refusal(id) is Some {
            self.action_refusal(id)
        } else if self.hand(id) is None {
            Some("Player has no hand"@)
        } else if self.hand(id).unwrap().spec_count(suit) == 0 {
            Some("No "@ + suit_name(suit) + " cards to sell"@)
        } else if price <= 0 {
            Some("Price must be positive"@)
        } else {
            None
        }
    }

    /// The engine with the book of `suit` replaced.
    pub open spec fn with_suit_book(self, suit: Suit, b: SuitBook) -> EngineState {
        EngineState { order_book: self.order_book.with_book(suit, b), ..self }
    }

    /// The engine after a bid rests (or is dropped) in the book of `suit`.
    pub open spec fn with_bid(self, suit: Suit, order_id: u128, id: u128, price: i32) -> EngineState {
        self.with_suit_book(suit, self.order_book.book(suit).after_bid(order_id, id, price))
    }

    /// The engine after an ask rests (or is dropped) in the book of `suit`.
    pub open spec fn with_ask(self, suit: Suit, order_id: u128, id: u128, price: i32) -> EngineState {
        self.with_suit_book(suit, self.order_book.book(suit).after_ask(order_id, id, price))
    }

    /// The chips the buyer can spend: theirs if seated, else none.
    pub open spec fn buyer_chips(self, id: u128) -> int {
        if self.players.contains(id) {
            self.chips[self.seat(id)] as int
        } else {
            0
        }
    }

    /// When a trade between two different players passes its checks, the
    /// seller's balance plus the price fits in an `i32` (otherwise paying the
    /// seller would overflow).
    pub open spec fn sale_fits(self, buyer: u128, seller: u128, suit: Suit, price: i32) -> bool {
        (buyer != seller && self.hand(seller) is Some && self.hand(seller).unwrap().spec_count(suit) > 0
            && self.buyer_chips(buyer) >= price) ==> self.chips[self.seat(seller)] + price <= i32::MAX
    }

    /// One card of `suit` goes from seller to buyer and `price` chips from
    /// buyer to seller, and the trade is logged; or the trade is refused.
    pub open spec fn execute_trade(self, buyer: u128, seller: u128, suit: Suit, price: i32) -> (EngineState, Result<TradeRecord, Seq<char>>) {
        if self.hand(seller) is None {
            (self, Err("Seller has no hand"@))
        } else if self.hand(seller).unwrap().spec_count(suit) == 0 {
            (self, Err("Seller has no "@ + suit_name(suit) + " to sell"@))
        } else if self.buyer_chips(buyer) < price {
            (self, Err("Buyer has insufficient chips"@))
        } else {
            let b = self.seat(buyer);
            let s = self.seat(seller);
            let seller_hand = self.hands[s];
            let after_sale = self.hands.update(s, seller_hand.with_count(suit, (seller_hand.spec_count(suit) - 1) as u8));
            let buyer_hand = after_sale[b];
            let hands = after_sale.update(b, buyer_hand.with_count(suit, (buyer_hand.spec_count(suit) + 1) as u8));
            let paid = self.chips.update(b, (self.chips[b] - price) as i32);
            let chips = paid.update(s, (paid[s] + price) as i32);
            let record = TradeRecord { buyer_id: buyer, seller_id: seller, suit, price };
            (EngineState { hands, chips, trade_log: self.trade_log.push(record), ..self }, Ok(record))
        }
    }

    /// The buyer takes the best ask of `suit`.
    pub open spec fn accept_ask(self, buyer: u128, suit: Suit) -> (EngineState, Result<TradeRecord, Seq<char>>) {
        if self.action_refusal(buyer) is Some {
            (self, Err(self.action_refusal(buyer).unwrap()))
        } else {
            let b = self.order_book.book(suit);
            match b.best_ask {
                None => (self, Err("No ask to accept"@)),
                Some(ask) => if ask.player_id == buyer {
                    (self, Err("Cannot trade with yourself"@))
                } else {
                    self.with_suit_book(suit, SuitBook { best_ask: None, ..b }).execute_trade(buyer, ask.player_id, suit, ask.price)
                },
            }
        }
    }

    /// The seller takes the best bid of `suit`.
    pub open spec fn accept_bid(self, seller: u128, suit: Suit) -> (EngineState, Result<TradeRecord, Seq<char>>) {
        if self.action_refusal(seller) is Some {
            (self, Err(self.action_refusal(seller).unwrap()))
        } else {
            let b = self.order_book.book(suit);
            match b.best_bid {
                None => (self, Err("No bid to accept"@)),
                Some(bid) => if bid.player_id == seller {
                    (self, Err("Cannot trade with yourself"@))
                } else {
                    self.with_suit_book(suit, SuitBook { best_bid: None, ..b }).execute_trade(bid.player_id, seller, suit, bid.price)
                },
            }
        }
    }

    /// The engine after a player cancels one of their resting orders.
    pub open spec fn cancel_order(self, id: u128, order_id: u128) -> EngineState {
        EngineState { order_book: cancel_from(self.order_book, id, order_id, 0), ..self }
    }

    /// The host is the player in seat 0, the first to join.
    pub open spec fn is_host(self, id: u128) -> bool {
        self.players.len() > 0 && self.players[0] == id
    }

    /// Why `id` may not end the game, if they may not: only the host may,
    /// and only while trading is open.
    pub open spec fn end_request_refusal(self, id: u128) -> Option<Seq<char>> {
        if !self.is_host(id) {
            Some("Only the host can end the game"@)
        } else {
            self.end_refusal()
        }
    }

    /// Why the game cannot end, if it cannot.
    pub open spec fn end_refusal(self) -> Option<Seq<char>> {
        if self.status != GameStatus::Active {
            Some("Game is not active"@)
        } else if self.target_suit is None {
            Some("No target suit set"@)
        } else if self.common_suit is None {
            Some("No common suit set"@)
        } else {
            None
        }
    }

    /// The players with their hands, by seat.
    pub open spec fn hand_pairs(self) -> Seq<(u128, Hand)> {
        seat_pairs(self.players, self.hands)
    }

    /// The players with their chips, by seat.
    pub open spec fn chip_pairs(self) -> Seq<(u128, i32)> {
        seat_pairs(self.players, self.chips)
    }

    /// The score of the round, by seat.
    pub open spec fn final_score(self) -> ScoreModel {
        let t = self.target_suit.unwrap();
        ScoreModel {
            target_suit: t,
            common_suit: self.common_suit.unwrap(),
            pot: POT,
            results: Seq::new(self.hands.len(), |i: int| result_for(self.hand_pairs(), self.chip_pairs(), t, POT, i)),
        }
    }

    /// The finished game: chips paid out, status finished, score kept.
    pub open spec fn finished(self) -> EngineState {
        let sc = self.final_score();
        EngineState {
            chips: Seq::new(self.chips.len(), |i: int| sc.results[i].chips_end),
            status: GameStatus::Finished,
            score: Some(sc),
            ..self
        }
    }

    /// What players see: everything public, the suits only once the game is over.
    pub open spec fn public_view(self) -> GameViewModel {
        GameViewModel {
            game_id: self.game_id,
            status: self.status,
            players: self.players,
            chips: self.chips,
            order_book: self.order_book,
            trade_log: self.trade_log,
            target_suit: if self.status == GameStatus::Finished { self.target_suit } else { None },
            common_suit: if self.status == GameStatus::Finished { self.common_suit } else { None },
        }
    }
}


/// The seat of `id` among `players`, if seated.
pub(crate) fn seat_of(players: &Vec<u128>, id: u128) -> (r: Option<usize>)
    ensures
        r matches Some(i) ==> i < players@.len() && players@[i as int] == id,
        r is None ==> !players@.contains(id),
{
    let mut i: usize = 0;
    while i < players.len()
        invariant
            i <= players@.len(),
            forall|j: int| 0 <= j < i ==> players@[j] != id,
        decreases players@.len() - i,
    {
        if players[i] == id {
            return Some(i);
        }
        i += 1;
    }
    None
}

/// In a sequence without repeats, the position of an element is where it is.
proof fn lemma_index_of_unique(s: Seq<u128>, i: int)
    requires
        s.no_duplicates(),
        0 <= i < s.len(),
    ensures
        s.contains(s[i]),
        s.index_of(s[i]) == i,
{
    assert(s.contains(s[i]));
}

/// A copy of a vector of plain values.
pub(crate) fn copy_vec<T: Copy>(v: &Vec<T>) -> (r: Vec<T>)
    ensures
        r@ == v@,
{
    let mut r: Vec<T> = Vec::new();
    let mut i: usize = 0;
    while i < v.len()
        invariant
            i <= v@.len(),
            r@ == v@.subrange(0, i as int),
        decreases v@.len() - i,
    {
        r.push(v[i]);
        i += 1;
        assert(r@ =~= v@.subrange(0, i as int));
    }
    assert(r@ =~= v@);
    r
}

/// "Need 4 players, have N" for N below four.
fn need_players_message(n: usize) -> (r: String)
    requires
        n < 4,
    ensures
        r@ == "Need 4 players, have "@ + count_text(n as nat),
{
    let mut m = owned("Need 4 players, have ");
    let digit = if n == 0 {
        "0"
    } else if n == 1 {
        "1"
    } else if n == 2 {
        "2"
    } else {
        "3"
    };
    m.append(digit);
    m
}

impl GameEngine {
    pub open spec fn wf(&self) -> bool {
        self.state().wf()
    }

    pub fn new(game_id: u128) -> (r: Self)
        ensures
            r.state() == EngineState::initial(game_id),
            r.wf(),
    {
        GameEngine {
            game_id,
            status: GameStatus::Lobby,
            players: Vec::new(),
            is_bot: Vec::new(),
            hands: Vec::new(),
            chips: Vec::new(),
            order_book: OrderBook::new(),
            trade_log: Vec::new(),
            common_suit: None,
            target_suit: None,
            score_result: None,
        }
    }

    /// Whether `player_id` is the host: the player in seat 0.
    pub fn is_host(&self, player_id: u128) -> (r: bool)
        ensures
            r == self.state().is_host(player_id),
    {
        self.players.len() > 0 && self.players[0] == player_id
    }

    /// Whether every seat is taken.
    pub fn is_full(&self) -> (r: bool)
        ensures
            r == (self.players@.len() == SEATS),
    {
        self.players.len() == SEATS
    }

    /// Add a player (human or bot) to the lobby. Returns their seat index.
    pub fn add_player(&mut self, player_id: u128, is_bot: bool) -> (r: Result<usize, String>)
        requires
            old(self).wf(),
        ensures
            final(self).wf(),
            match r {
                Ok(seat) => {
                    &&& old(self).state().join_refusal(player_id) is None
                    &&& seat == old(self).state().players.len()
                    &&& final(self).state() == old(self).state().with_player(player_id, is_bot)
                },
                Err(e) => {
                    &&& old(self).state().join_refusal(player_id) == Some(e@)
                    &&& final(self).state() == old(self).state()
                },
            },
    {
        if self.status != GameStatus::Lobby {
            return Err(owned("Game is not in lobby"));
        }
        if self.players.len() >= 4 {
            return Err(owned("Game is full"));
        }
        if seat_of(&self.players, player_id).is_some() {
            return Err(owned("Player already in game"));
        }
        let seat = self.players.len();
        self.players.push(player_id);
        self.is_bot.push(is_bot);
        self.chips.push(STARTING_CHIPS);
        assert(self.state() == old(self).state().with_player(player_id, is_bot));
        Ok(seat)
    }

    /// Start the game: deal cards, transition to Active.
    ///
    /// The common suit and the order of the deck are random; whatever they
    /// are, each seat holds ten cards and the seats together hold the deck.
    pub fn start(&mut self) -> (r: Result<(), String>)
        requires
            old(self).wf(),
        ensures
            final(self).wf(),
            match r {
                Ok(()) => {
                    &&& old(self).state().start_refusal() is None
                    &&& final(self).common_suit is Some
                    &&& final(self).state() == old(self).state().with_deal(final(self).common_suit.unwrap(), final(self).hands@)
                    &&& fair_deal(final(self).common_suit.unwrap(), final(self).hands@)
                },
                Err(e) => {
                    &&& old(self).state().start_refusal() == Some(e@)
                    &&& final(self).state() == old(self).state()
                },
            },
    {
        if self.status != GameStatus::Lobby {
            return Err(owned("Game is not in lobby"));
        }
        if self.players.len() != 4 {
            return Err(need_players_message(self.players.len()));
        }
        let player_arr: [u128; 4] = [self.players[0], self.players[1], self.players[2], self.players[3]];
        assert(player_arr@ =~= self.players@);
        let deal_result = dealer::deal(&player_arr);
        self.install_deal(deal_result);
        Ok(())
    }

    /// Seats the dealt hands, reveals nothing, clears the book and opens trading.
    fn install_deal(&mut self, deal_result: DealResult)
        requires
            old(self).wf(),
            old(self).status == GameStatus::Lobby,
            old(self).players@.len() == 4,
            exists|deck: Seq<Suit>|
                #![trigger dealer::deal_matches(old(self).players@, deal_result.common_suit, deck, deal_result)]
                deck.len() == 40 && is_full_deck(deal_result.common_suit, deck)
                    && dealer::deal_matches(old(self).players@, deal_result.common_suit, deck, deal_result),
        ensures
            final(self).wf(),
            final(self).common_suit == Some(deal_result.common_suit),
            final(self).state() == old(self).state().with_deal(deal_result.common_suit, final(self).hands@),
            fair_deal(deal_result.common_suit, final(self).hands@),
    {
        let ghost ids = self.players@;
        let ghost common = deal_result.common_suit;
        let ghost deck = choose|deck: Seq<Suit>|
            deck.len() == 40 && is_full_deck(common, deck) && dealer::deal_matches(ids, common, deck, deal_result);
        proof {
            dealer::lemma_deal_to_distinct_players(ids, common, deck, deal_result);
        }
        let mut hands: Vec<Hand> = Vec::new();
        let mut i: usize = 0;
        while i < 4
            invariant
                i <= 4,
                self.players@ == ids,
                ids.len() == 4,
                dealer::keys_distinct(deal_result.hands@),
                forall|j: int| 0 <= j < 4 ==> #[trigger] pairs_map(deal_result.hands@).contains_key(ids[j]),
                forall|j: int| 0 <= j < 4 ==> #[trigger] pairs_map(deal_result.hands@)[ids[j]] == hand_of(seat_cards(deck, j)),
                hands@.len() == i,
                forall|j: int| 0 <= j < i ==> #[trigger] hands@[j] == hand_of(seat_cards(deck, j)),
            decreases 4 - i,
        {
            let id = self.players[i];
            let pos = dealer::find_key(&deal_result.hands, id);
            proof {
                assert(pairs_map(deal_result.hands@).contains_key(ids[i as int]));
                match pos {
                    Some(k) => dealer::lemma_pairs_map_lookup(deal_result.hands@, k as int),
                    None => dealer::lemma_pairs_map_absent(deal_result.hands@, id),
                }
            }
            let k = pos.unwrap();
            hands.push(deal_result.hands[k].1);
            i += 1;
        }
        self.hands = hands;
        self.common_suit = Some(deal_result.common_suit);
        self.target_suit = Some(deal_result.target_suit);
        self.order_book = OrderBook::new();
        self.status = GameStatus::Active;
        proof {
            assert forall|s: Suit| #[trigger] suit_total(self.hands@, s) == deck_count(common, s) by {
                assert(self.hands@[0] == hand_of(seat_cards(deck, 0)));
                assert(self.hands@[1] == hand_of(seat_cards(deck, 1)));
                assert(self.hands@[2] == hand_of(seat_cards(deck, 2)));
                assert(self.hands@[3] == hand_of(seat_cards(deck, 3)));
            }
            assert forall|j: int| 0 <= j < 4 implies (#[trigger] self.hands@[j]).spec_total() == 10 by {
                assert(self.hands@[j] == hand_of(seat_cards(deck, j)));
            }
            assert(old(self).chips@[0] == STARTING_CHIPS);
            assert(old(self).chips@[1] == STARTING_CHIPS);
            assert(old(self).chips@[2] == STARTING_CHIPS);
            assert(old(self).chips@[3] == STARTING_CHIPS);
        }
    }

    /// Place a bid (offer to buy) on a suit at a price.
    /// Returns the new order_id if successful.
    ///
    /// The id is a fresh random one; whatever it is, the bid rests in the
    /// book of the suit unless a bid at least as high is already there.
    pub fn place_bid(&mut self, player_id: u128, suit: Suit, price: i32) -> (r: Result<u128, String>)
        requires
            old(self).wf(),
        ensures
            final(self).wf(),
            match r {
                Ok(order_id) => {
                    &&& old(self).state().bid_refusal(player_id, price) is None
                    &&& final(self).state() == old(self).state().with_bid(suit, order_id, player_id, price)
                    &&& is_fresh_order_id(order_id)
                },
                Err(e) => {
                    &&& old(self).state().bid_refusal(player_id, price) == Some(e@)
                    &&& final(self).state() == old(self).state()
                },
            },
    {
        if let Err(e) = self.require_active() {
            return Err(e);
        }
        if let Err(e) = self.require_player(player_id) {
            return Err(e);
        }
        if price <= 0 {
            return Err(owned("Price must be positive"));
        }
        let order_id = crate::rng::new_v4_id();
        self.order_book.suit_mut(suit).place_bid(order_id, player_id, price);
        Ok(order_id)
    }

    /// Place an ask (offer to sell) on a suit at a price.
    ///
    /// The id is a fresh random one; whatever it is, the ask rests in the
    /// book of the suit unless an ask at least as low is already there.
    pub fn place_ask(&mut self, player_id: u128, suit: Suit, price: i32) -> (r: Result<u128, String>)
        requires
            old(self).wf(),
        ensures
            final(self).wf(),
            match r {
                Ok(order_id) => {
                    &&& old(self).state().ask_refusal(player_id, suit, price) is None
                    &&& final(self).state() == old(self).state().with_ask(suit, order_id, player_id, price)
                    &&& is_fresh_order_id(order_id)
                },
                Err(e) => {
                    &&& old(self).state().ask_refusal(player_id, suit, price) == Some(e@)
                    &&& final(self).state() == old(self).state()
                },
            },
    {
        if let Err(e) = self.require_active() {
            return Err(e);
        }
        if let Err(e) = self.require_player(player_id) {
            return Err(e);
        }
        let count = match self.hand_for(player_id) {
            None => {
                return Err(owned("Player has no hand"));
            },
            Some(hand) => hand.count(suit),
        };
        if count == 0 {
            let mut m = owned("No ");
            m.append(suit.as_str());
            m.append(" cards to sell");
            return Err(m);
        }
        if price <= 0 {
            return Err(owned("Price must be positive"));
        }
        let order_id = crate::rng::new_v4_id();
        self.order_book.suit_mut(suit).place_ask(order_id, player_id, price);
        Ok(order_id)
    }

    /// Get a player's private hand (only sent to that player).
    pub fn hand_for(&self, player_id: u128) -> (r: Option<&Hand>)
        requires
            self.wf(),
        ensures
            match r {
                Some(h) => self.state().hand(player_id) == Some(*h),
                None => self.state().hand(player_id) is None,
            },
    {
        match seat_of(&self.players, player_id) {
            Some(i) => {
                proof {
                    lemma_index_of_unique(self.players@, i as int);
                }
                if i < self.hands.len() {
                    Some(&self.hands[i])
                } else {
                    None
                }
            },
            None => None,
        }
    }

    fn require_active(&self) -> (r: Result<(), String>)
        ensures
            r is Ok <==> self.status == GameStatus::Active,
            r matches Err(e) ==> e@ == "Game is not active"@,
    {
        if self.status != GameStatus::Active {
            Err(owned("Game is not active"))
        } else {
            Ok(())
        }
    }

    fn require_player(&self, player_id: u128) -> (r: Result<(), String>)
        ensures
            r is Ok <==> self.players@.contains(player_id),
            r matches Err(e) ==> e@ == "Player not in this game"@,
    {
        if seat_of(&self.players, player_id).is_none() {
            Err(owned("Player not in this game"))
        } else {
            Ok(())
        }
    }

    /// Accept the best ask for a suit (buy). Returns completed TradeRecord.
    ///
    /// The ask leaves the book as soon as it is taken; it goes back only
    /// when the buyer placed it.
    pub fn accept_ask(&mut self, buyer_id: u128, suit: Suit) -> (r: Result<TradeRecord, String>)
        requires
            old(self).wf(),
        ensures
            final(self).wf(),
            (final(self).state(), outcome(r)) == old(self).state().accept_ask(buyer_id, suit),
    {
        if let Err(e) = self.require_active() {
            return Err(e);
        }
        if let Err(e) = self.require_player(buyer_id) {
            return Err(e);
        }
        let ask = match self.order_book.suit_mut(suit).take_ask() {
            Some(ask) => ask,
            None => {
                return Err(owned("No ask to accept"));
            },
        };
        if ask.player_id == buyer_id {
            // Put it back and error
            self.order_book.suit_mut(suit).place_ask(ask.order_id, ask.player_id, ask.price);
            return Err(owned("Cannot trade with yourself"));
        }
        proof {
            crate::game::laws::lemma_active_sale_fits(self.state(), buyer_id, ask.player_id, suit, ask.price);
        }
        self.execute_trade(buyer_id, ask.player_id, suit, ask.price)
    }

    /// Accept the best bid for a suit (sell). Returns completed TradeRecord.
    ///
    /// The bid leaves the book as soon as it is taken; it goes back only
    /// when the seller placed it.
    pub fn accept_bid(&mut self, seller_id: u128, suit: Suit) -> (r: Result<TradeRecord, String>)
        requires
            old(self).wf(),
        ensures
            final(self).wf(),
            (final(self).state(), outcome(r)) == old(self).state().accept_bid(seller_id, suit),
    {
        if let Err(e) = self.require_active() {
            return Err(e);
        }
        if let Err(e) = self.require_player(seller_id) {
            return Err(e);
        }
        let bid = match self.order_book.suit_mut(suit).take_bid() {
            Some(bid) => bid,
            None => {
                return Err(owned("No bid to accept"));
            },
        };
        if bid.player_id == seller_id {
            self.order_book.suit_mut(suit).place_bid(bid.order_id, bid.player_id, bid.price);
            return Err(owned("Cannot trade with yourself"));
        }
        proof {
            crate::game::laws::lemma_active_sale_fits(self.state(), bid.player_id, seller_id, suit, bid.price);
        }
        self.execute_trade(bid.player_id, seller_id, suit, bid.price)
    }

    fn execute_trade(&mut self, buyer_id: u128, seller_id: u128, suit: Suit, price: i32) -> (r: Result<TradeRecord, String>)
        requires
            old(self).wf(),
            price > 0,
            old(self).state().sale_fits(buyer_id, seller_id, suit, price),
        ensures
            final(self).wf(),
            (final(self).state(), outcome(r)) == old(self).state().execute_trade(buyer_id, seller_id, suit, price),
    {
        proof {
            crate::game::laws::lemma_trade_conserves(self.state(), buyer_id, seller_id, suit, price);
        }
        // Verify seller still has the card
        let s = match seat_of(&self.players, seller_id) {
            Some(s) => s,
            None => {
                return Err(owned("Seller has no hand"));
            },
        };
        proof {
            lemma_index_of_unique(self.players@, s as int);
        }
        if s >= self.hands.len() {
            return Err(owned("Seller has no hand"));
        }
        if self.hands[s].count(suit) == 0 {
            let mut m = owned("Seller has no ");
            m.append(suit.as_str());
            m.append(" to sell");
            return Err(m);
        }
        // Verify buyer has enough chips
        let buyer_seat = seat_of(&self.players, buyer_id);
        let buyer_chips = match buyer_seat {
            Some(b) => self.chips[b],
            None => 0,
        };
        proof {
            if let Some(b) = buyer_seat {
                lemma_index_of_unique(self.players@, b as int);
            }
        }
        if buyer_chips < price {
            return Err(owned("Buyer has insufficient chips"));
        }
        let b = buyer_seat.unwrap();
        let ghost common = self.common_suit.unwrap();
        let ghost hands0 = self.hands@;
        let ghost chips0 = self.chips@;
        assert(suit_total(hands0, suit) == deck_count(common, suit));

        // Transfer card
        let mut seller_hand = self.hands[s];
        seller_hand.remove(suit);
        self.hands.set(s, seller_hand);
        let mut buyer_hand = self.hands[b];
        buyer_hand.add(suit);
        self.hands.set(b, buyer_hand);

        // Transfer chips
        let paid = self.chips[b] - price;
        self.chips.set(b, paid);
        let received = self.chips[s] + price;
        self.chips.set(s, received);

        let record = TradeRecord { buyer_id, seller_id, suit, price };
        self.trade_log.push(record);
        Ok(record)
    }

    /// Cancel an order by ID (searches all suits).
    pub fn cancel_order(&mut self, player_id: u128, order_id: u128)
        requires
            old(self).wf(),
        ensures
            final(self).wf(),
            final(self).state() == old(self).state().cancel_order(player_id, order_id),
    {
        let ghost book0 = self.order_book;
        let mut k: usize = 0;
        while k < 4
            invariant
                k <= 4,
                self.state() == old(self).state(),
                self.order_book == book0,
                old(self).state().wf(),
                cancel_from(book0, player_id, order_id, 0) == cancel_from(book0, player_id, order_id, k as int),
            decreases 4 - k,
        {
            let suit = Suit::ALL[k];
            assert(suit == all_suits()[k as int]);
            let book: SuitBook = match self.order_book.suit(suit) {
                Some(b) => *b,
                None => SuitBook::default(),
            };
            let bid_matches = match book.best_bid {
                Some(bid) => bid.order_id == order_id && bid.player_id == player_id,
                None => false,
            };
            if bid_matches {
                self.order_book.suit_mut(suit).cancel_bid(order_id);
                return;
            }
            let ask_matches = match book.best_ask {
                Some(ask) => ask.order_id == order_id && ask.player_id == player_id,
                None => false,
            };
            if ask_matches {
                self.order_book.suit_mut(suit).cancel_ask(order_id);
                return;
            }
            k += 1;
        }
    }

    /// End the trading phase and compute final scores.
    pub fn end_game(&mut self) -> (r: Result<ScoreResult, String>)
        requires
            old(self).wf(),
        ensures
            final(self).wf(),
            match r {
                Ok(result) => {
                    &&& old(self).state().end_refusal() is None
                    &&& result@ == old(self).state().final_score()
                    &&& final(self).state() == old(self).state().finished()
                },
                Err(e) => {
                    &&& old(self).state().end_refusal() == Some(e@)
                    &&& final(self).state() == old(self).state()
                },
            },
    {
        if self.status != GameStatus::Active {
            return Err(owned("Game is not active"));
        }
        let target = match self.target_suit {
            Some(t) => t,
            None => {
                return Err(owned("No target suit set"));
            },
        };
        let common = match self.common_suit {
            Some(c) => c,
            None => {
                return Err(owned("No common suit set"));
            },
        };
        let ghost st = self.state();
        let mut hand_pairs: Vec<(u128, Hand)> = Vec::new();
        let mut chip_pairs: Vec<(u128, i32)> = Vec::new();
        let mut i: usize = 0;
        while i < 4
            invariant
                i <= 4,
                self.state() == st,
                st.wf(),
                st.status == GameStatus::Active,
                hand_pairs@ == st.hand_pairs().subrange(0, i as int),
                chip_pairs@ == st.chip_pairs().subrange(0, i as int),
            decreases 4 - i,
        {
            hand_pairs.push((self.players[i], self.hands[i]));
            chip_pairs.push((self.players[i], self.chips[i]));
            i += 1;
            assert(hand_pairs@ =~= st.hand_pairs().subrange(0, i as int));
            assert(chip_pairs@ =~= st.chip_pairs().subrange(0, i as int));
        }
        assert(hand_pairs@ =~= st.hand_pairs());
        assert(chip_pairs@ =~= st.chip_pairs());
        proof {
            lemma_score_fits(st);
        }
        let result = score_round(target, common, &hand_pairs, &chip_pairs, POT);

        // Apply chip changes
        let mut i: usize = 0;
        while i < result.results.len()
            invariant
                i <= result.results@.len(),
                result.results@.len() == 4,
                self.chips@.len() == 4,
                forall|j: int| 0 <= j < i ==> #[trigger] self.chips@[j] == result.results@[j].chips_end,
                forall|j: int| i <= j < 4 ==> #[trigger] self.chips@[j] == st.chips[j],
                self.players@ == st.players,
                self.hands@ == st.hands,
                self.status == st.status,
                self.order_book == st.order_book,
                self.trade_log@ == st.trade_log,
                self.common_suit == st.common_suit,
                self.target_suit == st.target_suit,
                self.is_bot@ == st.is_bot,
                self.game_id == st.game_id,
                self.score_result.is_none() == st.score.is_none(),
                self.score_result matches Some(sr) ==> st.score == Some(sr@),
            decreases result.results@.len() - i,
        {
            self.chips.set(i, result.results[i].chips_end);
            i += 1;
        }

        self.status = GameStatus::Finished;
        self.score_result = Some(result.duplicate());
        proof {
            assert(result@.results =~= st.final_score().results);
            assert(self.chips@ =~= st.finished().chips);
        }
        Ok(result)
    }

    /// Build a public game view (hides suit identity until game over).
    pub fn view(&self) -> (r: GameView)
        ensures
            r@ == self.state().public_view(),
            r.game_id == self.game_id,
            r.status == self.status,
            r.players@ == self.players@,
            r.chips@ == self.chips@,
            r.order_book == self.order_book,
            r.trade_log@ == self.trade_log@,
            r.target_suit == (if self.status == GameStatus::Finished { self.target_suit } else { None }),
            r.common_suit == (if self.status == GameStatus::Finished { self.common_suit } else { None }),
    {
        let finished = self.status == GameStatus::Finished;
        GameView {
            game_id: self.game_id,
            status: self.status,
            players: copy_vec(&self.players),
            chips: copy_vec(&self.chips),
            order_book: self.order_book,
            trade_log: copy_vec(&self.trade_log),
            target_suit: if finished { self.target_suit } else { None },
            common_suit: if finished { self.common_suit } else { None },
        }
    }
}

pub proof fn lemma_chips_before_seat(ids: Seq<u128>, vals: Seq<i32>, i: int)
    requires
        ids.no_duplicates(),
        ids.len() == vals.len(),
        0 <= i < ids.len(),
    ensures
        chips_before(seat_pairs(ids, vals), ids[i]) == vals[i],
    decreases i,
{
    let p = seat_pairs(ids, vals);
    if i > 0 {
        assert(p.drop_first() =~= seat_pairs(ids.drop_first(), vals.drop_first()));
        assert(ids.drop_first().no_duplicates());
        lemma_chips_before_seat(ids.drop_first(), vals.drop_first(), i - 1);
        assert(ids[0] != ids[i]);
    }
}

/// In an active game every payout fits: chips are at most 200, target cards
/// at most 12, the pot 200.
proof fn lemma_score_fits(st: EngineState)
    requires
        st.wf(),
        st.status == GameStatus::Active,
    ensures
        crate::game::scoring::score_fits(st.hand_pairs(), st.chip_pairs(), st.target_suit.unwrap(), POT),
{
    let t = st.target_suit.unwrap();
    let c = st.common_suit.unwrap();
    assert forall|i: int| 0 <= i < st.hand_pairs().len() implies {
        &&& i32::MIN <= #[trigger] chips_before(st.chip_pairs(), st.hand_pairs()[i].0)
            + 10 * target_cards_of(st.hand_pairs(), t, i) <= i32::MAX
        &&& i32::MIN <= chips_after(st.hand_pairs(), st.chip_pairs(), t, POT, i) <= i32::MAX
    } by {
        lemma_chips_before_seat(st.players, st.chips, i);
        assert(st.hand_pairs()[i].0 == st.players[i]);
        assert(suit_total(st.hands, t) == deck_count(c, t));
        assert(st.chips[0] >= 0 && st.chips[1] >= 0 && st.chips[2] >= 0 && st.chips[3] >= 0);
        assert(st.hand_pairs()[i].1 == st.hands[i]);
    }
}

} // verus!
