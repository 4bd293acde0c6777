//! The per-suit order book: a single best bid and a single best ask per suit.

use vstd::prelude::*;
use crate::models::card::Suit;

verus! {

/// A resting order: who placed it, under which id, at what price.
#[derive(Debug, Clone, Copy, PartialEq, Eq, Structural)]
pub struct OrderEntry {
    pub order_id: u128,
    pub player_id: u128,
    pub price: i32,
}

/// In-memory per-suit order book holding the single best bid and best ask.
/// Figgie uses a simple "last bid / last ask" market, not a full depth book.
#[derive(Debug, Clone, Copy, PartialEq, Eq, Structural)]
pub struct SuitBook {
    /// highest bid
    pub best_bid: Option<OrderEntry>,
    /// lowest ask
    pub best_ask: Option<OrderEntry>,
}

impl SuitBook {
    /// The book with neither a bid nor an ask.
    pub open spec fn empty() -> SuitBook {
        SuitBook { best_bid: None, best_ask: None }
    }

    /// The book after a bid: it replaces the best bid unless that is at
    /// least as high.
    pub open spec fn after_bid(self, order_id: u128, player_id: u128, price: i32) -> SuitBook {
        match self.best_bid {
            Some(existing) if existing.price >= price => self,
            _ => SuitBook {
                best_bid: Some(OrderEntry { order_id, player_id, price }),
                ..self
            },
        }
    }

    /// The book after an ask: it replaces the best ask unless that is at
    /// most as high.
    pub open spec fn after_ask(self, order_id: u128, player_id: u128, price: i32) -> SuitBook {
        match self.best_ask {
            Some(existing) if existing.price <= price => self,
            _ => SuitBook {
                best_ask: Some(OrderEntry { order_id, player_id, price }),
                ..self
            },
        }
    }

    /// The book with the best bid removed if it carries `order_id`.
    pub open spec fn without_bid(self, order_id: u128) -> SuitBook {
        match self.best_bid {
            Some(bid) if bid.order_id == order_id => SuitBook { best_bid: None, ..self },
            _ => self,
        }
    }

    /// The book with the best ask removed if it carries `order_id`.
    pub open spec fn without_ask(self, order_id: u128) -> SuitBook {
        match self.best_ask {
            Some(ask) if ask.order_id == order_id => SuitBook { best_ask: None, ..self },
            _ => self,
        }
    }

    /// Every resting order has a positive price.
    pub open spec fn prices_positive(self) -> bool {
        &&& (self.best_bid matches Some(b) ==> b.price > 0)
        &&& (self.best_ask matches Some(a) ==> a.price > 0)
    }

    pub fn place_bid(&mut self, order_id: u128, player_id: u128, price: i32)
        ensures
            *final(self) == old(self).after_bid(order_id, player_id, price),
    {
        match &self.best_bid {
            Some(existing) if existing.price >= price => {},  // existing is at least as good
            _ => {
                self.best_bid = Some(OrderEntry { order_id, player_id, price });
            },
        }
    }

    pub fn place_ask(&mut self, order_id: u128, player_id: u128, price: i32)
        ensures
            *final(self) == old(self).after_ask(order_id, player_id, price),
    {
        match &self.best_ask {
            Some(existing) if existing.price <= price => {},  // existing is at least as good
            _ => {
                self.best_ask = Some(OrderEntry { order_id, player_id, price });
            },
        }
    }

    pub fn cancel_bid(&mut self, order_id: u128)
        ensures
            *final(self) == old(self).without_bid(order_id),
            final(self).best_ask == old(self).best_ask,
            final(self).best_bid == (if old(self).best_bid matches Some(b) && b.order_id == order_id {
                None
            } else {
                old(self).best_bid
            }),
    {
        let remove = match &self.best_bid {
            Some(bid) => bid.order_id == order_id,
            None => false,
        };
        if remove {
            self.best_bid = None;
        }
    }

    pub fn cancel_ask(&mut self, order_id: u128)
        ensures
            *final(self) == old(self).without_ask(order_id),
            final(self).best_bid == old(self).best_bid,
            final(self).best_ask == (if old(self).best_ask matches Some(a) && a.order_id == order_id {
                None
            } else {
                old(self).best_ask
            }),
    {
        let remove = match &self.best_ask {
            Some(ask) => ask.order_id == order_id,
            None => false,
        };
        if remove {
            self.best_ask = None;
        }
    }

    /// Removes and returns the best bid.
    pub fn take_bid(&mut self) -> (r: Option<OrderEntry>)
        ensures
            r == old(self).best_bid,
            *final(self) == (SuitBook { best_bid: None, ..*old(self) }),
    {
        let r = self.best_bid;
        self.best_bid = None;
        r
    }

    /// Removes and returns the best ask.
    pub fn take_ask(&mut self) -> (r: Option<OrderEntry>)
        ensures
            r == old(self).best_ask,
            *final(self) == (SuitBook { best_ask: None, ..*old(self) }),
    {
        let r = self.best_ask;
        self.best_ask = None;
        r
    }
}

impl Default for SuitBook {
    fn default() -> (r: SuitBook)
        ensures
            r == SuitBook::empty(),
    {
        SuitBook { best_bid: None, best_ask: None }
    }
}

/// Full order book across all 4 suits: a book per suit name, where a suit
/// without an entry has none yet.
#[derive(Debug, Clone, Copy, PartialEq, Eq, Structural)]
pub struct OrderBook {
    pub spades: Option<SuitBook>,
    pub hearts: Option<SuitBook>,
    pub diamonds: Option<SuitBook>,
    pub clubs: Option<SuitBook>,
}

impl OrderBook {
    /// The entry of one suit, if it has one.
    pub open spec fn entry(self, suit: Suit) -> Option<SuitBook> {
        match suit {
            Suit::Spades => self.spades,
            Suit::Hearts => self.hearts,
            Suit::Diamonds => self.diamonds,
            Suit::Clubs => self.clubs,
        }
    }

    /// The book of one suit; a suit without an entry has an empty book.
    pub open spec fn book(self, suit: Suit) -> SuitBook {
        match self.entry(suit) {
            Some(b) => b,
            None => SuitBook::empty(),
        }
    }

    /// The order book with the book of `suit` set to `b`.
    pub open spec fn with_book(self, suit: Suit, b: SuitBook) -> OrderBook {
        match suit {
            Suit::Spades => OrderBook { spades: Some(b), ..self },
            Suit::Hearts => OrderBook { hearts: Some(b), ..self },
            Suit::Diamonds => OrderBook { diamonds: Some(b), ..self },
            Suit::Clubs => OrderBook { clubs: Some(b), ..self },
        }
    }

    /// The order book with an empty book for every suit.
    pub open spec fn empty() -> OrderBook {
        OrderBook {
            spades: Some(SuitBook::empty()),
            hearts: Some(SuitBook::empty()),
            diamonds: Some(SuitBook::empty()),
            clubs: Some(SuitBook::empty()),
        }
    }

    /// The order book with no entry at all.
    pub open spec fn no_entries() -> OrderBook {
        OrderBook { spades: None, hearts: None, diamonds: None, clubs: None }
    }

    /// Every suit has an entry.
    pub open spec fn complete(self) -> bool {
        &&& self.spades is Some
        &&& self.hearts is Some
        &&& self.diamonds is Some
        &&& self.clubs is Some
    }

    /// Every resting order in every suit has a positive price.
    pub open spec fn prices_positive(self) -> bool {
        &&& self.book(Suit::Spades).prices_positive()
        &&& self.book(Suit::Hearts).prices_positive()
        &&& self.book(Suit::Diamonds).prices_positive()
        &&& self.book(Suit::Clubs).prices_positive()
    }

    /// A book with an empty entry for every suit.
    pub fn new() -> (r: Self)
        ensures
            r == OrderBook::empty(),
    {
        OrderBook {
            spades: Some(SuitBook::default()),
            hearts: Some(SuitBook::default()),
            diamonds: Some(SuitBook::default()),
            clubs: Some(SuitBook::default()),
        }
    }

    /// The book of one suit, to change in place; a suit without an entry
    /// gets an empty one first.
    pub fn suit_mut(&mut self, suit: Suit) -> (r: &mut SuitBook)
        ensures
            *r == old(self).book(suit),
            *final(self) == old(self).with_book(suit, *final(r)),
    {
        match suit {
            Suit::Spades => self.spades.get_or_insert(SuitBook::default()),
            Suit::Hearts => self.hearts.get_or_insert(SuitBook::default()),
            Suit::Diamonds => self.diamonds.get_or_insert(SuitBook::default()),
            Suit::Clubs => self.clubs.get_or_insert(SuitBook::default()),
        }
    }

    /// The book of one suit, if it has an entry.
    pub fn suit(&self, suit: Suit) -> (r: Option<&SuitBook>)
        ensures
            match r {
                Some(b) => self.entry(suit) == Some(*b),
                None => self.entry(suit) is None,
            },
    {
        match suit {
            Suit::Spades => self.spades.as_ref(),
            Suit::Hearts => self.hearts.as_ref(),
            Suit::Diamonds => self.diamonds.as_ref(),
            Suit::Clubs => self.clubs.as_ref(),
        }
    }
}

impl Default for OrderBook {
    /// A book with no entry for any suit.
    fn default() -> (r: OrderBook)
        ensures
            r == OrderBook::no_entries(),
    {
        OrderBook { spades: None, hearts: None, diamonds: None, clubs: None }
    }
}

} // verus!
