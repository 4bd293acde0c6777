use figgie_server::game::order_book::{OrderBook, OrderEntry, SuitBook};
use figgie_server::models::card::Suit;

fn entry(order_id: u128, player_id: u128, price: i32) -> OrderEntry {
    OrderEntry { order_id, player_id, price }
}

#[test]
fn best_bid_keeps_the_highest() {
    let mut b = SuitBook::default();
    b.place_bid(1, 10, 5);
    assert_eq!(b.best_bid, Some(entry(1, 10, 5)));
    b.place_bid(2, 11, 4);
    assert_eq!(b.best_bid, Some(entry(1, 10, 5)));
    b.place_bid(3, 12, 5);
    assert_eq!(b.best_bid, Some(entry(1, 10, 5)));
    b.place_bid(4, 13, 7);
    assert_eq!(b.best_bid, Some(entry(4, 13, 7)));
    assert_eq!(b.best_ask, None);
}

#[test]
fn best_ask_keeps_the_lowest() {
    let mut b = SuitBook::default();
    b.place_ask(1, 10, 9);
    b.place_ask(2, 11, 12);
    assert_eq!(b.best_ask, Some(entry(1, 10, 9)));
    b.place_ask(3, 12, 9);
    assert_eq!(b.best_ask, Some(entry(1, 10, 9)));
    b.place_ask(4, 13, 3);
    assert_eq!(b.best_ask, Some(entry(4, 13, 3)));
    assert_eq!(b.best_bid, None);
}

#[test]
fn cancel_needs_the_resting_order_id() {
    let mut b = SuitBook::default();
    b.place_bid(1, 10, 5);
    b.place_ask(2, 10, 8);
    b.cancel_bid(2);
    assert_eq!(b.best_bid, Some(entry(1, 10, 5)));
    b.cancel_ask(1);
    assert_eq!(b.best_ask, Some(entry(2, 10, 8)));
    b.cancel_bid(1);
    assert_eq!(b.best_bid, None);
    b.cancel_ask(2);
    assert_eq!(b.best_ask, None);
}

#[test]
fn take_removes_and_returns() {
    let mut b = SuitBook::default();
    assert_eq!(b.take_bid(), None);
    b.place_bid(1, 10, 5);
    b.place_ask(2, 11, 6);
    assert_eq!(b.take_bid(), Some(entry(1, 10, 5)));
    assert_eq!(b.best_bid, None);
    assert_eq!(b.take_ask(), Some(entry(2, 11, 6)));
    assert_eq!(b.best_ask, None);
}

#[test]
fn take_and_put_back_restores_book() {
    let mut b = SuitBook::default();
    b.place_ask(2, 11, 6);
    b.place_bid(1, 10, 5);
    let before = b;
    let a = b.take_ask().unwrap();
    b.place_ask(a.order_id, a.player_id, a.price);
    assert_eq!(b, before);
}

#[test]
fn order_book_has_a_book_per_suit() {
    let mut book = OrderBook::new();
    for s in Suit::ALL {
        assert_eq!(book.suit(s), Some(&SuitBook::default()));
    }
    book.suit_mut(Suit::Diamonds).place_bid(7, 8, 3);
    assert_eq!(book.suit(Suit::Diamonds).unwrap().best_bid, Some(entry(7, 8, 3)));
    assert_eq!(book.suit(Suit::Spades), Some(&SuitBook::default()));
}

#[test]
fn default_order_book_has_no_entries_until_used() {
    let mut book = OrderBook::default();
    assert_ne!(book, OrderBook::new());
    for s in Suit::ALL {
        assert_eq!(book.suit(s), None);
    }
    book.suit_mut(Suit::Hearts).place_ask(1, 2, 3);
    assert_eq!(book.suit(Suit::Hearts).unwrap().best_ask, Some(entry(1, 2, 3)));
    assert_eq!(book.suit(Suit::Clubs), None);
    assert_eq!(*OrderBook::default().suit_mut(Suit::Clubs), SuitBook::default());
}
