//! Building the 40-card deck and dealing it to four seats.

use vstd::prelude::*;
use vstd::multiset::Multiset;
use crate::models::card::{Hand, Suit, spec_cross_suit, all_suits};
use crate::rng::{choose_suit, shuffle_suits};

verus! {

/// The result of a deal: the hidden suits and each player's hand.
pub struct DealResult {
    pub common_suit: Suit,
    pub target_suit: Suit,
    /// Each player of the deal with their hand, one entry per distinct player
    /// (an association list standing for a map keyed by player id).
    pub hands: Vec<(u128, Hand)>,
}

/// How many cards of suit `s` the 40-card deck holds when `common` is the
/// common suit: 12 of the common suit, 10 of its cross-suit (the target),
/// and the remaining 18 split evenly, 9 each, between the other two suits.
///
/// This split is a choice: 8 cards each for the other two suits would make
/// 12 + 10 + 8 + 8 = 38 cards, two short of the four hands of ten that are
/// dealt, so dealing could not go through; 9 and 9 keeps both the 40-card
/// total and the 12-card common and 10-card target suits.
pub open spec fn deck_count(common: Suit, s: Suit) -> nat {
    if s == common {
        12
    } else if s == spec_cross_suit(common) {
        10
    } else {
        9
    }
}

/// `n` cards of suit `s`.
pub open spec fn cards_of(s: Suit, n: nat) -> Seq<Suit> {
    Seq::new(n, |i: int| s)
}

/// The unshuffled deck: the suits in `Suit::ALL` order, each repeated
/// `deck_count` times.
pub open spec fn spec_deck(common: Suit) -> Seq<Suit> {
    cards_of(Suit::Spades, deck_count(common, Suit::Spades))
        + cards_of(Suit::Hearts, deck_count(common, Suit::Hearts))
        + cards_of(Suit::Diamonds, deck_count(common, Suit::Diamonds))
        + cards_of(Suit::Clubs, deck_count(common, Suit::Clubs))
}

/// How many of `cards` are of suit `s`.
pub open spec fn occurrences(cards: Seq<Suit>, s: Suit) -> nat {
    cards.to_multiset().count(s)
}

/// The hand holding exactly `cards` (for at most 255 cards).
pub open spec fn hand_of(cards: Seq<Suit>) -> Hand {
    Hand {
        spades: occurrences(cards, Suit::Spades) as u8,
        hearts: occurrences(cards, Suit::Hearts) as u8,
        diamonds: occurrences(cards, Suit::Diamonds) as u8,
        clubs: occurrences(cards, Suit::Clubs) as u8,
    }
}

/// The cards that seat `seat` receives from a deck: ten in a row.
pub open spec fn seat_cards(deck: Seq<Suit>, seat: int) -> Seq<Suit> {
    deck.subrange(10 * seat, 10 * seat + 10)
}

/// Two hands put together.
pub open spec fn hand_sum(a: Hand, b: Hand) -> Hand {
    Hand {
        spades: (a.spades + b.spades) as u8,
        hearts: (a.hearts + b.hearts) as u8,
        diamonds: (a.diamonds + b.diamonds) as u8,
        clubs: (a.clubs + b.clubs) as u8,
    }
}

/// The hands after dealing seats `0..n`: each seat's ten cards go to the
/// hand of the player in that seat, which starts empty.
pub open spec fn dealt_map(ids: Seq<u128>, deck: Seq<Suit>, n: int) -> Map<u128, Hand>
    decreases n,
{
    if n <= 0 {
        Map::empty()
    } else {
        let m = dealt_map(ids, deck, n - 1);
        let id = ids[n - 1];
        let prior = if m.contains_key(id) { m[id] } else { Hand::empty() };
        m.insert(id, hand_sum(prior, hand_of(seat_cards(deck, n - 1))))
    }
}

/// The keys of an association list are pairwise distinct.
pub open spec fn keys_distinct<V>(pairs: Seq<(u128, V)>) -> bool {
    forall|i: int, j: int| 0 <= i < j < pairs.len() ==> pairs[i].0 != pairs[j].0
}

/// The map an association list stands for.
pub open spec fn pairs_map<V>(pairs: Seq<(u128, V)>) -> Map<u128, V>
    decreases pairs.len(),
{
    if pairs.len() == 0 {
        Map::empty()
    } else {
        pairs_map(pairs.drop_last()).insert(pairs.last().0, pairs.last().1)
    }
}

/// What a deal from a given deck produces.
pub open spec fn deal_matches(ids: Seq<u128>, common: Suit, deck: Seq<Suit>, r: DealResult) -> bool {
    &&& r.common_suit == common
    &&& r.target_suit == spec_cross_suit(common)
    &&& keys_distinct(r.hands@)
    &&& pairs_map(r.hands@) == dealt_map(ids, deck, 4)
}

/// A deck that holds each suit as often as `spec_deck(common)` does.
pub open spec fn is_full_deck(common: Suit, deck: Seq<Suit>) -> bool {
    deck.to_multiset() == spec_deck(common).to_multiset()
}

proof fn lemma_cards_of_count(s: Suit, n: nat, t: Suit)
    ensures
        cards_of(s, n).to_multiset().count(t) == if s == t { n } else { 0 },
        cards_of(s, n).len() == n,
    decreases n,
{
    broadcast use vstd::seq_lib::group_to_multiset_ensures;
    if n > 0 {
        lemma_cards_of_count(s, (n - 1) as nat, t);
        assert(cards_of(s, n) =~= cards_of(s, (n - 1) as nat).push(s));
    } else {
        assert(cards_of(s, n) =~= Seq::<Suit>::empty());
    }
}

/// The unshuffled deck holds 40 cards, `deck_count` of each suit.
pub proof fn lemma_deck_composition(common: Suit, t: Suit)
    ensures
        spec_deck(common).len() == 40,
        occurrences(spec_deck(common), t) == deck_count(common, t),
{
    let a = cards_of(Suit::Spades, deck_count(common, Suit::Spades));
    let b = cards_of(Suit::Hearts, deck_count(common, Suit::Hearts));
    let c = cards_of(Suit::Diamonds, deck_count(common, Suit::Diamonds));
    let d = cards_of(Suit::Clubs, deck_count(common, Suit::Clubs));
    lemma_cards_of_count(Suit::Spades, deck_count(common, Suit::Spades), t);
    lemma_cards_of_count(Suit::Hearts, deck_count(common, Suit::Hearts), t);
    lemma_cards_of_count(Suit::Diamonds, deck_count(common, Suit::Diamonds), t);
    lemma_cards_of_count(Suit::Clubs, deck_count(common, Suit::Clubs), t);
    vstd::seq_lib::lemma_multiset_commutative(a, b);
    vstd::seq_lib::lemma_multiset_commutative(a + b, c);
    vstd::seq_lib::lemma_multiset_commutative(a + b + c, d);
    assert(deck_count(common, Suit::Spades) + deck_count(common, Suit::Hearts)
        + deck_count(common, Suit::Diamonds) + deck_count(common, Suit::Clubs) == 40) by {
        match common {
            Suit::Spades => {},
            Suit::Hearts => {},
            Suit::Diamonds => {},
            Suit::Clubs => {},
        }
    }
}


proof fn lemma_occurrences_push(cards: Seq<Suit>, c: Suit, s: Suit)
    ensures
        occurrences(cards.push(c), s) == occurrences(cards, s) + if c == s { 1nat } else { 0nat },
{
    broadcast use vstd::seq_lib::group_to_multiset_ensures;
}

/// A hand built from at most 255 cards holds each of them once: its counts
/// sum to the number of cards.
pub proof fn lemma_hand_of_total(cards: Seq<Suit>)
    requires
        cards.len() <= 255,
    ensures
        hand_of(cards).spec_total() == cards.len(),
        occurrences(cards, Suit::Spades) + occurrences(cards, Suit::Hearts)
            + occurrences(cards, Suit::Diamonds) + occurrences(cards, Suit::Clubs) == cards.len(),
    decreases cards.len(),
{
    broadcast use vstd::seq_lib::group_to_multiset_ensures;
    if cards.len() == 0 {
        assert(cards.to_multiset() =~= Multiset::empty());
    } else {
        let init = cards.drop_last();
        lemma_hand_of_total(init);
        assert(cards =~= init.push(cards.last()));
        lemma_occurrences_push(init, cards.last(), Suit::Spades);
        lemma_occurrences_push(init, cards.last(), Suit::Hearts);
        lemma_occurrences_push(init, cards.last(), Suit::Diamonds);
        lemma_occurrences_push(init, cards.last(), Suit::Clubs);
    }
}

/// The four seats' cards together are the whole 40-card deck.
proof fn lemma_seats_cover_deck(deck: Seq<Suit>, s: Suit)
    requires
        deck.len() == 40,
    ensures
        occurrences(seat_cards(deck, 0), s) + occurrences(seat_cards(deck, 1), s)
            + occurrences(seat_cards(deck, 2), s) + occurrences(seat_cards(deck, 3), s)
            == occurrences(deck, s),
{
    let a = seat_cards(deck, 0);
    let b = seat_cards(deck, 1);
    let c = seat_cards(deck, 2);
    let d = seat_cards(deck, 3);
    assert(deck =~= a + b + c + d);
    vstd::seq_lib::lemma_multiset_commutative(a, b);
    vstd::seq_lib::lemma_multiset_commutative(a + b, c);
    vstd::seq_lib::lemma_multiset_commutative(a + b + c, d);
}

/// An association list holds a key exactly when its map does; with distinct
/// keys, the map gives the value stored next to the key.
pub proof fn lemma_pairs_map_lookup<V>(pairs: Seq<(u128, V)>, i: int)
    requires
        keys_distinct(pairs),
        0 <= i < pairs.len(),
    ensures
        pairs_map(pairs).contains_key(pairs[i].0),
        pairs_map(pairs)[pairs[i].0] == pairs[i].1,
    decreases pairs.len(),
{
    if i < pairs.len() - 1 {
        lemma_pairs_map_lookup(pairs.drop_last(), i);
    }
}

/// A key that no entry carries is not in the map.
pub proof fn lemma_pairs_map_absent<V>(pairs: Seq<(u128, V)>, key: u128)
    requires
        forall|i: int| 0 <= i < pairs.len() ==> pairs[i].0 != key,
    ensures
        !pairs_map(pairs).contains_key(key),
    decreases pairs.len(),
{
    if pairs.len() > 0 {
        lemma_pairs_map_absent(pairs.drop_last(), key);
    }
}

proof fn lemma_pairs_map_update<V>(pairs: Seq<(u128, V)>, k: int, v: V)
    requires
        keys_distinct(pairs),
        0 <= k < pairs.len(),
    ensures
        pairs_map(pairs.update(k, (pairs[k].0, v))) == pairs_map(pairs).insert(pairs[k].0, v),
    decreases pairs.len(),
{
    let key = pairs[k].0;
    let upd = pairs.update(k, (key, v));
    if k == pairs.len() - 1 {
        assert(upd.drop_last() =~= pairs.drop_last());
        assert(pairs_map(upd) =~= pairs_map(pairs).insert(key, v));
    } else {
        assert(upd.drop_last() =~= pairs.drop_last().update(k, (key, v)));
        lemma_pairs_map_update(pairs.drop_last(), k, v);
        assert(pairs.last().0 != key);
        assert(pairs_map(upd) =~= pairs_map(pairs).insert(key, v));
    }
}

/// Dealing to distinct players gives each exactly the ten cards of their seat.
pub proof fn lemma_dealt_map_distinct(ids: Seq<u128>, deck: Seq<Suit>, n: int)
    requires
        0 <= n <= ids.len(),
        ids.no_duplicates(),
    ensures
        forall|x: u128| #[trigger] dealt_map(ids, deck, n).contains_key(x)
            <==> ids.subrange(0, n).contains(x),
        forall|j: int| 0 <= j < n ==> #[trigger] dealt_map(ids, deck, n)[ids[j]]
            == hand_sum(Hand::empty(), hand_of(seat_cards(deck, j))),
    decreases n,
{
    if n > 0 {
        lemma_dealt_map_distinct(ids, deck, n - 1);
        let m = dealt_map(ids, deck, n - 1);
        assert(!m.contains_key(ids[n - 1])) by {
            if ids.subrange(0, n - 1).contains(ids[n - 1]) {
                let j = choose|j: int| 0 <= j < n - 1 && #[trigger] ids.subrange(0, n - 1)[j] == ids[n - 1];
                assert(ids[j] == ids[n - 1]);
            }
        }
        assert forall|x: u128| #[trigger] dealt_map(ids, deck, n).contains_key(x)
            <==> ids.subrange(0, n).contains(x) by {
            if ids.subrange(0, n).contains(x) && x != ids[n - 1] {
                let j = choose|j: int| 0 <= j < n && #[trigger] ids.subrange(0, n)[j] == x;
                assert(ids.subrange(0, n - 1)[j] == x);
            }
            if ids.subrange(0, n - 1).contains(x) {
                let j = choose|j: int| 0 <= j < n - 1 && #[trigger] ids.subrange(0, n - 1)[j] == x;
                assert(ids.subrange(0, n)[j] == x);
            }
            if x == ids[n - 1] {
                assert(ids.subrange(0, n)[n - 1] == x);
            }
        }
    }
}

/// Counts the cards of `deck[lo..hi]` into a hand.
fn hand_from_cards(deck: &Vec<Suit>, lo: usize, hi: usize) -> (r: Hand)
    requires
        lo <= hi <= deck@.len(),
        hi - lo <= 255,
    ensures
        r == hand_of(deck@.subrange(lo as int, hi as int)),
{
    let mut hand = Hand { spades: 0, hearts: 0, diamonds: 0, clubs: 0 };
    let mut i = lo;
    proof {
        assert(deck@.subrange(lo as int, lo as int).to_multiset() =~= Multiset::empty()) by {
            broadcast use vstd::seq_lib::group_to_multiset_ensures;
        }
    }
    while i < hi
        invariant
            lo <= i <= hi <= deck@.len(),
            hi - lo <= 255,
            hand == hand_of(deck@.subrange(lo as int, i as int)),
        decreases hi - i,
    {
        let ghost before = deck@.subrange(lo as int, i as int);
        proof {
            lemma_hand_of_total(before);
            assert(deck@.subrange(lo as int, i + 1) =~= before.push(deck@[i as int]));
            lemma_occurrences_push(before, deck@[i as int], Suit::Spades);
            lemma_occurrences_push(before, deck@[i as int], Suit::Hearts);
            lemma_occurrences_push(before, deck@[i as int], Suit::Diamonds);
            lemma_occurrences_push(before, deck@[i as int], Suit::Clubs);
        }
        hand.add(deck[i]);
        i += 1;
    }
    hand
}

/// The position of the first entry carrying `key`, if any.
pub(crate) fn find_key<V>(pairs: &Vec<(u128, V)>, key: u128) -> (r: Option<usize>)
    ensures
        r matches Some(k) ==> k < pairs@.len() && pairs@[k as int].0 == key,
        r is None ==> forall|i: int| 0 <= i < pairs@.len() ==> pairs@[i].0 != key,
{
    let mut k: usize = 0;
    while k < pairs.len()
        invariant
            k <= pairs@.len(),
            forall|j: int| 0 <= j < k ==> pairs@[j].0 != key,
        decreases pairs@.len() - k,
    {
        if pairs[k].0 == key {
            return Some(k);
        }
        k += 1;
    }
    None
}

/// Two hands put together.
fn add_hands(a: &Hand, b: &Hand) -> (r: Hand)
    requires
        a.spades + b.spades <= 255,
        a.hearts + b.hearts <= 255,
        a.diamonds + b.diamonds <= 255,
        a.clubs + b.clubs <= 255,
    ensures
        r == hand_sum(*a, *b),
{
    Hand {
        spades: a.spades + b.spades,
        hearts: a.hearts + b.hearts,
        diamonds: a.diamonds + b.diamonds,
        clubs: a.clubs + b.clubs,
    }
}

/// Builds the unshuffled deck for a common suit.
pub fn build_deck(common_suit: Suit) -> (r: Vec<Suit>)
    ensures
        r@ == spec_deck(common_suit),
{
    let target_suit = common_suit.cross_suit();
    let mut deck: Vec<Suit> = Vec::with_capacity(40);
    let mut k: usize = 0;
    while k < 4
        invariant
            k <= 4,
            target_suit == spec_cross_suit(common_suit),
            deck@ == (if k == 0 {
                Seq::<Suit>::empty()
            } else if k == 1 {
                cards_of(Suit::Spades, deck_count(common_suit, Suit::Spades))
            } else if k == 2 {
                cards_of(Suit::Spades, deck_count(common_suit, Suit::Spades))
                    + cards_of(Suit::Hearts, deck_count(common_suit, Suit::Hearts))
            } else if k == 3 {
                cards_of(Suit::Spades, deck_count(common_suit, Suit::Spades))
                    + cards_of(Suit::Hearts, deck_count(common_suit, Suit::Hearts))
                    + cards_of(Suit::Diamonds, deck_count(common_suit, Suit::Diamonds))
            } else {
                spec_deck(common_suit)
            }),
        decreases 4 - k,
    {
        let suit = Suit::ALL[k];
        assert(suit == all_suits()[k as int]);
        let count: usize = if suit == common_suit {
            12
        } else if suit == target_suit {
            10
        } else {
            9
        };
        let ghost start = deck@;
        let mut c: usize = 0;
        while c < count
            invariant
                c <= count,
                count == deck_count(common_suit, suit),
                deck@ == start + cards_of(suit, c as nat),
            decreases count - c,
        {
            deck.push(suit);
            c += 1;
            assert(deck@ =~= start + cards_of(suit, c as nat));
        }
        k += 1;
        proof {
            if k == 1 {
                assert(start =~= Seq::<Suit>::empty());
                assert(deck@ =~= cards_of(Suit::Spades, deck_count(common_suit, Suit::Spades)));
            }
        }
    }
    deck
}

/// Deals a (shuffled) 40-card deck: seat `i` gets `deck[10 i .. 10 i + 10]`,
/// added to the hand of the player in that seat.
pub fn deal_from_deck(player_ids: &[u128; 4], common_suit: Suit, deck: &Vec<Suit>) -> (r: DealResult)
    requires
        deck@.len() == 40,
    ensures
        deal_matches(player_ids@, common_suit, deck@, r),
{
    let mut hands: Vec<(u128, Hand)> = Vec::new();
    let mut seat: usize = 0;
    while seat < 4
        invariant
            seat <= 4,
            deck@.len() == 40,
            player_ids@.len() == 4,
            keys_distinct(hands@),
            pairs_map(hands@) == dealt_map(player_ids@, deck@, seat as int),
            forall|i: int| 0 <= i < hands@.len() ==> (#[trigger] hands@[i]).1.spec_total() <= 10 * seat,
        decreases 4 - seat,
    {
        let h = hand_from_cards(deck, seat * 10, seat * 10 + 10);
        proof {
            lemma_hand_of_total(deck@.subrange(seat * 10, seat * 10 + 10));
        }
        let id = player_ids[seat];
        let pos = find_key(&hands, id);
        proof {
            match pos {
                Some(k) => lemma_pairs_map_lookup(hands@, k as int),
                None => lemma_pairs_map_absent(hands@, id),
            }
        }
        let ghost old_hands = hands@;
        if let Some(k) = pos {
            let prior = hands[k].1;
            let merged = add_hands(&prior, &h);
            hands.set(k, (id, merged));
            proof {
                lemma_pairs_map_update(old_hands, k as int, merged);
                assert(hands@ =~= old_hands.update(k as int, (old_hands[k as int].0, merged)));
                assert forall|i: int| 0 <= i < hands@.len() implies (#[trigger] hands@[i]).1.spec_total()
                    <= 10 * (seat + 1) by {
                    if i != k {
                        assert(hands@[i] == old_hands[i]);
                    }
                }
            }
        } else {
            let empty = Hand { spades: 0, hearts: 0, diamonds: 0, clubs: 0 };
            let fresh = add_hands(&empty, &h);
            hands.push((id, fresh));
            proof {
                assert(hands@.drop_last() =~= old_hands);
                assert forall|i: int| 0 <= i < hands@.len() implies (#[trigger] hands@[i]).1.spec_total()
                    <= 10 * (seat + 1) by {
                    if i < old_hands.len() {
                        assert(hands@[i] == old_hands[i]);
                    }
                }
            }
        }
        seat += 1;
    }
    DealResult { common_suit, target_suit: common_suit.cross_suit(), hands }
}

/// Build the 40-card Figgie deck and deal to 4 players.
///
/// Deck composition (total 40):
///   common suit : 12 cards
///   target suit (cross of common): 10 cards
///   other two suits: 9 cards each (8 each would leave only 38 cards for
///   four hands of ten; see `deck_count`)
///
/// The common suit is picked at random and the deck is shuffled before
/// each seat receives ten cards.
pub fn deal(player_ids: &[u128; 4]) -> (r: DealResult)
    ensures
        exists|deck: Seq<Suit>|
            #![trigger deal_matches(player_ids@, r.common_suit, deck, r)]
            deck.len() == 40 && is_full_deck(r.common_suit, deck)
                && deal_matches(player_ids@, r.common_suit, deck, r),
{
    // Pick common suit randomly
    let common_suit = choose_suit(&Suit::ALL);
    // Build deck
    let mut deck = build_deck(common_suit);
    proof {
        lemma_deck_composition(common_suit, Suit::Spades);
    }
    // Shuffle
    shuffle_suits(&mut deck);
    // Deal 10 cards to each of 4 players
    let r = deal_from_deck(player_ids, common_suit, &deck);
    assert(deck@.len() == 40 && is_full_deck(r.common_suit, deck@)
        && deal_matches(player_ids@, r.common_suit, deck@, r));
    r
}


/// Dealing to four distinct players gives each of them the ten cards of
/// their seat, and the four hands together hold the whole deck: 12 of the
/// common suit, 10 of the target, 9 of each other suit.
pub proof fn lemma_deal_to_distinct_players(ids: Seq<u128>, common: Suit, deck: Seq<Suit>, r: DealResult)
    requires
        ids.len() == 4,
        ids.no_duplicates(),
        deck.len() == 40,
        is_full_deck(common, deck),
        deal_matches(ids, common, deck, r),
    ensures
        forall|j: int| 0 <= j < 4 ==> #[trigger] pairs_map(r.hands@).contains_key(ids[j]),
        forall|j: int| 0 <= j < 4 ==> #[trigger] pairs_map(r.hands@)[ids[j]] == hand_of(seat_cards(deck, j)),
        forall|j: int| 0 <= j < 4 ==> (#[trigger] hand_of(seat_cards(deck, j))).spec_total() == 10,
        forall|s: Suit| #[trigger] hand_of(seat_cards(deck, 0)).spec_count(s) + hand_of(seat_cards(deck, 1)).spec_count(s)
            + hand_of(seat_cards(deck, 2)).spec_count(s) + hand_of(seat_cards(deck, 3)).spec_count(s)
            == deck_count(common, s),
{
    lemma_dealt_map_distinct(ids, deck, 4);
    assert(ids.subrange(0, 4) =~= ids);
    assert forall|j: int| 0 <= j < 4 implies (#[trigger] hand_of(seat_cards(deck, j))).spec_total() == 10 by {
        lemma_hand_of_total(seat_cards(deck, j));
    }
    assert forall|j: int| 0 <= j < 4 implies #[trigger] pairs_map(r.hands@).contains_key(ids[j]) by {
        assert(ids.subrange(0, 4)[j] == ids[j]);
    }
    assert forall|j: int| 0 <= j < 4 implies #[trigger] pairs_map(r.hands@)[ids[j]] == hand_of(seat_cards(deck, j)) by {
        lemma_hand_of_total(seat_cards(deck, j));
        assert(hand_sum(Hand::empty(), hand_of(seat_cards(deck, j))) =~= hand_of(seat_cards(deck, j)));
    }
    assert forall|s: Suit| #[trigger] hand_of(seat_cards(deck, 0)).spec_count(s) + hand_of(seat_cards(deck, 1)).spec_count(s)
        + hand_of(seat_cards(deck, 2)).spec_count(s) + hand_of(seat_cards(deck, 3)).spec_count(s)
        == deck_count(common, s) by {
        lemma_seats_cover_deck(deck, s);
        lemma_deck_composition(common, s);
        lemma_hand_of_total(seat_cards(deck, 0));
        lemma_hand_of_total(seat_cards(deck, 1));
        lemma_hand_of_total(seat_cards(deck, 2));
        lemma_hand_of_total(seat_cards(deck, 3));
    }
}

} // verus!
