//! Suits and hands.

use vstd::prelude::*;
use crate::text::str_equal;

verus! {

/// One of the four suits of a Figgie deck.
#[derive(Debug, Clone, Copy, PartialEq, Eq, Hash, Structural)]
pub enum Suit {
    Spades,
    Hearts,
    Diamonds,
    Clubs,
}

/// The suits in their fixed order (the order of `Suit::ALL`).
pub open spec fn all_suits() -> Seq<Suit> {
    seq![Suit::Spades, Suit::Hearts, Suit::Diamonds, Suit::Clubs]
}

/// The suit that pairs with `s`: Spades with Hearts, Diamonds with Clubs.
pub open spec fn spec_cross_suit(s: Suit) -> Suit {
    match s {
        Suit::Spades => Suit::Hearts,
        Suit::Hearts => Suit::Spades,
        Suit::Diamonds => Suit::Clubs,
        Suit::Clubs => Suit::Diamonds,
    }
}

/// The name of a suit, as the wire format and the database write it.
pub open spec fn suit_name(s: Suit) -> Seq<char> {
    match s {
        Suit::Spades => "Spades"@,
        Suit::Hearts => "Hearts"@,
        Suit::Diamonds => "Diamonds"@,
        Suit::Clubs => "Clubs"@,
    }
}

/// The suit with the given name, if any.
pub open spec fn suit_named(name: Seq<char>) -> Option<Suit> {
    if name == "Spades"@ {
        Some(Suit::Spades)
    } else if name == "Hearts"@ {
        Some(Suit::Hearts)
    } else if name == "Diamonds"@ {
        Some(Suit::Diamonds)
    } else if name == "Clubs"@ {
        Some(Suit::Clubs)
    } else {
        None
    }
}

impl Suit {
    /// All four suits, in a fixed order.
    pub const ALL: [Suit; 4] = [Suit::Spades, Suit::Hearts, Suit::Diamonds, Suit::Clubs];

    /// The cross-suit (target when self is common).
    /// Spades <-> Hearts, Diamonds <-> Clubs
    pub fn cross_suit(self) -> (r: Suit)
        ensures
            r == spec_cross_suit(self),
    {
        match self {
            Suit::Spades => Suit::Hearts,
            Suit::Hearts => Suit::Spades,
            Suit::Diamonds => Suit::Clubs,
            Suit::Clubs => Suit::Diamonds,
        }
    }

    /// The suit's name.
    pub fn as_str(self) -> (r: &'static str)
        ensures
            r@ == suit_name(self),
    {
        match self {
            Suit::Spades => "Spades",
            Suit::Hearts => "Hearts",
            Suit::Diamonds => "Diamonds",
            Suit::Clubs => "Clubs",
        }
    }

    /// Parses a suit name; `None` for anything but the four exact names.
    pub fn from_str(s: &str) -> (r: Option<Suit>)
        ensures
            r == suit_named(s@),
    {
        if str_equal(s, "Spades") {
            Some(Suit::Spades)
        } else if str_equal(s, "Hearts") {
            Some(Suit::Hearts)
        } else if str_equal(s, "Diamonds") {
            Some(Suit::Diamonds)
        } else if str_equal(s, "Clubs") {
            Some(Suit::Clubs)
        } else {
            None
        }
    }

    /// The suit's name as an owned string (what `Display` prints).
    pub fn to_string(self) -> (r: String)
        ensures
            r@ == suit_name(self),
    {
        crate::text::owned(self.as_str())
    }
}

/// Parsing a suit's name gives the suit back, and only a suit's name parses.
pub proof fn lemma_suit_name_round_trip(s: Suit, name: Seq<char>)
    ensures
        suit_named(suit_name(s)) == Some(s),
        suit_named(name) == Some(s) ==> name == suit_name(s),
{
    reveal_strlit("Spades");
    reveal_strlit("Hearts");
    reveal_strlit("Diamonds");
    reveal_strlit("Clubs");
    assert("Spades"@[0] == 'S' && "Hearts"@[0] == 'H' && "Diamonds"@[0] == 'D' && "Clubs"@[0] == 'C');
}

/// The cross-suit pairing is an involution without fixed points.
pub proof fn lemma_cross_suit_involution(s: Suit)
    ensures
        spec_cross_suit(spec_cross_suit(s)) == s,
        spec_cross_suit(s) != s,
{
}

/// A player's hand: count of each suit held.
#[derive(Debug, Clone, Copy, PartialEq, Eq, Structural)]
pub struct Hand {
    pub spades: u8,
    pub hearts: u8,
    pub diamonds: u8,
    pub clubs: u8,
}

impl Hand {
    /// How many cards of `suit` the hand holds.
    pub open spec fn spec_count(&self, suit: Suit) -> u8 {
        match suit {
            Suit::Spades => self.spades,
            Suit::Hearts => self.hearts,
            Suit::Diamonds => self.diamonds,
            Suit::Clubs => self.clubs,
        }
    }

    /// The number of cards in the hand.
    pub open spec fn spec_total(&self) -> int {
        self.spades + self.hearts + self.diamonds + self.clubs
    }

    /// The hand with the count of `suit` replaced by `n`.
    pub open spec fn with_count(self, suit: Suit, n: u8) -> Hand {
        match suit {
            Suit::Spades => Hand { spades: n, ..self },
            Suit::Hearts => Hand { hearts: n, ..self },
            Suit::Diamonds => Hand { diamonds: n, ..self },
            Suit::Clubs => Hand { clubs: n, ..self },
        }
    }

    /// The empty hand.
    pub open spec fn empty() -> Hand {
        Hand { spades: 0, hearts: 0, diamonds: 0, clubs: 0 }
    }

    #[verifier::when_used_as_spec(spec_count)]
    pub fn count(&self, suit: Suit) -> (r: u8)
        ensures
            r == self.spec_count(suit),
    {
        match suit {
            Suit::Spades => self.spades,
            Suit::Hearts => self.hearts,
            Suit::Diamonds => self.diamonds,
            Suit::Clubs => self.clubs,
        }
    }

    /// Adds one card of `suit`.
    pub fn add(&mut self, suit: Suit)
        requires
            old(self).spec_count(suit) < u8::MAX,
        ensures
            *final(self) == old(self).with_count(suit, (old(self).spec_count(suit) + 1) as u8),
    {
        match suit {
            Suit::Spades => self.spades += 1,
            Suit::Hearts => self.hearts += 1,
            Suit::Diamonds => self.diamonds += 1,
            Suit::Clubs => self.clubs += 1,
        }
    }

    /// Removes one card of `suit` if the hand holds one; tells whether it did.
    pub fn remove(&mut self, suit: Suit) -> (r: bool)
        ensures
            r == (old(self).spec_count(suit) > 0),
            r ==> *final(self) == old(self).with_count(suit, (old(self).spec_count(suit) - 1) as u8),
            !r ==> *final(self) == *old(self),
    {
        let n = self.count(suit);
        if n > 0 {
            match suit {
                Suit::Spades => self.spades = n - 1,
                Suit::Hearts => self.hearts = n - 1,
                Suit::Diamonds => self.diamonds = n - 1,
                Suit::Clubs => self.clubs = n - 1,
            }
            true
        } else {
            false
        }
    }

    /// The number of cards in the hand.
    pub fn total(&self) -> (r: u8)
        requires
            self.spec_total() <= u8::MAX,
        ensures
            r == self.spec_total(),
    {
        self.spades + self.hearts + self.diamonds + self.clubs
    }
}

impl Default for Hand {
    fn default() -> (r: Hand)
        ensures
            r == Hand::empty(),
    {
        Hand { spades: 0, hearts: 0, diamonds: 0, clubs: 0 }
    }
}

/// Adding a card and removing one of the same suit gives the hand back;
/// both touch only that suit's count.
pub proof fn lemma_add_remove_inverse(h: Hand, suit: Suit, other: Suit)
    requires
        h.spec_count(suit) < u8::MAX,
    ensures
        ({
            let added = h.with_count(suit, (h.spec_count(suit) + 1) as u8);
            &&& added.spec_count(suit) > 0
            &&& added.with_count(suit, (added.spec_count(suit) - 1) as u8) == h
            &&& added.spec_total() == h.spec_total() + 1
            &&& other != suit ==> added.spec_count(other) == h.spec_count(other)
        }),
{
}

} // verus!
