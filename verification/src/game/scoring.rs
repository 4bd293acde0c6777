//! Scoring a finished round.

use vstd::prelude::*;
use crate::models::card::{Hand, Suit};

verus! {

/// One player's outcome.
#[derive(Debug, Clone, Copy, PartialEq, Eq, Structural)]
pub struct PlayerResult {
    pub player_id: u128,
    pub chips_start: i32,
    pub chips_end: i32,
    pub target_cards: u8,
    pub got_pot: bool,
}

/// The outcome of a round.
#[derive(Debug, Clone)]
pub struct ScoreResult {
    pub target_suit: Suit,
    pub common_suit: Suit,
    pub pot: i32,
    pub results: Vec<PlayerResult>,
}

/// What a `ScoreResult` holds, with the results as a sequence.
pub struct ScoreModel {
    pub target_suit: Suit,
    pub common_suit: Suit,
    pub pot: i32,
    pub results: Seq<PlayerResult>,
}

impl View for ScoreResult {
    type V = ScoreModel;

    open spec fn view(&self) -> ScoreModel {
        ScoreModel {
            target_suit: self.target_suit,
            common_suit: self.common_suit,
            pot: self.pot,
            results: self.results@,
        }
    }
}

impl ScoreResult {
    /// A copy of the result.
    pub fn duplicate(&self) -> (r: ScoreResult)
        ensures
            r@ == self@,
    {
        let mut results: Vec<PlayerResult> = Vec::new();
        let mut i: usize = 0;
        while i < self.results.len()
            invariant
                i <= self.results@.len(),
                results@ == self.results@.subrange(0, i as int),
            decreases self.results@.len() - i,
        {
            results.push(self.results[i]);
            i += 1;
            assert(results@ =~= self.results@.subrange(0, i as int));
        }
        assert(results@ =~= self.results@);
        ScoreResult {
            target_suit: self.target_suit,
            common_suit: self.common_suit,
            pot: self.pot,
            results,
        }
    }
}

/// How many target cards entry `i` holds.
pub open spec fn target_cards_of(hands: Seq<(u128, Hand)>, t: Suit, i: int) -> int {
    hands[i].1.spec_count(t) as int
}

/// The largest target count among the first `n` entries (0 when there are none).
pub open spec fn max_target(hands: Seq<(u128, Hand)>, t: Suit, n: int) -> int
    decreases n,
{
    if n <= 0 {
        0
    } else {
        let m = max_target(hands, t, n - 1);
        let c = target_cards_of(hands, t, n - 1);
        if c > m { c } else { m }
    }
}

/// How many of the first `n` entries hold exactly `m` target cards.
pub open spec fn holders(hands: Seq<(u128, Hand)>, t: Suit, m: int, n: int) -> int
    decreases n,
{
    if n <= 0 {
        0
    } else {
        holders(hands, t, m, n - 1) + if target_cards_of(hands, t, n - 1) == m { 1int } else { 0int }
    }
}

/// Entry `i` takes the pot: it alone holds the most target cards.
pub open spec fn wins_pot(hands: Seq<(u128, Hand)>, t: Suit, i: int) -> bool {
    let m = max_target(hands, t, hands.len() as int);
    &&& holders(hands, t, m, hands.len() as int) == 1
    &&& target_cards_of(hands, t, i) == m
}

/// A player's chips before scoring: the first entry for them, or 50 if none.
pub open spec fn chips_before(chips: Seq<(u128, i32)>, id: u128) -> int
    decreases chips.len(),
{
    if chips.len() == 0 {
        50
    } else if chips[0].0 == id {
        chips[0].1 as int
    } else {
        chips_before(chips.drop_first(), id)
    }
}

/// Entry `i`'s chips after scoring.
pub open spec fn chips_after(hands: Seq<(u128, Hand)>, chips: Seq<(u128, i32)>, t: Suit, pot: i32, i: int) -> int {
    chips_before(chips, hands[i].0) + 10 * target_cards_of(hands, t, i)
        + if wins_pot(hands, t, i) { pot as int } else { 0int }
}

/// The result of entry `i`.
pub open spec fn result_for(hands: Seq<(u128, Hand)>, chips: Seq<(u128, i32)>, t: Suit, pot: i32, i: int) -> PlayerResult {
    PlayerResult {
        player_id: hands[i].0,
        chips_start: chips_before(chips, hands[i].0) as i32,
        chips_end: chips_after(hands, chips, t, pot, i) as i32,
        target_cards: hands[i].1.spec_count(t),
        got_pot: wins_pot(hands, t, i),
    }
}

/// Every player's chip total, before and after the pot is added, fits in an `i32`.
pub open spec fn score_fits(hands: Seq<(u128, Hand)>, chips: Seq<(u128, i32)>, t: Suit, pot: i32) -> bool {
    forall|i: int| 0 <= i < hands.len() ==> {
        &&& i32::MIN <= #[trigger] chips_before(chips, hands[i].0) + 10 * target_cards_of(hands, t, i) <= i32::MAX
        &&& i32::MIN <= chips_after(hands, chips, t, pot, i) <= i32::MAX
    }
}

/// The chips recorded for `id`, or 50 if none are.
fn chips_of(chips: &Vec<(u128, i32)>, id: u128) -> (r: i32)
    ensures
        r == chips_before(chips@, id),
{
    let mut k: usize = 0;
    assert(chips@.skip(0) =~= chips@);
    while k < chips.len()
        invariant
            k <= chips@.len(),
            chips_before(chips@, id) == chips_before(chips@.skip(k as int), id),
        decreases chips@.len() - k,
    {
        assert(chips@.skip(k as int).drop_first() =~= chips@.skip(k + 1));
        if chips[k].0 == id {
            return chips[k].1;
        }
        k += 1;
    }
    50
}

/// Score a finished round.
///
/// Rules:
/// - Each player earns $10 × their target suit card count
/// - The player with the most target suit cards takes the pot ($200)
/// - Ties for majority: the pot is NOT awarded (stays in house) - standard Figgie rules
///
/// `hands` and `chips` list each player once with their hand and their
/// chips; the results follow the order of `hands`.
pub fn score_round(
    target_suit: Suit,
    common_suit: Suit,
    hands: &Vec<(u128, Hand)>,
    chips: &Vec<(u128, i32)>,
    pot: i32,
) -> (r: ScoreResult)
    requires
        score_fits(hands@, chips@, target_suit, pot),
    ensures
        r.target_suit == target_suit,
        r.common_suit == common_suit,
        r.pot == pot,
        r.results@.len() == hands@.len(),
        forall|i: int| 0 <= i < hands@.len() ==> #[trigger] r.results@[i] == result_for(hands@, chips@, target_suit, pot, i),
        forall|i: int| 0 <= i < hands@.len() ==> {
            &&& (#[trigger] r.results@[i]).player_id == hands@[i].0
            &&& r.results@[i].target_cards == hands@[i].1.spec_count(target_suit)
            &&& (r.results@[i].got_pot <==> forall|j: int| 0 <= j < hands@.len() && j != i
                ==> hands@[j].1.spec_count(target_suit) < hands@[i].1.spec_count(target_suit))
            &&& r.results@[i].chips_end == r.results@[i].chips_start + 10 * hands@[i].1.spec_count(target_suit)
                + if r.results@[i].got_pot { pot as int } else { 0int }
        },
{
    let n = hands.len();
    // Find the largest target count
    let mut max_count: u8 = 0;
    let mut i: usize = 0;
    while i < n
        invariant
            n == hands@.len(),
            i <= n,
            max_count == max_target(hands@, target_suit, i as int),
        decreases n - i,
    {
        let c = hands[i].1.count(target_suit);
        if c > max_count {
            max_count = c;
        }
        i += 1;
    }
    // Count the majority holders
    let mut majority_holders: usize = 0;
    let mut i: usize = 0;
    while i < n
        invariant
            n == hands@.len(),
            i <= n,
            max_count == max_target(hands@, target_suit, n as int),
            majority_holders == holders(hands@, target_suit, max_count as int, i as int),
            majority_holders <= i,
        decreases n - i,
    {
        if hands[i].1.count(target_suit) == max_count {
            majority_holders += 1;
        }
        i += 1;
    }
    let mut results: Vec<PlayerResult> = Vec::new();
    let mut i: usize = 0;
    while i < n
        invariant
            n == hands@.len(),
            i <= n,
            max_count == max_target(hands@, target_suit, n as int),
            majority_holders == holders(hands@, target_suit, max_count as int, n as int),
            score_fits(hands@, chips@, target_suit, pot),
            results@.len() == i,
            forall|j: int| 0 <= j < i ==> #[trigger] results@[j] == result_for(hands@, chips@, target_suit, pot, j),
        decreases n - i,
    {
        let player_id = hands[i].0;
        let target_cards = hands[i].1.count(target_suit);
        let chips_start = chips_of(chips, player_id);
        let card_payout = (target_cards as i32) * 10;
        let got_pot = majority_holders == 1 && target_cards == max_count;
        let pot_bonus = if got_pot { pot } else { 0 };
        assert(chips_before(chips@, hands@[i as int].0) + 10 * target_cards_of(hands@, target_suit, i as int)
            <= i32::MAX);
        let chips_end = chips_start + card_payout + pot_bonus;
        results.push(PlayerResult { player_id, chips_start, chips_end, target_cards, got_pot });
        i += 1;
    }
    proof {
        assert forall|i: int| 0 <= i < hands@.len() implies {
            &&& (#[trigger] results@[i]).player_id == hands@[i].0
            &&& results@[i].target_cards == hands@[i].1.spec_count(target_suit)
            &&& (results@[i].got_pot <==> forall|j: int| 0 <= j < hands@.len() && j != i
                ==> hands@[j].1.spec_count(target_suit) < hands@[i].1.spec_count(target_suit))
            &&& results@[i].chips_end == results@[i].chips_start + 10 * hands@[i].1.spec_count(target_suit)
                + if results@[i].got_pot { pot as int } else { 0int }
        } by {
            lemma_pot_to_strict_leader(hands@, chips@, target_suit, pot, i);
        }
    }
    ScoreResult { target_suit, common_suit, pot, results }
}


proof fn lemma_max_target_bounds(hands: Seq<(u128, Hand)>, t: Suit, n: int)
    requires
        0 <= n <= hands.len(),
    ensures
        max_target(hands, t, n) >= 0,
        forall|i: int| 0 <= i < n ==> target_cards_of(hands, t, i) <= max_target(hands, t, n),
        n > 0 ==> exists|i: int| 0 <= i < n && target_cards_of(hands, t, i) == max_target(hands, t, n),
    decreases n,
{
    if n > 0 {
        lemma_max_target_bounds(hands, t, n - 1);
        if n - 1 > 0 && max_target(hands, t, n) == max_target(hands, t, n - 1) {
            let i = choose|i: int| 0 <= i < n - 1 && target_cards_of(hands, t, i) == max_target(hands, t, n - 1);
            assert(0 <= i < n && target_cards_of(hands, t, i) == max_target(hands, t, n));
        } else {
            assert(target_cards_of(hands, t, n - 1) == max_target(hands, t, n));
        }
    }
}

proof fn lemma_holders_bounds(hands: Seq<(u128, Hand)>, t: Suit, m: int, n: int)
    requires
        0 <= n <= hands.len(),
    ensures
        holders(hands, t, m, n) >= 0,
        holders(hands, t, m, n) > 0 ==> exists|i: int| 0 <= i < n && target_cards_of(hands, t, i) == m,
        forall|i: int, j: int|
            0 <= i < j < n && target_cards_of(hands, t, i) == m && target_cards_of(hands, t, j) == m
                ==> holders(hands, t, m, n) >= 2,
        forall|i: int| 0 <= i < n && target_cards_of(hands, t, i) == m ==> holders(hands, t, m, n) >= 1,
    decreases n,
{
    if n > 0 {
        lemma_holders_bounds(hands, t, m, n - 1);
        if holders(hands, t, m, n) > 0 && target_cards_of(hands, t, n - 1) != m {
            let i = choose|i: int| 0 <= i < n - 1 && target_cards_of(hands, t, i) == m;
            assert(0 <= i < n && target_cards_of(hands, t, i) == m);
        }
    }
}

/// The pot goes to at most one player: the one who alone holds the most
/// target cards. It is awarded exactly when that player exists, and a tie
/// for the most target cards leaves it unawarded.
pub proof fn lemma_pot_goes_to_sole_leader(hands: Seq<(u128, Hand)>, t: Suit)
    ensures
        forall|i: int, j: int|
            0 <= i < hands.len() && 0 <= j < hands.len() && wins_pot(hands, t, i) && wins_pot(hands, t, j)
                ==> i == j,
        forall|i: int, j: int|
            0 <= i < hands.len() && 0 <= j < hands.len() && wins_pot(hands, t, i) && j != i
                ==> target_cards_of(hands, t, j) < target_cards_of(hands, t, i),
        (exists|i: int| 0 <= i < hands.len() && wins_pot(hands, t, i))
            <==> holders(hands, t, max_target(hands, t, hands.len() as int), hands.len() as int) == 1,
{
    let n = hands.len() as int;
    let m = max_target(hands, t, n);
    lemma_max_target_bounds(hands, t, n);
    lemma_holders_bounds(hands, t, m, n);
    assert forall|i: int, j: int|
        0 <= i < n && 0 <= j < n && wins_pot(hands, t, i) && wins_pot(hands, t, j) implies i == j by {
        if i < j {
            assert(holders(hands, t, m, n) >= 2);
        } else if j < i {
            assert(holders(hands, t, m, n) >= 2);
        }
    }
    assert forall|i: int, j: int|
        0 <= i < n && 0 <= j < n && wins_pot(hands, t, i) && j != i implies target_cards_of(hands, t, j)
        < target_cards_of(hands, t, i) by {
        if target_cards_of(hands, t, j) == m {
            if i < j {
                assert(holders(hands, t, m, n) >= 2);
            } else {
                assert(holders(hands, t, m, n) >= 2);
            }
        }
    }
    if holders(hands, t, m, n) == 1 {
        let i = choose|i: int| 0 <= i < n && target_cards_of(hands, t, i) == m;
        assert(wins_pot(hands, t, i));
    }
}

proof fn lemma_chips_before_range(chips: Seq<(u128, i32)>, id: u128)
    ensures
        i32::MIN <= chips_before(chips, id) <= i32::MAX,
    decreases chips.len(),
{
    if chips.len() > 0 && chips[0].0 != id {
        lemma_chips_before_range(chips.drop_first(), id);
    }
}

proof fn lemma_holders_unique(hands: Seq<(u128, Hand)>, t: Suit, m: int, i: int, n: int)
    requires
        0 <= n <= hands.len(),
        0 <= i < hands.len(),
        target_cards_of(hands, t, i) == m,
        forall|j: int| 0 <= j < hands.len() && j != i ==> target_cards_of(hands, t, j) != m,
    ensures
        holders(hands, t, m, n) == if n > i { 1int } else { 0int },
    decreases n,
{
    if n > 0 {
        lemma_holders_unique(hands, t, m, i, n - 1);
    }
}

/// Scoring pays each player 10 chips per target card on top of the chips
/// they had, and the pot to a player exactly when every other player holds
/// strictly fewer target cards than they do, wherever they sit.
pub proof fn lemma_pot_to_strict_leader(hands: Seq<(u128, Hand)>, chips: Seq<(u128, i32)>, t: Suit, pot: i32, i: int)
    requires
        0 <= i < hands.len(),
        score_fits(hands, chips, t, pot),
    ensures
        ({
            let r = result_for(hands, chips, t, pot, i);
            &&& r.player_id == hands[i].0
            &&& r.target_cards == hands[i].1.spec_count(t)
            &&& (r.got_pot <==> forall|j: int| 0 <= j < hands.len() && j != i
                ==> hands[j].1.spec_count(t) < hands[i].1.spec_count(t))
            &&& r.chips_end == r.chips_start + 10 * hands[i].1.spec_count(t) + if r.got_pot { pot as int } else { 0int }
        }),
{
    let n = hands.len() as int;
    let m = max_target(hands, t, n);
    lemma_pot_goes_to_sole_leader(hands, t);
    lemma_max_target_bounds(hands, t, n);
    let strict = forall|j: int| 0 <= j < n && j != i ==> hands[j].1.spec_count(t) < hands[i].1.spec_count(t);
    if strict {
        assert(target_cards_of(hands, t, i) == m) by {
            let k = choose|k: int| 0 <= k < n && target_cards_of(hands, t, k) == m;
            if k != i {
                assert(hands[k].1.spec_count(t) < hands[i].1.spec_count(t));
            }
        }
        assert forall|j: int| 0 <= j < hands.len() && j != i implies target_cards_of(hands, t, j) != m by {
            assert(hands[j].1.spec_count(t) < hands[i].1.spec_count(t));
        }
        lemma_holders_unique(hands, t, m, i, n);
        assert(wins_pot(hands, t, i));
    }
    if wins_pot(hands, t, i) {
        assert forall|j: int| 0 <= j < n && j != i implies hands[j].1.spec_count(t) < hands[i].1.spec_count(t) by {
            assert(target_cards_of(hands, t, j) < target_cards_of(hands, t, i));
        }
    }
    lemma_chips_before_range(chips, hands[i].0);
    assert(i32::MIN <= chips_after(hands, chips, t, pot, i) <= i32::MAX);
    let r = result_for(hands, chips, t, pot, i);
    assert(r.chips_start == chips_before(chips, hands[i].0));
    assert(r.got_pot <==> strict);
}

} // verus!
