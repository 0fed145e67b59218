//! Scoring: the Ace-adjusted value of a blackjack hand.
//!
//! A hand's raw total counts every Ace as 11. While the total exceeds 21 and
//! an Ace is still counted high, one Ace is downgraded to 1 (the total drops
//! by 10). The result is the highest score not above 21 that the hand can
//! make, or the all-Aces-low total when even that is above 21.

use vstd::prelude::*;

use crate::cards::{card_wf, Card, Rank};

verus! {

/// Score contributed by one card before any Ace adjustment: 11 for an Ace,
/// the pip number for a pip card, 10 for a face card.
pub open spec fn card_value(c: Card) -> int {
    match c.rank {
        Rank::Ace => 11,
        Rank::Pip(n) => n as int,
        _ => 10,
    }
}

pub open spec fn is_ace(c: Card) -> bool {
    c.rank is Ace
}

/// Sum of the raw card values of a hand.
pub open spec fn sum_values(s: Seq<Card>) -> int
    decreases s.len(),
{
    if s.len() == 0 {
        0
    } else {
        sum_values(s.drop_last()) + card_value(s.last())
    }
}

/// Number of Aces in a hand.
pub open spec fn count_aces(s: Seq<Card>) -> nat
    decreases s.len(),
{
    if s.len() == 0 {
        0
    } else {
        count_aces(s.drop_last()) + if is_ace(s.last()) {
            1nat
        } else {
            0nat
        }
    }
}

/// Downgrades one Ace (11 becomes 1, dropping the sum by 10) at a time,
/// while the sum is over 21 and a not-yet-downgraded Ace remains.
pub open spec fn adjusted(sum: int, aces: nat) -> int
    decreases aces,
{
    if sum > 21 && aces > 0 {
        adjusted(sum - 10, (aces - 1) as nat)
    } else {
        sum
    }
}

/// The score of a hand: the raw sum with Aces downgraded while over 21.
pub open spec fn hand_score(s: Seq<Card>) -> int {
    adjusted(sum_values(s), count_aces(s))
}

/// How many Aces the adjustment would downgrade on a sum over 21: one per
/// full step of 10 until the sum is back at 21 or below.
pub open spec fn downgrades_needed(sum: int) -> int {
    (sum - 12) / 10
}

/// Number of Aces still counted high once the hand is adjusted.
pub open spec fn high_aces(s: Seq<Card>) -> int {
    let sum = sum_values(s);
    let aces = count_aces(s);
    if sum <= 21 {
        aces as int
    } else if downgrades_needed(sum) <= aces {
        aces - downgrades_needed(sum)
    } else {
        0
    }
}

/// The adjustment in closed form: nothing to do at 21 or below; otherwise
/// downgrade one Ace per full step of 10 above 21, until either the sum is
/// back in range or every Ace is low.
pub proof fn lemma_adjusted_closed(sum: int, aces: nat)
    ensures
        adjusted(sum, aces) == if sum <= 21 {
            sum
        } else if downgrades_needed(sum) <= aces {
            sum - 10 * downgrades_needed(sum)
        } else {
            sum - 10 * aces
        },
    decreases aces,
{
    if sum > 21 && aces > 0 {
        lemma_adjusted_closed(sum - 10, (aces - 1) as nat);
        assert(downgrades_needed(sum - 10) == downgrades_needed(sum) - 1);
    }
}

/// Appending a card adds its raw value to the sum and its Ace to the count.
pub proof fn lemma_sums_push(s: Seq<Card>, c: Card)
    ensures
        sum_values(s.push(c)) == sum_values(s) + card_value(c),
        count_aces(s.push(c)) == count_aces(s) + if is_ace(c) {
            1nat
        } else {
            0nat
        },
{
    assert(s.push(c).drop_last() =~= s);
}

/// Removing a card takes its raw value out of the sum and its Ace out of
/// the count.
pub proof fn lemma_sums_remove(s: Seq<Card>, i: int)
    requires
        0 <= i < s.len(),
    ensures
        sum_values(s.remove(i)) == sum_values(s) - card_value(s[i]),
        count_aces(s.remove(i)) == count_aces(s) - if is_ace(s[i]) {
            1nat
        } else {
            0nat
        },
    decreases s.len(),
{
    if i == s.len() - 1 {
        assert(s.remove(i) =~= s.drop_last());
    } else {
        assert(s.remove(i).drop_last() =~= s.drop_last().remove(i));
        assert(s.remove(i).last() == s.last());
        lemma_sums_remove(s.drop_last(), i);
    }
}

/// Raw sums over a well-formed hand: every card is worth between 2 and 11,
/// and at least its Ace-low value, so the sum (and hence the score) pins the
/// hand's length.
pub proof fn lemma_sums_bounds(s: Seq<Card>)
    requires
        forall|i: int| 0 <= i < s.len() ==> card_wf(#[trigger] s[i]),
    ensures
        count_aces(s) <= s.len(),
        s.len() <= sum_values(s) - 10 * count_aces(s),
        sum_values(s) <= 11 * s.len(),
    decreases s.len(),
{
    if s.len() > 0 {
        lemma_sums_bounds(s.drop_last());
    }
}

/// The score of a well-formed hand lies between the hand's length and the
/// raw sum, which is at most 11 per card.
pub proof fn lemma_score_bounds(s: Seq<Card>)
    requires
        forall|i: int| 0 <= i < s.len() ==> card_wf(#[trigger] s[i]),
    ensures
        s.len() <= hand_score(s) <= 11 * s.len(),
        hand_score(s) <= sum_values(s),
{
    lemma_sums_bounds(s);
    lemma_adjusted_closed(sum_values(s), count_aces(s));
}

/// A hand with a high Ace left is never over 21: the adjustment only stops
/// above 21 once every Ace is low.
pub proof fn lemma_high_ace_in_range(s: Seq<Card>)
    ensures
        high_aces(s) > 0 ==> hand_score(s) <= 21,
        hand_score(s) > 21 ==> hand_score(s) == sum_values(s) - 10 * count_aces(s),
{
    lemma_adjusted_closed(sum_values(s), count_aces(s));
}

/// The raw sum and the Ace count ignore the order of the cards: two hands
/// holding the same cards agree on both.
proof fn lemma_sums_permutation(s: Seq<Card>, t: Seq<Card>)
    requires
        s.to_multiset() == t.to_multiset(),
    ensures
        sum_values(s) == sum_values(t),
        count_aces(s) == count_aces(t),
    decreases s.len(),
{
    broadcast use vstd::seq_lib::group_to_multiset_ensures;

    if s.len() == 0 {
        assert(s.to_multiset().len() == 0);
        assert(t.to_multiset().len() == t.len());
        assert(s =~= t);
    } else {
        let i = s.len() - 1;
        let x = s[i];
        assert(s.to_multiset().count(x) > 0);
        assert(t.contains(x));
        let j = choose|j: int| 0 <= j < t.len() && t[j] == x;
        assert(s.remove(i).to_multiset() == t.remove(j).to_multiset());
        lemma_sums_remove(s, i);
        lemma_sums_remove(t, j);
        assert(s.remove(i) =~= s.drop_last());
        lemma_sums_permutation(s.drop_last(), t.remove(j));
    }
}

/// The score of a hand is invariant under reordering its cards: any two
/// hands made of the same multiset of cards score the same.
pub proof fn lemma_score_permutation(s: Seq<Card>, t: Seq<Card>)
    requires
        s.to_multiset() == t.to_multiset(),
    ensures
        hand_score(s) == hand_score(t),
{
    lemma_sums_permutation(s, t);
}

/// A hand of nothing but Aces: one Ace scores 11; from two Aces on, the raw
/// total of 11 per Ace is downgraded by 10 per Ace while over 21, which
/// settles at the Ace count plus 10 while an Ace can stay high (up to 11
/// Aces), and at the bare Ace count beyond that.
pub proof fn lemma_all_aces_score(s: Seq<Card>)
    requires
        s.len() >= 1,
        forall|i: int| 0 <= i < s.len() ==> is_ace(#[trigger] s[i]),
    ensures
        hand_score(s) == if s.len() == 1 {
            11int
        } else if s.len() <= 11 {
            s.len() + 10int
        } else {
            s.len() as int
        },
{
    lemma_all_aces_sums(s);
    lemma_adjusted_closed(sum_values(s), count_aces(s));
}

proof fn lemma_all_aces_sums(s: Seq<Card>)
    requires
        forall|i: int| 0 <= i < s.len() ==> is_ace(#[trigger] s[i]),
    ensures
        sum_values(s) == 11 * s.len(),
        count_aces(s) == s.len(),
    decreases s.len(),
{
    if s.len() > 0 {
        lemma_all_aces_sums(s.drop_last());
    }
}

/// After one hit the score never drops, with two exceptions, which this
/// lemma's hypothesis excludes and no others: a card under 10 that pushes a
/// hand with a high Ace over 21 (the downgrade outweighs the card), and an
/// Ace landing on a hand that already scores 21 with a high Ace.
pub proof fn lemma_hit_score_nondecreasing(s: Seq<Card>, c: Card)
    requires
        forall|i: int| 0 <= i < s.len() ==> card_wf(#[trigger] s[i]),
        card_wf(c),
        high_aces(s) == 0 || hand_score(s) + card_value(c) <= 21 || card_value(c) == 10 || (
        is_ace(c) && hand_score(s) <= 20),
    ensures
        hand_score(s.push(c)) >= hand_score(s),
{
    lemma_sums_push(s, c);
    lemma_sums_bounds(s);
    lemma_adjusted_closed(sum_values(s), count_aces(s));
    lemma_adjusted_closed(sum_values(s.push(c)), count_aces(s.push(c)));
}

/// The two exceptions are exact: on every hand and card that the previous
/// lemma's hypothesis leaves out, one hit strictly lowers the score.
pub proof fn lemma_hit_score_drops_otherwise(s: Seq<Card>, c: Card)
    requires
        forall|i: int| 0 <= i < s.len() ==> card_wf(#[trigger] s[i]),
        card_wf(c),
        !(high_aces(s) == 0 || hand_score(s) + card_value(c) <= 21 || card_value(c) == 10 || (
        is_ace(c) && hand_score(s) <= 20)),
    ensures
        hand_score(s.push(c)) < hand_score(s),
{
    lemma_sums_push(s, c);
    lemma_sums_bounds(s);
    lemma_adjusted_closed(sum_values(s), count_aces(s));
    lemma_adjusted_closed(sum_values(s.push(c)), count_aces(s.push(c)));
}

/// Two cards never score over 21: the only two raw values that exceed 21
/// together are a pair of Aces, and the adjustment then downgrades one.
pub proof fn lemma_two_card_score(s: Seq<Card>)
    requires
        s.len() == 2,
        forall|i: int| 0 <= i < s.len() ==> card_wf(#[trigger] s[i]),
    ensures
        4 <= hand_score(s) <= 21,
{
    reveal_with_fuel(sum_values, 3);
    reveal_with_fuel(count_aces, 3);
    assert(s.drop_last().drop_last() =~= Seq::<Card>::empty());
    assert(sum_values(s) == card_value(s[0]) + card_value(s[1]));
    assert(count_aces(s) == (if is_ace(s[0]) {
        1nat
    } else {
        0nat
    }) + (if is_ace(s[1]) {
        1nat
    } else {
        0nat
    }));
    lemma_adjusted_closed(sum_values(s), count_aces(s));
}

/// One hit raises the score by at most the card's raw value, and a hand at
/// 21 or below never goes past 31 on a single hit.
pub proof fn lemma_hit_score_upper(s: Seq<Card>, c: Card)
    requires
        forall|i: int| 0 <= i < s.len() ==> card_wf(#[trigger] s[i]),
        card_wf(c),
    ensures
        hand_score(s.push(c)) <= hand_score(s) + card_value(c),
        hand_score(s) <= 21 ==> hand_score(s.push(c)) <= 31,
{
    lemma_sums_push(s, c);
    lemma_sums_bounds(s);
    lemma_adjusted_closed(sum_values(s), count_aces(s));
    lemma_adjusted_closed(sum_values(s.push(c)), count_aces(s.push(c)));
}

/// Score of one card: 11 for an Ace, the pip number for a pip card, 10 for
/// a face card.
pub fn calc_card_score(card: &Card) -> (r: u8)
    ensures
        r == card_value(*card),
{
    match card.rank {
        Rank::Ace => 11,
        Rank::Pip(num) => num,
        _ => 10,
    }
}

/// Score of a whole hand: the raw sum of card values, with Aces downgraded
/// from 11 to 1 while the total is above 21.
pub fn calc_hand_score(hand: &Vec<Card>) -> (r: u8)
    requires
        forall|i: int| 0 <= i < hand@.len() ==> card_wf(#[trigger] hand@[i]),
        hand_score(hand@) <= u8::MAX,
    ensures
        r == hand_score(hand@),
{
    proof {
        lemma_score_bounds(hand@);
        lemma_sums_bounds(hand@);
    }
    let mut aces: u64 = 0;
    let mut score: u64 = 0;
    let mut idx: usize = 0;
    while idx < hand.len()
        invariant
            0 <= idx <= hand@.len(),
            hand@.len() <= u8::MAX,
            forall|i: int| 0 <= i < hand@.len() ==> card_wf(#[trigger] hand@[i]),
            score == sum_values(hand@.take(idx as int)),
            aces == count_aces(hand@.take(idx as int)),
            aces <= idx,
        decreases hand@.len() - idx,
    {
        let card = hand[idx];
        if let Rank::Ace = card.rank {
            aces = aces + 1;
        }
        proof {
            assert(hand@.take(idx + 1).drop_last() =~= hand@.take(idx as int));
            lemma_sums_bounds(hand@.take(idx + 1));
        }
        score = score + calc_card_score(&card) as u64;
        idx = idx + 1;
    }
    proof {
        assert(hand@.take(hand@.len() as int) =~= hand@);
    }

    // Downgrade Aces while the total is over 21 and a high Ace remains.
    while score > 21 && aces > 0
        invariant
            adjusted(score as int, aces as nat) == hand_score(hand@),
        decreases aces,
    {
        score = score - 10;
        aces = aces - 1;
    }
    proof {
        lemma_score_bounds(hand@);
    }
    score as u8
}

} // verus!
