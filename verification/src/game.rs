//! The round state machine: player hands, the dealer, phases, and bet
//! settlement.
//!
//! A round starts in the betting phase with an empty table. Placing a bet
//! deals one player hand of two cards and two dealer cards and moves to
//! play. Hands awaiting play are counted down by `active_hands`: the hand at
//! `active_hands - 1` is the one being played, standing or busting moves to
//! the next, and when none remain the dealer draws to 17 and every hand is
//! settled against the dealer's score.

use vstd::prelude::*;

use crate::cards::{card_wf, Card};
use crate::scoring::{
    calc_card_score, calc_hand_score, card_value, count_aces, hand_score,
    lemma_adjusted_closed, lemma_hit_score_upper, lemma_score_bounds, lemma_sums_push,
    lemma_two_card_score, sum_values,
};

verus! {

/// Phase of a round.
#[derive(Debug, Clone, Copy, PartialEq, Eq, Structural)]
pub enum State {
    Bet,
    Play,
    Results,
}

/// Outcome recorded on a hand. `Blackjack` and `TwentyOne` are set as soon
/// as a hand reaches 21 (on the deal and on a hit respectively); `Bust` as
/// soon as it goes over; `Win`, `Lose` and `Draw` only at settlement.
#[derive(Debug, Clone, Copy, PartialEq, Eq, Structural)]
pub enum HandResult {
    Win,
    Bust,
    Lose,
    Draw,
    Blackjack,
    TwentyOne,
}

/// A player decision during the play phase.
#[derive(Debug, Clone, Copy, PartialEq, Eq, Structural)]
pub enum Command {
    Hit,
    Stand,
    Split,
}

/// One player hand: its cards in the order dealt, the bet riding on it, and
/// the outcome recorded so far.
#[derive(Debug)]
pub struct Hand {
    pub cards: Vec<Card>,
    pub bet: u32,
    pub result: Option<HandResult>,
}

impl Hand {
    /// The hand's score, as a spec value.
    pub open spec fn score_spec(self) -> int {
        hand_score(self.cards@)
    }

    /// A dealt hand holds at least two well-formed cards, scores at most 31
    /// (one hit past 21 at worst), and its recorded outcome agrees with the
    /// score: no outcome or a settled one only at 21 or below, `TwentyOne`
    /// and `Blackjack` exactly at 21 (the latter on the original two cards),
    /// `Bust` exactly above 21.
    pub open spec fn wf(self) -> bool {
        &&& self.cards@.len() >= 2
        &&& (forall|i: int| 0 <= i < self.cards@.len() ==> card_wf(#[trigger] self.cards@[i]))
        &&& self.score_spec() <= 31
        &&& match self.result {
            None => self.score_spec() <= 21,
            Some(HandResult::Bust) => self.score_spec() > 21,
            Some(HandResult::TwentyOne) => self.score_spec() == 21,
            Some(HandResult::Blackjack) => self.score_spec() == 21 && self.cards@.len() == 2,
            Some(HandResult::Win) => self.score_spec() <= 21,
            Some(HandResult::Lose) => self.score_spec() <= 21,
            Some(HandResult::Draw) => self.score_spec() <= 21,
        }
    }

    /// No settlement outcome has been recorded yet: the hand is fresh, has
    /// hit 21, has busted, or was a blackjack on the deal.
    pub open spec fn unsettled(self) -> bool {
        match self.result {
            None => true,
            Some(HandResult::Bust) => true,
            Some(HandResult::Blackjack) => true,
            Some(HandResult::TwentyOne) => true,
            _ => false,
        }
    }

    /// A hand may be split while it holds exactly two cards of equal rank
    /// value.
    pub open spec fn splittable_spec(self) -> bool {
        self.cards@.len() == 2 && card_value(self.cards@[0]) == card_value(self.cards@[1])
    }

    /// Whether the hand may be split: exactly two cards of equal rank value.
    pub fn splittable(&self) -> (r: bool)
        requires
            self.cards@.len() >= 2,
        ensures
            r == self.splittable_spec(),
    {
        if self.cards.len() > 2 {
            return false;
        }
        calc_card_score(&self.cards[0]) == calc_card_score(&self.cards[1])
    }

    /// The bet riding on this hand.
    pub fn bet(&self) -> (r: u32)
        ensures
            r == self.bet,
    {
        self.bet
    }

    /// The hand's current score.
    pub fn score(&self) -> (r: u8)
        requires
            self.wf(),
        ensures
            r == self.score_spec(),
    {
        proof {
            lemma_score_bounds(self.cards@);
        }
        calc_hand_score(&self.cards)
    }

    /// Deals a fresh hand of two cards for the given bet, recording a
    /// blackjack when the deal comes to 21.
    pub fn new(bet: u32) -> (h: Hand)
        ensures
            h.wf(),
            h.bet == bet,
            h.cards@.len() == 2,
            h.result == if h.score_spec() == 21 {
                Some(HandResult::Blackjack)
            } else {
                None::<HandResult>
            },
    {
        let mut cards: Vec<Card> = Vec::new();
        cards.push(Card::new());
        cards.push(Card::new());
        proof {
            lemma_two_card_score(cards@);
        }
        let mut result = None;
        if calc_hand_score(&cards) == 21 {
            result = Some(HandResult::Blackjack);
        }
        Hand { cards, bet, result }
    }

    /// Draws one card onto the hand. Going over 21 records a bust; landing
    /// exactly on 21 records a twenty-one (informational: the final
    /// comparison still happens at settlement); otherwise the recorded
    /// outcome is untouched.
    pub fn hit(&mut self)
        requires
            old(self).wf(),
            old(self).result is None,
        ensures
            final(self).wf(),
            final(self).bet == old(self).bet,
            final(self).cards@.len() == old(self).cards@.len() + 1,
            exists|c: Card| card_wf(c) && final(self).cards@ == old(self).cards@.push(c),
            final(self).score_spec() > 21 ==> final(self).result == Some(HandResult::Bust),
            final(self).score_spec() == 21 ==> final(self).result == Some(HandResult::TwentyOne),
            final(self).score_spec() < 21 ==> final(self).result == old(self).result,
    {
        let c = Card::new();
        proof {
            lemma_hit_score_upper(self.cards@, c);
        }
        self.cards.push(c);
        let score = calc_hand_score(&self.cards);
        if score > 21 {
            self.result = Some(HandResult::Bust);
        } else if score == 21 {
            self.result = Some(HandResult::TwentyOne);
        }
    }

    /// Records the hand's outcome against the dealer's final score: a win
    /// when the dealer busts or the hand scores higher, a loss when it
    /// scores lower, a push on a tie.
    pub fn compare(&mut self, dealer_score: u8)
        requires
            old(self).wf(),
            old(self).score_spec() <= 21,
        ensures
            final(self).wf(),
            final(self).cards@ == old(self).cards@,
            final(self).bet == old(self).bet,
            final(self).result == Some(
                if dealer_score > 21 || old(self).score_spec() > dealer_score {
                    HandResult::Win
                } else if old(self).score_spec() < dealer_score {
                    HandResult::Lose
                } else {
                    HandResult::Draw
                },
            ),
    {
        let score = self.score();
        if dealer_score > 21 || score > dealer_score {
            self.result = Some(HandResult::Win);
        } else if score < dealer_score {
            self.result = Some(HandResult::Lose);
        } else {
            self.result = Some(HandResult::Draw);
        }
    }

    /// Splits a two-card pair: the hand keeps its first card, the returned
    /// hand takes the second, each draws one replacement card for the same
    /// bet, and each is checked anew for an immediate blackjack.
    pub fn split(&mut self) -> (other: Hand)
        requires
            old(self).wf(),
            old(self).splittable_spec(),
        ensures
            final(self).wf(),
            other.wf(),
            final(self).bet == old(self).bet,
            other.bet == old(self).bet,
            exists|c: Card| card_wf(c) && final(self).cards@ == seq![old(self).cards@[0], c],
            exists|c: Card| card_wf(c) && other.cards@ == seq![old(self).cards@[1], c],
            final(self).result == if final(self).score_spec() == 21 {
                Some(HandResult::Blackjack)
            } else {
                None::<HandResult>
            },
            other.result == if other.score_spec() == 21 {
                Some(HandResult::Blackjack)
            } else {
                None::<HandResult>
            },
    {
        let kept = self.cards[0];
        let moved = self.cards[1];

        let mut cards: Vec<Card> = Vec::new();
        cards.push(kept);
        cards.push(Card::new());
        proof {
            lemma_two_card_score(cards@);
        }
        self.cards = cards;
        self.result = if calc_hand_score(&self.cards) == 21 {
            Some(HandResult::Blackjack)
        } else {
            None
        };

        let mut other_cards: Vec<Card> = Vec::new();
        other_cards.push(moved);
        other_cards.push(Card::new());
        proof {
            lemma_two_card_score(other_cards@);
        }
        let result = if calc_hand_score(&other_cards) == 21 {
            Some(HandResult::Blackjack)
        } else {
            None
        };
        Hand { cards: other_cards, bet: self.bet, result }
    }
}

/// The dealer's hand. One card (the second) is conceptually showing; the
/// rest stay hidden until the dealer's turn.
#[derive(Debug)]
pub struct Dealer {
    pub hand: Vec<Card>,
}

impl Dealer {
    /// The dealer's cards are well formed and the score stays within what
    /// drawing to 17 can reach.
    pub open spec fn wf(self) -> bool {
        &&& (forall|i: int| 0 <= i < self.hand@.len() ==> card_wf(#[trigger] self.hand@[i]))
        &&& hand_score(self.hand@) <= u8::MAX
    }

    /// The dealer's score, as a spec value.
    pub open spec fn score_spec(self) -> int {
        hand_score(self.hand@)
    }

    /// Deals the dealer two cards.
    pub fn new() -> (d: Dealer)
        ensures
            d.wf(),
            d.hand@.len() == 2,
            d.score_spec() <= 21,
    {
        let mut hand: Vec<Card> = Vec::new();
        hand.push(Card::new());
        hand.push(Card::new());
        proof {
            lemma_two_card_score(hand@);
        }
        Dealer { hand }
    }

    /// The dealer's fixed policy: draw while the score is under 17. On
    /// return the score is at least 17; it lies in [17, 21] (stand) or above
    /// (bust, at most 27 when the dealer drew at all).
    pub fn run(&mut self)
        requires
            old(self).wf(),
        ensures
            final(self).wf(),
            final(self).score_spec() >= 17,
            forall|i: int|
                0 <= i < old(self).hand@.len() ==> final(self).hand@[i] == old(self).hand@[i],
            old(self).score_spec() >= 17 ==> final(self).hand@ == old(self).hand@,
            old(self).score_spec() < 17 ==> final(self).score_spec() <= 27,
    {
        while calc_hand_score(&self.hand) < 17
            invariant
                self.wf(),
                self.hand@.len() >= old(self).hand@.len(),
                forall|i: int|
                    0 <= i < old(self).hand@.len() ==> self.hand@[i] == old(self).hand@[i],
                self.hand@ == old(self).hand@ || (old(self).score_spec() < 17
                    && self.score_spec() <= 27),
            decreases 27 - (sum_values(self.hand@) - 10 * count_aces(self.hand@)),
        {
            let c = Card::new();
            proof {
                lemma_hit_score_upper(self.hand@, c);
                lemma_sums_push(self.hand@, c);
                lemma_adjusted_closed(sum_values(self.hand@), count_aces(self.hand@));
                lemma_adjusted_closed(
                    sum_values(self.hand@.push(c)),
                    count_aces(self.hand@.push(c)),
                );
            }
            self.hand.push(c);
        }
    }

    /// Score of the dealer's showing card (the second one dealt).
    pub fn showing(&self) -> (r: u8)
        requires
            self.hand@.len() >= 2,
        ensures
            r == card_value(self.hand@[1]),
    {
        calc_card_score(&self.hand[1])
    }

    /// The dealer's current score.
    pub fn score(&self) -> (r: u8)
        requires
            self.wf(),
        ensures
            r == self.score_spec(),
    {
        calc_hand_score(&self.hand)
    }

    /// Takes the dealer's cards off the table.
    pub fn reset(&mut self)
        ensures
            final(self).wf(),
            final(self).hand@.len() == 0,
    {
        self.hand.clear();
    }
}

/// Total of the bets riding on a sequence of hands.
pub open spec fn sum_bets(hands: Seq<Hand>) -> int
    decreases hands.len(),
{
    if hands.len() == 0 {
        0
    } else {
        sum_bets(hands.drop_last()) + hands.last().bet
    }
}

/// The outcome settlement gives a hand against the dealer's final score:
/// busts and blackjacks keep what was recorded; every other hand wins when
/// the dealer busts or it scores higher, loses when it scores lower, and
/// pushes on a tie.
pub open spec fn settled_result(h: Hand, dealer_score: int) -> HandResult {
    match h.result {
        Some(HandResult::Bust) => HandResult::Bust,
        Some(HandResult::Blackjack) => HandResult::Blackjack,
        _ => {
            if dealer_score > 21 || hand_score(h.cards@) > dealer_score {
                HandResult::Win
            } else if hand_score(h.cards@) < dealer_score {
                HandResult::Lose
            } else {
                HandResult::Draw
            }
        },
    }
}

/// Bank movement an outcome causes: a win pays the bet one to one, a
/// blackjack pays one and a half bets (rounded down), a loss or bust
/// forfeits the bet, and a push pays nothing.
pub open spec fn result_delta(r: HandResult, bet: u32) -> int {
    match r {
        HandResult::Win => bet as int,
        HandResult::TwentyOne => bet as int,
        HandResult::Bust => -(bet as int),
        HandResult::Lose => -(bet as int),
        HandResult::Draw => 0,
        HandResult::Blackjack => (3 * bet) / 2,
    }
}

/// Total bank movement of settling these hands against a dealer score.
pub open spec fn settle_deltas(hands: Seq<Hand>, dealer_score: int) -> int
    decreases hands.len(),
{
    if hands.len() == 0 {
        0
    } else {
        settle_deltas(hands.drop_last(), dealer_score) + result_delta(
            settled_result(hands.last(), dealer_score),
            hands.last().bet,
        )
    }
}

/// Total bank movement already recorded on settled hands; hands not yet
/// settled contribute nothing.
pub open spec fn recorded_deltas(hands: Seq<Hand>) -> int
    decreases hands.len(),
{
    if hands.len() == 0 {
        0
    } else {
        recorded_deltas(hands.drop_last()) + match hands.last().result {
            Some(r) => result_delta(r, hands.last().bet),
            None => 0,
        }
    }
}

/// A prefix of the table never carries more in bets than the whole table.
proof fn lemma_sum_bets_take_le(hands: Seq<Hand>, k: int)
    requires
        0 <= k <= hands.len(),
    ensures
        0 <= sum_bets(hands.take(k)) <= sum_bets(hands),
    decreases hands.len(),
{
    if k == hands.len() {
        assert(hands.take(k) =~= hands);
        lemma_sum_bets_nonneg(hands);
    } else {
        assert(hands.take(k) =~= hands.drop_last().take(k));
        lemma_sum_bets_take_le(hands.drop_last(), k);
    }
}

proof fn lemma_sum_bets_nonneg(hands: Seq<Hand>)
    ensures
        sum_bets(hands) >= 0,
    decreases hands.len(),
{
    if hands.len() > 0 {
        lemma_sum_bets_nonneg(hands.drop_last());
    }
}

/// Two tables whose hands carry the same bets carry the same total.
proof fn lemma_sum_bets_pointwise(a: Seq<Hand>, b: Seq<Hand>)
    requires
        a.len() == b.len(),
        forall|i: int| 0 <= i < a.len() ==> a[i].bet == b[i].bet,
    ensures
        sum_bets(a) == sum_bets(b),
    decreases a.len(),
{
    if a.len() > 0 {
        lemma_sum_bets_pointwise(a.drop_last(), b.drop_last());
    }
}

/// Settling a table never costs more than its bets and never pays more than
/// twice its bets.
proof fn lemma_settle_deltas_bounds(hands: Seq<Hand>, dealer_score: int)
    ensures
        -sum_bets(hands) <= settle_deltas(hands, dealer_score) <= 2 * sum_bets(hands),
    decreases hands.len(),
{
    if hands.len() > 0 {
        lemma_settle_deltas_bounds(hands.drop_last(), dealer_score);
    }
}

/// Once every hand carries the outcome settlement assigns it, the recorded
/// bank movement of the settled table is the settlement total of the
/// original one.
proof fn lemma_recorded_matches_settled(pre: Seq<Hand>, post: Seq<Hand>, dealer_score: int)
    requires
        pre.len() == post.len(),
        forall|i: int|
            0 <= i < pre.len() ==> (#[trigger] post[i]).result == Some(
                settled_result(pre[i], dealer_score),
            ) && post[i].bet == pre[i].bet,
    ensures
        recorded_deltas(post) == settle_deltas(pre, dealer_score),
    decreases pre.len(),
{
    if pre.len() > 0 {
        lemma_recorded_matches_settled(pre.drop_last(), post.drop_last(), dealer_score);
    }
}

/// Does a recorded outcome agree with the hand's score held against the
/// dealer's final score?
pub open spec fn result_correct(h: Hand, dealer_score: int) -> bool {
    let s = hand_score(h.cards@);
    match h.result {
        Some(HandResult::Win) => s <= 21 && (dealer_score > 21 || s > dealer_score),
        Some(HandResult::Lose) => s < dealer_score <= 21,
        Some(HandResult::Draw) => s == dealer_score && s <= 21,
        Some(HandResult::Bust) => s > 21,
        Some(HandResult::Blackjack) => s == 21 && h.cards@.len() == 2,
        _ => false,
    }
}

/// The outcome settlement assigns an unsettled hand always agrees with its
/// score against the dealer's.
proof fn lemma_settled_correct(pre: Hand, post: Hand, dealer_score: int)
    requires
        pre.wf(),
        pre.unsettled(),
        post.result == Some(settled_result(pre, dealer_score)),
        post.cards@ == pre.cards@,
    ensures
        result_correct(post, dealer_score),
{
}

impl Default for Dealer {
    /// A fresh dealer hand of two cards.
    fn default() -> (d: Self)
        ensures
            d.wf(),
            d.hand@.len() == 2,
    {
        Dealer::new()
    }
}

/// A blackjack session: the bank, the player's hands (two after a split),
/// the dealer, the phase, and how many hands still await play.
#[derive(Debug)]
pub struct Game {
    pub bank: u32,
    pub player: Vec<Hand>,
    pub dealer: Dealer,
    pub state: State,
    pub active_hands: usize,
}

impl Game {
    /// The hand currently being played: the one at `active_hands - 1`.
    pub open spec fn active_spec(self) -> Hand {
        self.player@[self.active_hands - 1]
    }

    /// The session invariant. At most two hands (one split); every hand and
    /// the dealer well formed. Betting starts from an empty table; during
    /// play at least one hand awaits play, no hand is settled, the dealer
    /// shows two or more cards, the table's bets are covered by the bank,
    /// and the bank is low enough that no payout can overflow it.
    pub open spec fn wf(self) -> bool {
        &&& self.player@.len() <= 2
        &&& (forall|i: int| 0 <= i < self.player@.len() ==> (#[trigger] self.player@[i]).wf())
        &&& self.dealer.wf()
        &&& match self.state {
            State::Bet => self.player@.len() == 0 && self.active_hands == 1,
            State::Play => {
                &&& 1 <= self.active_hands <= self.player@.len()
                &&& (forall|i: int|
                    0 <= i < self.player@.len() ==> (#[trigger] self.player@[i]).unsettled())
                &&& self.dealer.hand@.len() >= 2
                &&& sum_bets(self.player@) <= self.bank
                &&& 4 * self.bank <= u32::MAX
            },
            State::Results => self.active_hands == 0,
        }
    }

    /// A split is allowed while the table holds the one original hand, that
    /// hand is a two-card pair of equal rank value, and the bank covers the
    /// second bet.
    pub open spec fn can_split(self) -> bool {
        &&& self.player@.len() == 1
        &&& self.active_spec().splittable_spec()
        &&& sum_bets(self.player@) + self.active_spec().bet <= self.bank
    }

    /// Opens a session with the given bank, ready for a first bet.
    pub fn new(bank: u32) -> (g: Game)
        ensures
            g.wf(),
            g.bank == bank,
            g.state is Bet,
            g.player@.len() == 0,
            g.active_hands == 1,
            g.dealer.hand@.len() == 2,
    {
        let player = Vec::new();
        let dealer = Dealer::new();
        let state = State::Bet;
        let active_hands: usize = 1;

        Game { bank, player, dealer, state, active_hands }
    }

    /// Stakes a bet: deals the player one two-card hand carrying it and the
    /// dealer two fresh cards, then opens play. The caller has validated the
    /// amount: it is positive and within the bank, and the bank is low
    /// enough that the round's payouts fit the balance type.
    pub fn place_bet(&mut self, bet: u32)
        requires
            old(self).wf(),
            old(self).state is Bet,
            0 < bet <= old(self).bank,
            4 * old(self).bank <= u32::MAX,
        ensures
            final(self).wf(),
            final(self).state is Play,
            final(self).bank == old(self).bank,
            final(self).active_hands == 1,
            final(self).player@.len() == 1,
            final(self).player@[0].bet == bet,
            final(self).player@[0].cards@.len() == 2,
            final(self).player@[0].result == if final(self).player@[0].score_spec() == 21 {
                Some(HandResult::Blackjack)
            } else {
                None::<HandResult>
            },
            final(self).dealer.hand@.len() == 2,
    {
        self.player.push(Hand::new(bet));
        self.dealer = Dealer::new();
        self.state = State::Play;
        proof {
            assert(self.player@.drop_last() =~= Seq::<Hand>::empty());
            assert(sum_bets(Seq::<Hand>::empty()) == 0);
        }
    }

    /// Clears the table for a new round: all hands leave, the phase returns
    /// to betting, and the bank is untouched.
    pub fn reset(&mut self)
        requires
            old(self).wf(),
            old(self).state is Results,
        ensures
            final(self).wf(),
            final(self).bank == old(self).bank,
            final(self).state is Bet,
            final(self).player@.len() == 0,
            final(self).dealer.hand@.len() == 0,
            final(self).active_hands == 1,
    {
        self.player.clear();
        self.dealer.reset();
        self.active_hands = 1;
        self.state = State::Bet;
    }

    /// The hand currently being played.
    pub fn active_hand(&self) -> (h: &Hand)
        requires
            self.wf(),
            self.state is Play,
        ensures
            *h == self.active_spec(),
    {
        &self.player[self.active_hands - 1]
    }

    /// Whether the hand currently being played may be split: it holds
    /// exactly two cards of equal rank value.
    pub fn splittable(&self) -> (r: bool)
        requires
            self.wf(),
            self.state is Play,
        ensures
            r == self.active_spec().splittable_spec(),
    {
        let hand = self.active_hand();
        if hand.cards.len() > 2 {
            return false;
        }
        calc_card_score(&hand.cards[0]) == calc_card_score(&hand.cards[1])
    }
}

impl Game {
    /// Applies one play-phase decision to the hand awaiting play. A stand,
    /// or a hit that busts, moves play on to the next hand; once no hand
    /// remains the dealer draws to 17, every hand is settled, and the phase
    /// moves to results. A split turns the single original pair into two
    /// hands, both still awaiting play.
    pub fn execute(&mut self, command: Command)
        requires
            old(self).wf(),
            old(self).state is Play,
            command is Hit ==> old(self).active_spec().result is None,
            command is Split ==> old(self).can_split(),
        ensures
            final(self).wf(),
            final(self).state is Play || final(self).state is Results,
            final(self).player@.len() == old(self).player@.len() + if command is Split {
                1int
            } else {
                0
            },
            forall|j: int|
                0 <= j < old(self).player@.len() ==> (#[trigger] final(self).player@[j]).bet == old(self).player@[j].bet,
            (command is Stand ==> {
                &&& final(self).active_hands == old(self).active_hands - 1
                &&& forall|j: int|
                    0 <= j < old(self).player@.len() ==> (#[trigger] final(self).player@[j]).cards@ == old(self).player@[j].cards@
            }),
            (command is Hit ==> {
                let i = old(self).active_hands - 1;
                &&& exists|c: Card|
                    card_wf(c) && final(self).player@[i].cards@ == old(self).player@[i].cards@.push(
                        c,
                    )
                &&& forall|j: int|
                    0 <= j < old(self).player@.len() && j != i ==> (#[trigger] final(self).player@[j]).cards@ == old(self).player@[j].cards@
                &&& (hand_score(final(self).player@[i].cards@) > 21 ==> final(self).active_hands
                    == old(self).active_hands - 1)
                &&& (hand_score(final(self).player@[i].cards@) <= 21 ==> final(self).active_hands
                    == old(self).active_hands && final(self).state is Play)
            }),
            (command is Split ==> {
                &&& final(self).state is Play
                &&& final(self).active_hands == 2
                &&& final(self).player@.len() == 2
                &&& (exists|c: Card|
                    card_wf(c) && final(self).player@[0].cards@ == seq![
                        old(self).player@[0].cards@[0],
                        c,
                    ])
                &&& (exists|c: Card|
                    card_wf(c) && final(self).player@[1].cards@ == seq![
                        old(self).player@[0].cards@[1],
                        c,
                    ])
                &&& (forall|j: int|
                    0 <= j < 2 ==> (#[trigger] final(self).player@[j]).result == if hand_score(
                        final(self).player@[j].cards@,
                    ) == 21 {
                        Some(HandResult::Blackjack)
                    } else {
                        None::<HandResult>
                    })
            }),
            (final(self).state is Play ==> {
                &&& final(self).bank == old(self).bank
                &&& final(self).dealer.hand@ == old(self).dealer.hand@
                &&& final(self).active_hands >= 1
            }),
            (command is Stand && final(self).state is Play ==> forall|j: int|
                0 <= j < old(self).player@.len() ==> (#[trigger] final(self).player@[j]).result
                    == old(self).player@[j].result),
            (command is Hit && final(self).state is Play ==> {
                let i = old(self).active_hands - 1;
                &&& forall|j: int|
                    0 <= j < old(self).player@.len() && j != i ==> (#[trigger] final(self).player@[j]).result == old(self).player@[j].result
                &&& (hand_score(final(self).player@[i].cards@) == 21 ==> final(self).player@[i].result == Some(HandResult::TwentyOne))
                &&& (hand_score(final(self).player@[i].cards@) < 21 ==> final(self).player@[i].result == old(self).player@[i].result)
            }),
            (final(self).state is Results ==> {
                &&& final(self).active_hands == 0
                &&& final(self).dealer.score_spec() >= 17
                &&& final(self).bank == old(self).bank + recorded_deltas(final(self).player@)
                &&& forall|j: int|
                    0 <= j < final(self).player@.len() ==> result_correct(
                        #[trigger] final(self).player@[j],
                        final(self).dealer.score_spec(),
                    )
            }),
    {
        match command {
            Command::Hit => {
                let idx = self.active_hands - 1;
                let mut hand = self.player.remove(idx);
                hand.hit();
                let busted = hand.score() > 21;
                let ghost h2 = hand;
                self.player.insert(idx, hand);
                proof {
                    assert(self.player@ =~= old(self).player@.update(idx as int, h2));
                    lemma_sum_bets_pointwise(self.player@, old(self).player@);
                }
                if busted {
                    self.active_hands = self.active_hands - 1;
                }
            },
            Command::Stand => {
                self.active_hands = self.active_hands - 1;
            },
            Command::Split => {
                let mut hand = self.player.remove(0);
                let split_hand = hand.split();
                let ghost h0 = hand;
                let ghost h1 = split_hand;
                self.player.insert(0, hand);
                self.player.push(split_hand);
                self.active_hands = self.active_hands + 1;
                proof {
                    assert(self.player@ =~= seq![h0, h1]);
                    assert(self.player@.drop_last() =~= seq![h0]);
                    assert(seq![h0].drop_last() =~= Seq::<Hand>::empty());
                    assert(old(self).player@.drop_last() =~= Seq::<Hand>::empty());
                    assert(sum_bets(Seq::<Hand>::empty()) == 0);
                    assert(sum_bets(seq![h0]) == h0.bet);
                    assert(sum_bets(old(self).player@) == old(self).player@[0].bet);
                }
            },
        }

        if self.active_hands == 0 {
            self.dealer.run();
            let ghost mid = *self;
            self.calc_results();
            self.state = State::Results;
            proof {
                assert forall|j: int| 0 <= j < self.player@.len() implies result_correct(
                    #[trigger] self.player@[j],
                    self.dealer.score_spec(),
                ) by {
                    lemma_settled_correct(
                        mid.player@[j],
                        self.player@[j],
                        self.dealer.score_spec(),
                    );
                }
            }
        }
    }

    /// Settles every hand against the dealer's score and moves the bank
    /// accordingly: a win pays the bet, a blackjack pays one and a half
    /// bets, a bust or loss forfeits the bet, a push pays nothing. Busted
    /// hands lose without consulting the dealer's score.
    pub fn calc_results(&mut self)
        requires
            forall|i: int|
                0 <= i < old(self).player@.len() ==> (#[trigger] old(self).player@[i]).wf(),
            forall|i: int|
                0 <= i < old(self).player@.len() ==> (#[trigger] old(self).player@[i]).unsettled(),
            old(self).dealer.wf(),
            sum_bets(old(self).player@) <= old(self).bank,
            4 * old(self).bank <= u32::MAX,
        ensures
            final(self).player@.len() == old(self).player@.len(),
            forall|i: int|
                0 <= i < old(self).player@.len() ==> {
                    &&& (#[trigger] final(self).player@[i]).result == Some(
                        settled_result(old(self).player@[i], old(self).dealer.score_spec()),
                    )
                    &&& final(self).player@[i].cards@ == old(self).player@[i].cards@
                    &&& final(self).player@[i].bet == old(self).player@[i].bet
                    &&& final(self).player@[i].wf()
                },
            final(self).bank == old(self).bank + settle_deltas(
                old(self).player@,
                old(self).dealer.score_spec(),
            ),
            final(self).bank == old(self).bank + recorded_deltas(final(self).player@),
            final(self).dealer.hand@ == old(self).dealer.hand@,
            final(self).state == old(self).state,
            final(self).active_hands == old(self).active_hands,
    {
        let ghost hands0 = self.player@;
        let ghost bank0 = self.bank;
        let ghost ds = self.dealer.score_spec();
        let dealer_score = self.dealer.score();
        let mut i: usize = 0;
        while i < self.player.len()
            invariant
                0 <= i <= hands0.len(),
                self.player@.len() == hands0.len(),
                forall|j: int|
                    i <= j < hands0.len() ==> {
                        &&& (#[trigger] self.player@[j]).result == hands0[j].result
                        &&& self.player@[j].cards@ == hands0[j].cards@
                        &&& self.player@[j].bet == hands0[j].bet
                    },
                forall|j: int|
                    0 <= j < i ==> {
                        &&& (#[trigger] self.player@[j]).result == Some(
                            settled_result(hands0[j], ds),
                        )
                        &&& self.player@[j].cards@ == hands0[j].cards@
                        &&& self.player@[j].bet == hands0[j].bet
                        &&& self.player@[j].wf()
                    },
                forall|j: int| 0 <= j < hands0.len() ==> (#[trigger] hands0[j]).wf(),
                forall|j: int| 0 <= j < hands0.len() ==> (#[trigger] hands0[j]).unsettled(),
                self.bank == bank0 + settle_deltas(hands0.take(i as int), ds),
                sum_bets(hands0) <= bank0,
                4 * bank0 <= u32::MAX,
                dealer_score == ds,
                self.dealer.hand@ == old(self).dealer.hand@,
                self.state == old(self).state,
                self.active_hands == old(self).active_hands,
            decreases hands0.len() - i,
        {
            let ghost taken = hands0.take(i as int);
            let mut hand = self.player.remove(i);
            let r: HandResult = match hand.result {
                Some(HandResult::Bust) => HandResult::Bust,
                Some(HandResult::Blackjack) => HandResult::Blackjack,
                _ => {
                    let s = hand.score();
                    if dealer_score > 21 || s > dealer_score {
                        HandResult::Win
                    } else if s < dealer_score {
                        HandResult::Lose
                    } else {
                        HandResult::Draw
                    }
                },
            };
            hand.result = Some(r);
            proof {
                assert(r == settled_result(hands0[i as int], ds));
                assert(hands0.take(i + 1).drop_last() =~= taken);
                lemma_settle_deltas_bounds(taken, ds);
                lemma_settle_deltas_bounds(hands0.take(i + 1), ds);
                lemma_sum_bets_take_le(hands0, i + 1);
            }
            match r {
                HandResult::Win | HandResult::TwentyOne => {
                    self.bank = self.bank + hand.bet;
                },
                HandResult::Bust | HandResult::Lose => {
                    self.bank = self.bank - hand.bet;
                },
                HandResult::Draw => {},
                HandResult::Blackjack => {
                    self.bank = self.bank + hand.bet * 3 / 2;
                },
            }
            self.player.insert(i, hand);
            i = i + 1;
        }
        proof {
            assert(hands0.take(hands0.len() as int) =~= hands0);
            lemma_recorded_matches_settled(hands0, self.player@, ds);
        }
    }
}

impl Default for Game {
    /// A session with the default starting bank of 100 units.
    fn default() -> (g: Self)
        ensures
            g.wf(),
            g.bank == 100,
            g.state is Bet,
            g.player@.len() == 0,
    {
        Game::new(100)
    }
}

} // verus!
