//! A single-hand round driven one keypress at a time: the player hits or
//! stands against one dealer hand, and the dealer is advanced one draw per
//! command until the round settles as a win or a loss.

use vstd::prelude::*;

use crate::cards::{card_wf, Card};
use crate::scoring::{
    calc_card_score, calc_hand_score, card_value, hand_score, lemma_hit_score_upper,
    lemma_score_bounds, lemma_two_card_score,
};

verus! {

/// Where the single-hand round stands. There is no push here: the dealer
/// wins ties.
#[derive(Debug, Clone, Copy, PartialEq, Eq, Structural)]
pub enum GameState {
    EnterBet,
    PlayerTurn,
    DealerTurn,
    Win,
    Lose,
}

/// A keypress-sized step of the round. `AdvanceDealer` performs one dealer
/// draw or, once the dealer stands or busts, the settlement.
#[derive(Debug, Clone, Copy, PartialEq, Eq, Structural)]
pub enum Command {
    Hit,
    Stand,
    AdvanceDealer,
    Split,
}

/// The single-hand round: bank, the two hands, the bet, and the phase.
#[derive(Debug)]
pub struct App {
    pub bank: u32,
    pub player_hand: Vec<Card>,
    pub dealer_hand: Vec<Card>,
    pub current_bet: u32,
    pub state: GameState,
}

impl App {
    /// Both hands hold well-formed cards and score within the scoring
    /// function's range.
    pub open spec fn hands_ok(self) -> bool {
        &&& (forall|i: int|
            0 <= i < self.player_hand@.len() ==> card_wf(#[trigger] self.player_hand@[i]))
        &&& (forall|i: int|
            0 <= i < self.dealer_hand@.len() ==> card_wf(#[trigger] self.dealer_hand@[i]))
        &&& hand_score(self.player_hand@) <= u8::MAX
        &&& hand_score(self.dealer_hand@) <= u8::MAX
    }

    /// The round invariant: the hands are well formed; before the round is
    /// settled the bet is covered by the bank and a win's payout fits the
    /// balance; before a bet is placed the bet is zero.
    pub open spec fn wf(self) -> bool {
        &&& self.hands_ok()
        &&& (self.state is Win || self.state is Lose || (self.current_bet <= self.bank
            && self.bank + self.current_bet <= u32::MAX))
        &&& (self.state is EnterBet ==> self.current_bet == 0)
    }

    /// Opens a round with the given bank: two cards each for player and
    /// dealer, no bet yet.
    pub fn new(bank: u32) -> (a: App)
        ensures
            a.wf(),
            a.bank == bank,
            a.current_bet == 0,
            a.state is EnterBet,
            a.player_hand@.len() == 2,
            a.dealer_hand@.len() == 2,
    {
        let mut player_hand: Vec<Card> = Vec::new();
        player_hand.push(Card::new());
        player_hand.push(Card::new());
        let mut dealer_hand: Vec<Card> = Vec::new();
        dealer_hand.push(Card::new());
        dealer_hand.push(Card::new());
        proof {
            lemma_two_card_score(player_hand@);
            lemma_two_card_score(dealer_hand@);
        }

        App { bank, player_hand, dealer_hand, current_bet: 0, state: GameState::EnterBet }
    }

    /// Stakes a bet and hands the turn to the player. The caller has
    /// validated the amount: positive, within the bank, and small enough
    /// that a win's payout fits the balance type.
    pub fn place_bet(&mut self, bet: u32)
        requires
            old(self).wf(),
            0 < bet <= old(self).bank,
            old(self).bank + bet <= u32::MAX,
        ensures
            final(self).wf(),
            final(self).current_bet == bet,
            final(self).state is PlayerTurn,
            final(self).bank == old(self).bank,
            final(self).player_hand@ == old(self).player_hand@,
            final(self).dealer_hand@ == old(self).dealer_hand@,
    {
        self.current_bet = bet;
        self.state = GameState::PlayerTurn;
    }

    /// Clears the bet, redeals both hands, and waits for the next bet. The
    /// bank carries over untouched.
    pub fn reset(&mut self)
        ensures
            final(self).wf(),
            final(self).bank == old(self).bank,
            final(self).current_bet == 0,
            final(self).state is EnterBet,
            final(self).player_hand@.len() == 2,
            final(self).dealer_hand@.len() == 2,
    {
        self.current_bet = 0;
        self.player_hand.clear();
        self.player_hand.push(Card::new());
        self.player_hand.push(Card::new());

        self.dealer_hand.clear();
        self.dealer_hand.push(Card::new());
        self.dealer_hand.push(Card::new());

        proof {
            lemma_two_card_score(self.player_hand@);
            lemma_two_card_score(self.dealer_hand@);
        }
        self.state = GameState::EnterBet;
    }

    /// The player's current score.
    pub fn player_score(&self) -> (r: u8)
        requires
            self.hands_ok(),
        ensures
            r == hand_score(self.player_hand@),
    {
        proof {
            lemma_score_bounds(self.player_hand@);
        }
        calc_hand_score(&self.player_hand)
    }

    /// Score of the dealer's showing card (the first one dealt).
    pub fn dealer_showing(&self) -> (r: u8)
        requires
            self.dealer_hand@.len() >= 1,
        ensures
            r == card_value(self.dealer_hand@[0]),
    {
        calc_card_score(&self.dealer_hand[0])
    }

    /// The dealer's current score.
    pub fn dealer_score(&self) -> (r: u8)
        requires
            self.hands_ok(),
        ensures
            r == hand_score(self.dealer_hand@),
    {
        proof {
            lemma_score_bounds(self.dealer_hand@);
        }
        calc_hand_score(&self.dealer_hand)
    }

    /// Applies one command. A hit draws for the player and loses the round
    /// on a bust. A stand hands the turn to the dealer. Advancing the dealer
    /// draws once while the dealer is under 17; at 17 or more it settles:
    /// the player wins the bet when the dealer busts or trails the player,
    /// and loses it otherwise — the dealer wins ties here. Splitting is not
    /// part of this round shape.
    pub fn run(&mut self, command: Command)
        requires
            old(self).wf(),
            !(command is Split),
            command is Hit ==> hand_score(old(self).player_hand@) <= 21,
            command is Stand ==> !(old(self).state is Win) && !(old(self).state is Lose),
            command is AdvanceDealer ==> old(self).state is DealerTurn && hand_score(
                old(self).player_hand@,
            ) <= 21,
        ensures
            final(self).wf(),
            final(self).current_bet == old(self).current_bet,
            (command is Hit ==> {
                &&& exists|c: Card|
                    card_wf(c) && final(self).player_hand@ == old(self).player_hand@.push(c)
                &&& final(self).dealer_hand@ == old(self).dealer_hand@
                &&& final(self).bank == old(self).bank
                &&& (hand_score(final(self).player_hand@) > 21 ==> final(self).state is Lose)
                &&& (hand_score(final(self).player_hand@) <= 21 ==> final(self).state == old(
                    self,
                ).state)
            }),
            (command is Stand ==> {
                &&& final(self).player_hand@ == old(self).player_hand@
                &&& final(self).dealer_hand@ == old(self).dealer_hand@
                &&& final(self).bank == old(self).bank
                &&& final(self).state is DealerTurn
            }),
            (command is AdvanceDealer ==> {
                let ds = hand_score(old(self).dealer_hand@);
                let ps = hand_score(old(self).player_hand@);
                &&& final(self).player_hand@ == old(self).player_hand@
                &&& (ds < 17 ==> {
                    &&& exists|c: Card|
                        card_wf(c) && final(self).dealer_hand@ == old(self).dealer_hand@.push(c)
                    &&& final(self).bank == old(self).bank
                    &&& final(self).state == old(self).state
                })
                &&& (ds >= 17 ==> {
                    &&& final(self).dealer_hand@ == old(self).dealer_hand@
                    &&& ((ds > 21 || ds < ps) ==> final(self).state is Win && final(self).bank
                        == old(self).bank + old(self).current_bet)
                    &&& ((ds <= 21 && ds >= ps) ==> final(self).state is Lose && final(self).bank
                        == old(self).bank - old(self).current_bet)
                })
            }),
    {
        match command {
            Command::Hit => {
                let c = Card::new();
                proof {
                    lemma_hit_score_upper(self.player_hand@, c);
                }
                self.player_hand.push(c);
                if self.player_score() > 21 {
                    self.state = GameState::Lose;
                }
            },
            Command::Stand => {
                self.state = GameState::DealerTurn;
            },
            Command::AdvanceDealer => {
                if self.dealer_score() < 17 {
                    let c = Card::new();
                    proof {
                        lemma_hit_score_upper(self.dealer_hand@, c);
                    }
                    self.dealer_hand.push(c);
                } else if self.dealer_score() > 21 || self.dealer_score() < self.player_score() {
                    self.state = GameState::Win;
                    self.bank = self.bank + self.current_bet;
                } else {
                    self.state = GameState::Lose;
                    self.bank = self.bank - self.current_bet;
                }
            },
            Command::Split => {
                proof {
                    assert(false);
                }
            },
        }
    }
}

impl Default for App {
    /// A round with the default starting bank of 100 units.
    fn default() -> (a: Self)
        ensures
            a.wf(),
            a.bank == 100,
            a.current_bet == 0,
            a.state is EnterBet,
            a.player_hand@.len() == 2,
            a.dealer_hand@.len() == 2,
    {
        App::new(100)
    }
}

} // verus!
