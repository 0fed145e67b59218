use blackjack::app::{App, Command, GameState};
use blackjack::cards::{Card, Rank, Suit};

fn card(suit: Suit, rank: Rank) -> Card {
    Card { suit, rank }
}

#[test]
fn deal() {
    let app = App::default();
    let player_count = app.player_hand.len();
    let dealer_count = app.dealer_hand.len();
    assert_eq!(2, player_count);
    assert_eq!(2, dealer_count);
    assert!(app.player_score() > 1);
    assert!(app.dealer_showing() > 1);
}

#[test]
fn hit() {
    let mut app = App::default();
    // A hand without an Ace: any draw strictly raises the score.
    app.player_hand = vec![
        card(Suit::Spades, Rank::Jack),
        card(Suit::Hearts, Rank::Pip(5)),
    ];
    let old_player_score = app.player_score();

    app.run(Command::Hit);
    let new_player_score = app.player_score();
    assert!(new_player_score > old_player_score);

    let player_count = app.player_hand.len();
    let dealer_count = app.dealer_hand.len();
    assert_eq!(3, player_count);
    assert_eq!(2, dealer_count);
}

#[test]
fn stand() {
    let mut app = App::default();
    let old_player_score = app.player_score();
    app.run(Command::Stand);
    assert_eq!(old_player_score, app.player_score());
    matches!(app.state, GameState::Win | GameState::Lose);
}

#[test]
fn app_calc_score_test() {
    let jack_of_spades = Card {
        suit: Suit::Spades,
        rank: Rank::Jack,
    };
    let two_of_diamonds = Card {
        suit: Suit::Diamonds,
        rank: Rank::Pip(2),
    };
    let hand = vec![jack_of_spades, two_of_diamonds];
    assert_eq!(blackjack::scoring::calc_hand_score(&hand), 12);

    let ace_of_hearts = Card {
        suit: Suit::Hearts,
        rank: Rank::Ace,
    };
    let king_of_diamonds = Card {
        suit: Suit::Diamonds,
        rank: Rank::King,
    };
    let hand = vec![ace_of_hearts, king_of_diamonds];
    assert_eq!(blackjack::scoring::calc_hand_score(&hand), 21);

    let ace_of_hearts = Card {
        suit: Suit::Hearts,
        rank: Rank::Ace,
    };
    let ace_of_spades = Card {
        suit: Suit::Spades,
        rank: Rank::Ace,
    };
    let hand = vec![ace_of_hearts, ace_of_spades];
    assert_eq!(blackjack::scoring::calc_hand_score(&hand), 12);

    let three_of_hearts = Card {
        suit: Suit::Hearts,
        rank: Rank::Pip(3),
    };
    let four_of_clubs = Card {
        suit: Suit::Hearts,
        rank: Rank::Pip(4),
    };
    let hand = vec![three_of_hearts, four_of_clubs];
    assert_eq!(blackjack::scoring::calc_hand_score(&hand), 7);

    // Ensure scoring logic for aces is working appropriately
    let mut cards: Vec<Card> = Vec::new();
    for _ in 1..13 {
        cards.push(Card {
            suit: Suit::Hearts,
            rank: Rank::Ace,
        })
    }
    assert_eq!(blackjack::scoring::calc_hand_score(&cards), 12);
}

#[test]
fn advance_dealer_win_pays_bet() {
    let mut app = App {
        bank: 100,
        player_hand: vec![
            card(Suit::Spades, Rank::King),
            card(Suit::Hearts, Rank::Queen),
        ],
        dealer_hand: vec![
            card(Suit::Clubs, Rank::King),
            card(Suit::Diamonds, Rank::Pip(7)),
        ],
        current_bet: 10,
        state: GameState::DealerTurn,
    };
    app.run(Command::AdvanceDealer);
    assert!(matches!(app.state, GameState::Win));
    assert_eq!(app.bank, 110);
}

#[test]
fn advance_dealer_tie_loses_bet() {
    let mut app = App {
        bank: 100,
        player_hand: vec![
            card(Suit::Spades, Rank::King),
            card(Suit::Hearts, Rank::Queen),
        ],
        dealer_hand: vec![
            card(Suit::Clubs, Rank::King),
            card(Suit::Diamonds, Rank::Queen),
        ],
        current_bet: 10,
        state: GameState::DealerTurn,
    };
    app.run(Command::AdvanceDealer);
    assert!(matches!(app.state, GameState::Lose));
    assert_eq!(app.bank, 90);
}

#[test]
fn advance_dealer_draws_under_17() {
    let mut app = App {
        bank: 100,
        player_hand: vec![
            card(Suit::Spades, Rank::King),
            card(Suit::Hearts, Rank::Queen),
        ],
        dealer_hand: vec![
            card(Suit::Clubs, Rank::Pip(2)),
            card(Suit::Diamonds, Rank::Pip(3)),
        ],
        current_bet: 10,
        state: GameState::DealerTurn,
    };
    app.run(Command::AdvanceDealer);
    assert_eq!(app.dealer_hand.len(), 3);
    assert_eq!(app.bank, 100);
    assert!(matches!(app.state, GameState::DealerTurn));
}
