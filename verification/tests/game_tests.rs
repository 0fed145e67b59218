use blackjack::cards::{Card, Rank, Suit};
use blackjack::game::{Command, Dealer, Game, Hand, HandResult, State};

fn card(suit: Suit, rank: Rank) -> Card {
    Card { suit, rank }
}

fn hand(cards: Vec<Card>, bet: u32, result: Option<HandResult>) -> Hand {
    Hand { cards, bet, result }
}

fn table(bank: u32, player: Vec<Hand>, dealer: Vec<Card>) -> Game {
    Game {
        bank,
        player,
        dealer: Dealer { hand: dealer },
        state: State::Play,
        active_hands: 0,
    }
}

#[test]
fn game_calc_score_test() {
    let jack_of_spades = Card {
        suit: Suit::Spades,
        rank: Rank::Jack,
    };
    let two_of_diamonds = Card {
        suit: Suit::Diamonds,
        rank: Rank::Pip(2),
    };
    let hand = vec![jack_of_spades, two_of_diamonds];
    assert_eq!(blackjack::scoring::calc_hand_score(&hand), 12);

    let ace_of_hearts = Card {
        suit: Suit::Hearts,
        rank: Rank::Ace,
    };
    let king_of_diamonds = Card {
        suit: Suit::Diamonds,
        rank: Rank::King,
    };
    let hand = vec![ace_of_hearts, king_of_diamonds];
    assert_eq!(blackjack::scoring::calc_hand_score(&hand), 21);

    let ace_of_hearts = Card {
        suit: Suit::Hearts,
        rank: Rank::Ace,
    };
    let ace_of_spades = Card {
        suit: Suit::Spades,
        rank: Rank::Ace,
    };
    let hand = vec![ace_of_hearts, ace_of_spades];
    assert_eq!(blackjack::scoring::calc_hand_score(&hand), 12);

    let three_of_hearts = Card {
        suit: Suit::Hearts,
        rank: Rank::Pip(3),
    };
    let four_of_clubs = Card {
        suit: Suit::Hearts,
        rank: Rank::Pip(4),
    };
    let hand = vec![three_of_hearts, four_of_clubs];
    assert_eq!(blackjack::scoring::calc_hand_score(&hand), 7);

    // Ensure scoring logic for aces is working appropriately
    let mut cards: Vec<Card> = Vec::new();
    for _ in 1..13 {
        cards.push(Card {
            suit: Suit::Hearts,
            rank: Rank::Ace,
        })
    }
    assert_eq!(blackjack::scoring::calc_hand_score(&cards), 12);
}

#[test]
fn split_requires_equal_rank_values() {
    let seven_eight = hand(
        vec![
            card(Suit::Spades, Rank::Pip(7)),
            card(Suit::Hearts, Rank::Pip(8)),
        ],
        10,
        None,
    );
    assert!(!seven_eight.splittable());

    let pair = hand(
        vec![
            card(Suit::Spades, Rank::Pip(8)),
            card(Suit::Hearts, Rank::Pip(8)),
        ],
        10,
        None,
    );
    assert!(pair.splittable());

    // Equal rank value, not equal rank: still a pair by value.
    let king_queen = hand(
        vec![
            card(Suit::Spades, Rank::King),
            card(Suit::Hearts, Rank::Queen),
        ],
        10,
        None,
    );
    assert!(king_queen.splittable());

    let three_cards = hand(
        vec![
            card(Suit::Spades, Rank::Pip(8)),
            card(Suit::Hearts, Rank::Pip(8)),
            card(Suit::Clubs, Rank::Pip(2)),
        ],
        10,
        None,
    );
    assert!(!three_cards.splittable());
}

#[test]
fn settlement_win_pays_bet() {
    // Player 20 against dealer 19: a win, bank up by the bet.
    let mut game = table(
        100,
        vec![hand(
            vec![
                card(Suit::Spades, Rank::King),
                card(Suit::Hearts, Rank::Queen),
            ],
            10,
            None,
        )],
        vec![
            card(Suit::Clubs, Rank::King),
            card(Suit::Diamonds, Rank::Pip(9)),
        ],
    );
    game.calc_results();
    assert_eq!(game.bank, 110);
    assert!(matches!(game.player[0].result, Some(HandResult::Win)));
}

#[test]
fn settlement_push_leaves_bank() {
    // Player 20 against dealer 20: a push, bank untouched.
    let mut game = table(
        100,
        vec![hand(
            vec![
                card(Suit::Spades, Rank::King),
                card(Suit::Hearts, Rank::Queen),
            ],
            10,
            None,
        )],
        vec![
            card(Suit::Clubs, Rank::King),
            card(Suit::Diamonds, Rank::Queen),
        ],
    );
    game.calc_results();
    assert_eq!(game.bank, 100);
    assert!(matches!(game.player[0].result, Some(HandResult::Draw)));
}

#[test]
fn settlement_loss_takes_bet() {
    // Player 18 against dealer 19: a loss, bank down by the bet.
    let mut game = table(
        100,
        vec![hand(
            vec![
                card(Suit::Spades, Rank::King),
                card(Suit::Hearts, Rank::Pip(8)),
            ],
            10,
            None,
        )],
        vec![
            card(Suit::Clubs, Rank::King),
            card(Suit::Diamonds, Rank::Pip(9)),
        ],
    );
    game.calc_results();
    assert_eq!(game.bank, 90);
    assert!(matches!(game.player[0].result, Some(HandResult::Lose)));
}

#[test]
fn busted_hand_loses_even_when_dealer_busts() {
    let mut game = table(
        100,
        vec![hand(
            vec![
                card(Suit::Spades, Rank::King),
                card(Suit::Hearts, Rank::Queen),
                card(Suit::Clubs, Rank::Pip(5)),
            ],
            10,
            Some(HandResult::Bust),
        )],
        vec![
            card(Suit::Clubs, Rank::King),
            card(Suit::Diamonds, Rank::Queen),
            card(Suit::Hearts, Rank::Pip(5)),
        ],
    );
    game.calc_results();
    assert_eq!(game.bank, 90);
    assert!(matches!(game.player[0].result, Some(HandResult::Bust)));
}

#[test]
fn blackjack_pays_three_to_two() {
    let mut game = table(
        100,
        vec![hand(
            vec![card(Suit::Spades, Rank::Ace), card(Suit::Hearts, Rank::King)],
            10,
            Some(HandResult::Blackjack),
        )],
        vec![
            card(Suit::Clubs, Rank::King),
            card(Suit::Diamonds, Rank::Pip(9)),
        ],
    );
    game.calc_results();
    assert_eq!(game.bank, 115);
    assert!(matches!(game.player[0].result, Some(HandResult::Blackjack)));
}

#[test]
fn twenty_one_by_hit_pays_even_money() {
    // A 21 made with a third card wins only the plain bet.
    let mut game = table(
        100,
        vec![hand(
            vec![
                card(Suit::Spades, Rank::Pip(5)),
                card(Suit::Hearts, Rank::Pip(6)),
                card(Suit::Clubs, Rank::Jack),
            ],
            10,
            Some(HandResult::TwentyOne),
        )],
        vec![
            card(Suit::Clubs, Rank::King),
            card(Suit::Diamonds, Rank::Pip(9)),
        ],
    );
    game.calc_results();
    assert_eq!(game.bank, 110);
    assert!(matches!(game.player[0].result, Some(HandResult::Win)));
}

#[test]
fn reset_preserves_bank() {
    let mut game = Game {
        bank: 77,
        player: vec![hand(
            vec![
                card(Suit::Spades, Rank::King),
                card(Suit::Hearts, Rank::Queen),
            ],
            10,
            Some(HandResult::Win),
        )],
        dealer: Dealer {
            hand: vec![
                card(Suit::Clubs, Rank::King),
                card(Suit::Diamonds, Rank::Pip(9)),
            ],
        },
        state: State::Results,
        active_hands: 0,
    };
    game.reset();
    assert_eq!(game.bank, 77);
    assert!(matches!(game.state, State::Bet));
    assert!(game.player.is_empty());
    assert!(game.dealer.hand.is_empty());
}

#[test]
fn dealer_run_never_stops_below_17() {
    let mut dealer = Dealer {
        hand: vec![
            card(Suit::Clubs, Rank::Pip(2)),
            card(Suit::Diamonds, Rank::Pip(2)),
        ],
    };
    dealer.run();
    let score = dealer.score();
    assert!(score >= 17);
    assert!(score <= 27);
}

#[test]
fn place_bet_deals_two_cards() {
    let mut game = Game::new(100);
    game.place_bet(10);
    assert!(matches!(game.state, State::Play));
    assert_eq!(game.active_hand().cards.len(), 2);
    assert_eq!(game.active_hand().bet(), 10);
    assert_eq!(game.bank, 100);
}

#[test]
fn standing_ends_single_hand_round() {
    let mut game = Game::new(100);
    game.place_bet(10);
    game.execute(Command::Stand);
    assert!(matches!(game.state, State::Results));
    // Settled: the bank moved by at most one and a half bets either way.
    assert!(game.bank >= 90 && game.bank <= 115);
    assert!(game.player[0].result.is_some());
}

#[test]
fn compare_records_each_outcome() {
    let mut h = hand(
        vec![
            card(Suit::Spades, Rank::King),
            card(Suit::Hearts, Rank::Queen),
        ],
        10,
        None,
    );
    h.compare(19);
    assert!(matches!(h.result, Some(HandResult::Win)));
    h.result = None;
    h.compare(21);
    assert!(matches!(h.result, Some(HandResult::Lose)));
    h.result = None;
    h.compare(20);
    assert!(matches!(h.result, Some(HandResult::Draw)));
    h.result = None;
    h.compare(22);
    assert!(matches!(h.result, Some(HandResult::Win)));
}

#[test]
fn split_deals_replacement_cards() {
    let mut game = Game {
        bank: 100,
        player: vec![hand(
            vec![
                card(Suit::Spades, Rank::Pip(8)),
                card(Suit::Hearts, Rank::Pip(8)),
            ],
            10,
            None,
        )],
        dealer: Dealer {
            hand: vec![
                card(Suit::Clubs, Rank::King),
                card(Suit::Diamonds, Rank::Pip(9)),
            ],
        },
        state: State::Play,
        active_hands: 1,
    };
    assert!(game.splittable());
    game.execute(Command::Split);
    assert_eq!(game.player.len(), 2);
    assert_eq!(game.active_hands, 2);
    assert_eq!(game.player[0].cards.len(), 2);
    assert_eq!(game.player[1].cards.len(), 2);
    assert_eq!(game.player[0].cards[0], card(Suit::Spades, Rank::Pip(8)));
    assert_eq!(game.player[1].cards[0], card(Suit::Hearts, Rank::Pip(8)));
    assert_eq!(game.player[0].bet, 10);
    assert_eq!(game.player[1].bet, 10);
    assert!(matches!(game.state, State::Play));
}
