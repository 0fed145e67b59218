//! The card model: suits, ranks, and randomly drawn cards.

use vstd::prelude::*;
use vstd::string::StringExecFns;

verus! {

#[derive(Debug, Clone, Copy, PartialEq, Eq, Structural)]
pub enum Suit {
    Hearts,
    Diamonds,
    Spades,
    Clubs,
}

/// A card's rank. Pip cards carry their printed number, which is always
/// between 2 and 10.
#[derive(Debug, Clone, Copy, PartialEq, Eq, Structural)]
pub enum Rank {
    Ace,
    Pip(u8),
    Jack,
    Queen,
    King,
}

#[derive(Debug, Clone, Copy, PartialEq, Eq, Structural)]
pub struct Card {
    pub suit: Suit,
    pub rank: Rank,
}

/// A well-formed card never carries a pip number outside 2..=10.
pub open spec fn card_wf(c: Card) -> bool {
    match c.rank {
        Rank::Pip(n) => 2 <= n <= 10,
        _ => true,
    }
}

/// Relies on fastrand::u8: returns a value drawn from the given inclusive
/// range, which must be non-empty. Nothing more is known of the draw.
#[verifier::external_body]
fn random_u8_inclusive(lo: u8, hi: u8) -> (r: u8)
    requires
        lo <= hi,
    ensures
        lo <= r <= hi,
{
    fastrand::u8(lo..=hi)
}

impl Card {
    /// Draws a card: rank uniformly from the 13 ranks, suit uniformly from
    /// the 4 suits, independent of all previous draws (infinite-shoe model).
    pub fn new() -> (c: Card)
        ensures
            card_wf(c),
    {
        let value = random_u8_inclusive(1, 13);
        let rank = match value {
            1 => Rank::Ace,
            11 => Rank::Jack,
            12 => Rank::Queen,
            13 => Rank::King,
            _ => Rank::Pip(value),
        };

        let suit = match random_u8_inclusive(0, 3) {
            0 => Suit::Hearts,
            1 => Suit::Diamonds,
            2 => Suit::Spades,
            _ => Suit::Clubs,
        };

        Card { suit, rank }
    }
}

impl Default for Card {
    /// A freshly drawn card.
    fn default() -> (c: Self)
        ensures
            card_wf(c),
    {
        Card::new()
    }
}

/// The rank's full name as it appears in a card's long label; pip cards
/// print their number.
pub open spec fn rank_name(r: Rank) -> Seq<char> {
    match r {
        Rank::Ace => "Ace"@,
        Rank::Jack => "Jack"@,
        Rank::Queen => "Queen"@,
        Rank::King => "King"@,
        Rank::Pip(n) => {
            if n == 2 {
                "2"@
            } else if n == 3 {
                "3"@
            } else if n == 4 {
                "4"@
            } else if n == 5 {
                "5"@
            } else if n == 6 {
                "6"@
            } else if n == 7 {
                "7"@
            } else if n == 8 {
                "8"@
            } else if n == 9 {
                "9"@
            } else {
                "10"@
            }
        },
    }
}

/// The suit's full name as it appears in a card's long label.
pub open spec fn suit_name(s: Suit) -> Seq<char> {
    match s {
        Suit::Hearts => "Hearts"@,
        Suit::Diamonds => "Diamonds"@,
        Suit::Spades => "Spades"@,
        Suit::Clubs => "Clubs"@,
    }
}

/// A card's long label: its rank and suit spelled out between markers.
pub open spec fn card_label(c: Card) -> Seq<char> {
    "[**"@ + rank_name(c.rank) + " of "@ + suit_name(c.suit) + "**]"@
}

/// The rank's short form on a card face: one letter for an honour, the
/// number for a pip card with `T` for ten, padded with one space each side.
pub open spec fn rank_face(r: Rank) -> Seq<char> {
    match r {
        Rank::Ace => " A "@,
        Rank::Jack => " J "@,
        Rank::Queen => " Q "@,
        Rank::King => " K "@,
        Rank::Pip(n) => {
            if n == 2 {
                " 2 "@
            } else if n == 3 {
                " 3 "@
            } else if n == 4 {
                " 4 "@
            } else if n == 5 {
                " 5 "@
            } else if n == 6 {
                " 6 "@
            } else if n == 7 {
                " 7 "@
            } else if n == 8 {
                " 8 "@
            } else if n == 9 {
                " 9 "@
            } else {
                " T "@
            }
        },
    }
}

/// The suit's pictorial symbol.
pub open spec fn suit_symbol(s: Suit) -> Seq<char> {
    match s {
        Suit::Hearts => "\u{2665}"@,
        Suit::Diamonds => "\u{2666}"@,
        Suit::Spades => "\u{2660}"@,
        Suit::Clubs => "\u{2663}"@,
    }
}

/// A card's face line: the rank short form framed by its suit symbol.
pub open spec fn card_face(c: Card) -> Seq<char> {
    "| "@ + suit_symbol(c.suit) + "  "@ + rank_face(c.rank) + "  "@ + suit_symbol(c.suit) + " |"@
}

impl Card {
    /// The card's long label, such as `[**Ace of Hearts**]`.
    pub fn label(&self) -> (r: String)
        requires
            card_wf(*self),
        ensures
            r@ == card_label(*self),
    {
        let mut s = String::new();
        s.append("[**");
        s.append(rank_name_str(self.rank));
        s.append(" of ");
        s.append(suit_name_str(self.suit));
        s.append("**]");
        s
    }

    /// The card's face line, such as `| # . A . # |` with the suit's symbol
    /// in place of the markers.
    pub fn face(&self) -> (r: String)
        requires
            card_wf(*self),
        ensures
            r@ == card_face(*self),
    {
        let symbol = suit_symbol_str(self.suit);
        let mut s = String::new();
        s.append("| ");
        s.append(symbol);
        s.append("  ");
        s.append(rank_face_str(self.rank));
        s.append("  ");
        s.append(symbol);
        s.append(" |");
        s
    }
}

fn rank_name_str(r: Rank) -> (s: &'static str)
    requires
        r matches Rank::Pip(n) ==> 2 <= n <= 10,
    ensures
        s@ == rank_name(r),
{
    match r {
        Rank::Ace => "Ace",
        Rank::Jack => "Jack",
        Rank::Queen => "Queen",
        Rank::King => "King",
        Rank::Pip(n) => match n {
            2 => "2",
            3 => "3",
            4 => "4",
            5 => "5",
            6 => "6",
            7 => "7",
            8 => "8",
            9 => "9",
            _ => "10",
        },
    }
}

fn rank_face_str(r: Rank) -> (s: &'static str)
    requires
        r matches Rank::Pip(n) ==> 2 <= n <= 10,
    ensures
        s@ == rank_face(r),
{
    match r {
        Rank::Ace => " A ",
        Rank::Jack => " J ",
        Rank::Queen => " Q ",
        Rank::King => " K ",
        Rank::Pip(n) => match n {
            2 => " 2 ",
            3 => " 3 ",
            4 => " 4 ",
            5 => " 5 ",
            6 => " 6 ",
            7 => " 7 ",
            8 => " 8 ",
            9 => " 9 ",
            _ => " T ",
        },
    }
}

fn suit_name_str(s: Suit) -> (r: &'static str)
    ensures
        r@ == suit_name(s),
{
    match s {
        Suit::Hearts => "Hearts",
        Suit::Diamonds => "Diamonds",
        Suit::Spades => "Spades",
        Suit::Clubs => "Clubs",
    }
}

fn suit_symbol_str(s: Suit) -> (r: &'static str)
    ensures
        r@ == suit_symbol(s),
{
    match s {
        Suit::Hearts => "\u{2665}",
        Suit::Diamonds => "\u{2666}",
        Suit::Spades => "\u{2660}",
        Suit::Clubs => "\u{2663}",
    }
}

} // verus!
