//! The card model: suits, ranks, and cards, with their display labels and the
//! absolute rank used for canonical sorting.
use vstd::prelude::*;
use vstd::string::StringExecFns;

verus! {

/// One of the four French suits, in the fixed enumeration order used for
/// building a deck.
#[derive(Copy, Clone, Debug, PartialEq, Eq, Structural)]
pub enum Suit {
    Spade,
    Diamond,
    Club,
    Heart,
}

/// One of the thirteen ranks, in the fixed enumeration order used for
/// building a deck. The face value runs from 1 (ace) to 13 (king).
#[derive(Copy, Clone, Debug, PartialEq, Eq, Structural)]
pub enum Rank {
    Ace,
    Two,
    Three,
    Four,
    Five,
    Six,
    Seven,
    Eight,
    Nine,
    Ten,
    Jack,
    Queen,
    King,
}

/// An immutable suit/rank pair. Two cards are equal exactly when both fields
/// match; duplicates are expected in multi-deck play.
#[derive(Copy, Clone, Debug, PartialEq, Eq, Structural)]
pub struct Card {
    pub suit: Suit,
    pub rank: Rank,
}

/// Position of a suit in the fixed enumeration order.
pub open spec fn suit_index(s: Suit) -> int {
    match s {
        Suit::Spade => 0,
        Suit::Diamond => 1,
        Suit::Club => 2,
        Suit::Heart => 3,
    }
}

/// Face value of a rank, 1 for the ace through 13 for the king.
pub open spec fn rank_value(r: Rank) -> int {
    match r {
        Rank::Ace => 1,
        Rank::Two => 2,
        Rank::Three => 3,
        Rank::Four => 4,
        Rank::Five => 5,
        Rank::Six => 6,
        Rank::Seven => 7,
        Rank::Eight => 8,
        Rank::Nine => 9,
        Rank::Ten => 10,
        Rank::Jack => 11,
        Rank::Queen => 12,
        Rank::King => 13,
    }
}

/// Absolute rank of a card, `suit_index * 13 + rank_value`: a total order over
/// the 52 distinct cards, used only for canonical sorting, never for scoring.
pub open spec fn spec_abs_rank(c: Card) -> int {
    suit_index(c.suit) * 13 + rank_value(c.rank)
}

/// The absolute rank determines the card: no two distinct cards share one.
pub proof fn lemma_abs_rank_injective(a: Card, b: Card)
    requires
        spec_abs_rank(a) == spec_abs_rank(b),
    ensures
        a == b,
{
}

impl Suit {
    /// Display label of the suit, as it appears in a card's rendering.
    pub fn name(&self) -> (r: String)
        ensures
            r@ == suit_label(*self),
    {
        match *self {
            Suit::Spade => "Spades".to_owned(),
            Suit::Diamond => "Diamonds".to_owned(),
            Suit::Club => "Clubs".to_owned(),
            Suit::Heart => "Hearts".to_owned(),
        }
    }
}

impl Rank {
    /// Display label of the rank, as it appears in a card's rendering.
    pub fn name(&self) -> (r: String)
        ensures
            r@ == rank_label(*self),
    {
        match *self {
            Rank::Ace => "Ace".to_owned(),
            Rank::Two => "Two".to_owned(),
            Rank::Three => "Three".to_owned(),
            Rank::Four => "Four".to_owned(),
            Rank::Five => "Five".to_owned(),
            Rank::Six => "Six".to_owned(),
            Rank::Seven => "Seven".to_owned(),
            Rank::Eight => "Eight".to_owned(),
            Rank::Nine => "Nine".to_owned(),
            Rank::Ten => "Ten".to_owned(),
            Rank::Jack => "Jack".to_owned(),
            Rank::Queen => "Queen".to_owned(),
            Rank::King => "King".to_owned(),
        }
    }
}

/// Display label of a suit.
pub open spec fn suit_label(s: Suit) -> Seq<char> {
    match s {
        Suit::Spade => "Spades"@,
        Suit::Diamond => "Diamonds"@,
        Suit::Club => "Clubs"@,
        Suit::Heart => "Hearts"@,
    }
}

/// Display label of a rank.
pub open spec fn rank_label(r: Rank) -> Seq<char> {
    match r {
        Rank::Ace => "Ace"@,
        Rank::Two => "Two"@,
        Rank::Three => "Three"@,
        Rank::Four => "Four"@,
        Rank::Five => "Five"@,
        Rank::Six => "Six"@,
        Rank::Seven => "Seven"@,
        Rank::Eight => "Eight"@,
        Rank::Nine => "Nine"@,
        Rank::Ten => "Ten"@,
        Rank::Jack => "Jack"@,
        Rank::Queen => "Queen"@,
        Rank::King => "King"@,
    }
}

/// Display label of a card: `<Rank> of <Suit>`.
pub open spec fn card_label(c: Card) -> Seq<char> {
    rank_label(c.rank) + " of "@ + suit_label(c.suit)
}

impl Card {
    /// Pairs a suit and a rank into a card.
    pub fn new(suit: Suit, rank: Rank) -> (r: Card)
        ensures
            r == (Card { suit, rank }),
    {
        Card { suit, rank }
    }

    /// Renders the card as `<Rank> of <Suit>`, for example `Ace of Spades`.
    pub fn render(&self) -> (r: String)
        ensures
            r@ == card_label(*self),
    {
        let mut s = self.rank.name();
        s.append(" of ");
        s.append(self.suit.name().as_str());
        s
    }
}

/// Absolute rank of a card as a machine integer; the result lies between
/// 1 (ace of spades) and 52 (king of hearts).
pub fn abs_rank(card: &Card) -> (r: u8)
    ensures
        r == spec_abs_rank(*card),
{
    let s: u8 = match card.suit {
        Suit::Spade => 0,
        Suit::Diamond => 1,
        Suit::Club => 2,
        Suit::Heart => 3,
    };
    let v: u8 = match card.rank {
        Rank::Ace => 1,
        Rank::Two => 2,
        Rank::Three => 3,
        Rank::Four => 4,
        Rank::Five => 5,
        Rank::Six => 6,
        Rank::Seven => 7,
        Rank::Eight => 8,
        Rank::Nine => 9,
        Rank::Ten => 10,
        Rank::Jack => 11,
        Rank::Queen => 12,
        Rank::King => 13,
    };
    s * 13 + v
}

} // verus!
