//! A hand of cards with its Blackjack scoring rules and its two renderings
//! (full reveal, and the dealer's partial reveal).
use vstd::prelude::*;
use vstd::string::StringExecFns;
use crate::card::Card;
use crate::card::Rank;
use crate::card::card_label;
use crate::card::rank_value;

verus! {

/// Greatest number of cards a hand is allowed to hold, so that its score
/// always fits machine arithmetic; far beyond anything a game can reach.
pub const MAX_HAND_CARDS: usize = 100000000;

/// An ordered sequence of cards held by one participant, append-only during
/// a round and emptied when the round is resolved.
pub struct Hand {
    pub cards: Vec<Card>,
}

impl View for Hand {
    type V = Seq<Card>;

    open spec fn view(&self) -> Seq<Card> {
        self.cards@
    }
}

/// Scoring value of one card: its face value, capped at ten.
pub open spec fn card_points(c: Card) -> int {
    if rank_value(c.rank) < 10 {
        rank_value(c.rank)
    } else {
        10
    }
}

/// Minimum score of a hand: the sum of card points, every ace counted as one.
pub open spec fn spec_min_score(s: Seq<Card>) -> int
    decreases s.len(),
{
    if s.len() == 0 {
        0
    } else {
        spec_min_score(s.drop_last()) + card_points(s.last())
    }
}

/// Whether the hand holds at least one ace.
pub open spec fn has_ace(s: Seq<Card>) -> bool {
    exists|i: int| 0 <= i < s.len() && s[i].rank == Rank::Ace
}

/// Score of a hand under the one-ace upgrade rule: the minimum score as it
/// stands when it already exceeds eleven; otherwise, ten more when the hand
/// holds an ace (exactly one ace counted as eleven), and the minimum score
/// unchanged when it does not.
pub open spec fn spec_score(s: Seq<Card>) -> int {
    if spec_min_score(s) > 11 {
        spec_min_score(s)
    } else if has_ace(s) {
        spec_min_score(s) + 10
    } else {
        spec_min_score(s)
    }
}

/// The minimum score lies between the number of cards (every card is worth
/// at least one point) and ten times that number.
pub proof fn lemma_min_score_bounds(s: Seq<Card>)
    ensures
        s.len() <= spec_min_score(s) <= 10 * s.len(),
    decreases s.len(),
{
    if s.len() > 0 {
        lemma_min_score_bounds(s.drop_last());
    }
}

/// Scoring value of one card: its face value, capped at ten.
fn points(c: &Card) -> (r: u32)
    ensures
        r == card_points(*c),
{
    match c.rank {
        Rank::Ace => 1,
        Rank::Two => 2,
        Rank::Three => 3,
        Rank::Four => 4,
        Rank::Five => 5,
        Rank::Six => 6,
        Rank::Seven => 7,
        Rank::Eight => 8,
        Rank::Nine => 9,
        Rank::Ten => 10,
        Rank::Jack => 10,
        Rank::Queen => 10,
        Rank::King => 10,
    }
}

/// Comma-joined list of the hand's card labels.
pub open spec fn hand_label(s: Seq<Card>) -> Seq<char>
    decreases s.len(),
{
    if s.len() == 0 {
        Seq::empty()
    } else if s.len() == 1 {
        card_label(s[0])
    } else {
        hand_label(s.drop_last()) + ","@ + card_label(s.last())
    }
}

impl Hand {
    /// Sum over the cards of the face value capped at ten: the hand's score
    /// with every ace counted as one.
    pub fn min_score(&self) -> (r: u32)
        requires
            self@.len() <= MAX_HAND_CARDS,
        ensures
            r == spec_min_score(self@),
    {
        let mut score: u32 = 0;
        let mut i: usize = 0;
        while i < self.cards.len()
            invariant
                i <= self@.len(),
                self@.len() <= MAX_HAND_CARDS,
                score == spec_min_score(self@.take(i as int)),
            decreases self@.len() - i,
        {
            proof {
                lemma_min_score_bounds(self@.take(i as int));
                lemma_min_score_bounds(self@.take(i + 1));
                assert(self@.take(i + 1).drop_last() =~= self@.take(i as int));
                assert(self@.take(i + 1).last() == self@[i as int]);
            }
            score = score + points(&self.cards[i]);
            i = i + 1;
        }
        proof {
            assert(self@.take(self@.len() as int) =~= self@);
        }
        score
    }

    /// The hand's score: the minimum score, upgraded by ten when that score
    /// does not yet exceed eleven and the hand holds an ace.
    pub fn score(&self) -> (r: u32)
        requires
            self@.len() <= MAX_HAND_CARDS,
        ensures
            r == spec_score(self@),
    {
        let score = self.min_score();
        if score > 11 {
            return score;
        }
        let mut i: usize = 0;
        while i < self.cards.len()
            invariant
                i <= self@.len(),
                score == spec_min_score(self@),
                score <= 11,
                forall|j: int| 0 <= j < i ==> self@[j].rank != Rank::Ace,
            decreases self@.len() - i,
        {
            if self.cards[i].rank == Rank::Ace {
                return score + 10;
            }
            i = i + 1;
        }
        score
    }

    /// Comma-joined list of every card's label: the full reveal.
    pub fn render_full(&self) -> (r: String)
        ensures
            r@ == hand_label(self@),
    {
        let mut out = String::new();
        let mut i: usize = 0;
        while i < self.cards.len()
            invariant
                i <= self@.len(),
                out@ == hand_label(self@.take(i as int)),
            decreases self@.len() - i,
        {
            if i > 0 {
                out.append(",");
            }
            out.append(self.cards[i].render().as_str());
            proof {
                assert(self@.take(i + 1).drop_last() =~= self@.take(i as int));
                assert(self@.take(i + 1).last() == self@[i as int]);
                assert(out@ =~= hand_label(self@.take(i + 1)));
            }
            i = i + 1;
        }
        proof {
            assert(self@.take(self@.len() as int) =~= self@);
        }
        out
    }

    /// The dealer's partial reveal: the first card's label, then a fixed
    /// placeholder for everything else, however many cards follow.
    pub fn dealer_hand(&self) -> (r: String)
        requires
            self@.len() >= 1,
        ensures
            r@ == card_label(self@[0]) + ", **HIDDEN**"@,
    {
        let mut s = self.cards[0].render();
        s.append(", **HIDDEN**");
        s
    }
}

} // verus!
