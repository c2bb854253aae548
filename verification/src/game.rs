//! The game engine: the live deck, the two hands, and the three-state turn
//! machine, mutated under the rules of Blackjack.
use vstd::prelude::*;
use vstd::pervasive::unreached;
use crate::card::Card;
use crate::deck::apply_multiply;
use crate::deck::base_cards;
use crate::deck::base_deck;
use crate::deck::lemma_repeat_seq_len;
use crate::deck::repeat_seq;
use crate::deck::shuffle;
use crate::hand::Hand;
use crate::hand::MAX_HAND_CARDS;
use crate::hand::spec_min_score;
use crate::hand::spec_score;

verus! {

/// Whose turn it is: the player's, the dealer's, or nobody's (the round is
/// over and waits to be resolved).
#[derive(Copy, Clone, Debug, PartialEq, Eq, Structural)]
pub enum State {
    Player,
    Dealer,
    Handover,
}

/// The turn state that a stand advances to: the turn only ever moves forward,
/// from the player to the dealer to the handover.
pub open spec fn next_state(s: State) -> State {
    match s {
        State::Player => State::Dealer,
        State::Dealer => State::Handover,
        State::Handover => State::Handover,
    }
}

/// How a round resolves once both turns are over.
#[derive(Copy, Clone, Debug, PartialEq, Eq, Structural)]
pub enum Outcome {
    /// The player went over twenty-one and loses, whatever the dealer holds.
    PlayerBusted,
    /// The player stayed within bounds and the dealer went over: a win.
    DealerBusted,
    /// Neither busted and the dealer scored higher.
    PlayerLoses,
    /// Neither busted and the player scored higher.
    PlayerWins,
    /// Neither busted and the scores are equal.
    Draw,
}

/// The outcome table, evaluated in priority order: a busted player loses
/// before the dealer's hand is looked at; a busted dealer loses next; then
/// the plain score comparison decides.
pub open spec fn spec_outcome(p: int, d: int) -> Outcome {
    if p > 21 {
        Outcome::PlayerBusted
    } else if d > 21 {
        Outcome::DealerBusted
    } else if p < d {
        Outcome::PlayerLoses
    } else if d < p {
        Outcome::PlayerWins
    } else {
        Outcome::Draw
    }
}

/// One Blackjack session: the draw pile, the two hands, and the turn state.
pub struct Game {
    pub deck: Vec<Card>,
    pub state: State,
    pub player: Hand,
    pub dealer: Hand,
}

/// How `stand` relates the game before the call to the game after it: the
/// turn advances one step and nothing else moves.
pub open spec fn stand_post(pre: Game, post: Game) -> bool {
    &&& post.state == next_state(pre.state)
    &&& post.player == pre.player
    &&& post.dealer == pre.dealer
    &&& post.spec_deck() == pre.spec_deck()
}

/// How `hit` relates the game before the call to the game after it: the front
/// card of the deck moves into the active hand, and the turn advances exactly
/// one `stand` step when that hand's new score reaches twenty-one, whether by
/// busting or by hitting it exactly.
pub open spec fn hit_post(pre: Game, post: Game) -> bool {
    &&& post.spec_deck() == pre.spec_deck().skip(1)
    &&& (pre.state == State::Player ==> {
        &&& post.player@ == pre.player@.push(pre.spec_deck()[0])
        &&& post.dealer == pre.dealer
        &&& post.state == (if spec_score(post.player@) >= 21 {
            next_state(pre.state)
        } else {
            pre.state
        })
    })
    &&& (pre.state == State::Dealer ==> {
        &&& post.dealer@ == pre.dealer@.push(pre.spec_deck()[0])
        &&& post.player == pre.player
        &&& post.state == (if spec_score(post.dealer@) >= 21 {
            next_state(pre.state)
        } else {
            pre.state
        })
    })
}

impl Game {
    /// The cards still in the draw pile; the front of the sequence is drawn
    /// first.
    pub open spec fn spec_deck(&self) -> Seq<Card> {
        self.deck@
    }

    /// Number of cards left in the draw pile.
    pub fn deck_len(&self) -> (r: usize)
        ensures
            r == self.spec_deck().len(),
    {
        self.deck.len()
    }

    /// A fresh session: empty deck, empty hands, the player to move.
    pub fn new() -> (g: Game)
        ensures
            g.state == State::Player,
            g.player@ == Seq::<Card>::empty(),
            g.dealer@ == Seq::<Card>::empty(),
            g.spec_deck() == Seq::<Card>::empty(),
    {
        Game {
            dealer: Hand { cards: Vec::new() },
            player: Hand { cards: Vec::new() },
            deck: Vec::new(),
            state: State::Player,
        }
    }

    /// Rebuilds the draw pile as a randomized three-deck shoe: three copies
    /// of the base deck, permuted at random. Hands and turn state are left
    /// untouched; callable at any time.
    pub fn shuffle(&mut self)
        ensures
            final(self).spec_deck().to_multiset() == repeat_seq(base_deck(), 3).to_multiset(),
            final(self).spec_deck().len() == 156,
            final(self).state == old(self).state,
            final(self).player == old(self).player,
            final(self).dealer == old(self).dealer,
    {
        let shoe = apply_multiply(base_cards(), 3);
        proof {
            lemma_repeat_seq_len(base_deck(), 3);
        }
        self.deck = shuffle(shoe);
    }

    /// Replaces the draw pile with the given cards, the front of the vector
    /// drawn first: a scripted deck for deterministic play. Hands and turn
    /// state are left untouched.
    pub fn set_deck(&mut self, cards: Vec<Card>)
        ensures
            final(self).spec_deck() == cards@,
            final(self).state == old(self).state,
            final(self).player == old(self).player,
            final(self).dealer == old(self).dealer,
    {
        self.deck = cards;
    }

    /// Deals the opening hands: two cards to the player, then two to the
    /// dealer, one at a time from the front of the deck, and resets the turn
    /// to the player. Dealing does not empty the hands first: resolving the
    /// previous round with `end` is what empties them.
    pub fn deal(&mut self)
        requires
            old(self).spec_deck().len() >= 4,
        ensures
            final(self).player@ == old(self).player@ + old(self).spec_deck().take(2),
            final(self).dealer@ == old(self).dealer@ + old(self).spec_deck().subrange(2, 4),
            final(self).spec_deck() == old(self).spec_deck().skip(4),
            final(self).state == State::Player,
    {
        let c0 = self.deck.remove(0);
        self.player.cards.push(c0);
        let c1 = self.deck.remove(0);
        self.player.cards.push(c1);
        let c2 = self.deck.remove(0);
        self.dealer.cards.push(c2);
        let c3 = self.deck.remove(0);
        self.dealer.cards.push(c3);
        self.state = State::Player;
        proof {
            let d = old(self).spec_deck();
            assert(c1 == d[1] && c2 == d[2] && c3 == d[3]);
            assert(self.player@ =~= old(self).player@ + d.take(2));
            assert(self.dealer@ =~= old(self).dealer@ + d.subrange(2, 4));
            assert(self.spec_deck() =~= d.skip(4));
        }
    }

    /// Advances the turn one step: the player's turn hands over to the
    /// dealer's, the dealer's to the handover. Nothing else moves. Standing
    /// during the handover is a contract violation, not a game move.
    pub fn stand(&mut self)
        requires
            old(self).state != State::Handover,
        ensures
            stand_post(*old(self), *final(self)),
    {
        match self.state {
            State::Player => self.state = State::Dealer,
            State::Dealer => self.state = State::Handover,
            State::Handover => unreached(),
        }
    }

    /// Draws the front card of the deck into whichever hand owns the current
    /// turn. If that hand's score then reaches twenty-one or more — bust and
    /// exact twenty-one alike — the turn advances automatically, exactly as a
    /// stand would. Hitting during the handover is a contract violation.
    pub fn hit(&mut self)
        requires
            old(self).state != State::Handover,
            old(self).spec_deck().len() >= 1,
            old(self).state == State::Player ==> old(self).player@.len() < MAX_HAND_CARDS,
            old(self).state == State::Dealer ==> old(self).dealer@.len() < MAX_HAND_CARDS,
        ensures
            hit_post(*old(self), *final(self)),
    {
        let card = self.deck.remove(0);
        proof {
            assert(self.spec_deck() =~= old(self).spec_deck().skip(1));
        }
        match self.state {
            State::Player => {
                self.player.cards.push(card);
                if self.player.score() >= 21 {
                    self.stand();
                }
            },
            State::Dealer => {
                self.dealer.cards.push(card);
                if self.dealer.score() >= 21 {
                    self.stand();
                }
            },
            State::Handover => unreached(),
        }
    }

    /// Resolves the round: reads both scores, reports the outcome from the
    /// priority-ordered table, and empties both hands. The deck and the turn
    /// state are left as they stand; the next deal resets the turn.
    pub fn end(&mut self) -> (r: Outcome)
        requires
            old(self).player@.len() <= MAX_HAND_CARDS,
            old(self).dealer@.len() <= MAX_HAND_CARDS,
        ensures
            r == spec_outcome(spec_score(old(self).player@), spec_score(old(self).dealer@)),
            final(self).player@ == Seq::<Card>::empty(),
            final(self).dealer@ == Seq::<Card>::empty(),
            final(self).state == old(self).state,
            final(self).spec_deck() == old(self).spec_deck(),
    {
        let p_score = self.player.score();
        let d_score = self.dealer.score();
        let outcome = if p_score > 21 {
            Outcome::PlayerBusted
        } else if d_score > 21 {
            Outcome::DealerBusted
        } else if p_score < d_score {
            Outcome::PlayerLoses
        } else if d_score < p_score {
            Outcome::PlayerWins
        } else {
            Outcome::Draw
        };
        self.player.cards.clear();
        self.dealer.cards.clear();
        outcome
    }
}

/// The dealer automaton's decision, taken each turn while the dealer holds
/// it: hit on sixteen or less, hit on a soft seventeen (a seventeen reached
/// only through the ace upgrade), stand otherwise.
pub fn dealer_should_hit(hand: &Hand) -> (r: bool)
    requires
        hand@.len() <= MAX_HAND_CARDS,
    ensures
        r == (spec_score(hand@) <= 16 || (spec_score(hand@) == 17 && spec_min_score(hand@)
            != 17)),
{
    let s = hand.score();
    s <= 16 || (s == 17 && hand.min_score() != 17)
}

/// Everything the game holds, in one multiset: the draw pile and both hands.
pub open spec fn all_cards(g: Game) -> vstd::multiset::Multiset<Card> {
    g.spec_deck().to_multiset().add(g.player@.to_multiset()).add(g.dealer@.to_multiset())
}

/// Cards only move, never vanish or clone: a hit leaves the combined
/// contents of the deck and the two hands unchanged.
pub proof fn lemma_hit_conserves_cards(pre: Game, post: Game)
    requires
        pre.state == State::Player || pre.state == State::Dealer,
        pre.spec_deck().len() >= 1,
        hit_post(pre, post),
    ensures
        all_cards(post) == all_cards(pre),
{
    broadcast use vstd::seq_lib::group_to_multiset_ensures;
    broadcast use vstd::multiset::group_multiset_axioms;

    let d = pre.spec_deck();
    assert(d.skip(1) =~= d.remove(0));
    assert(d.remove(0).to_multiset() =~= d.to_multiset().remove(d[0]));
    assert(all_cards(post) =~= all_cards(pre));
}

/// Cards only move, never vanish or clone: a deal leaves the combined
/// contents of the deck and the two hands unchanged.
pub proof fn lemma_deal_conserves_cards(pre: Game, post: Game)
    requires
        pre.spec_deck().len() >= 4,
        post.player@ == pre.player@ + pre.spec_deck().take(2),
        post.dealer@ == pre.dealer@ + pre.spec_deck().subrange(2, 4),
        post.spec_deck() == pre.spec_deck().skip(4),
    ensures
        all_cards(post) == all_cards(pre),
{
    broadcast use vstd::seq_lib::group_to_multiset_ensures;
    broadcast use vstd::multiset::group_multiset_axioms;

    let d = pre.spec_deck();
    vstd::seq_lib::lemma_multiset_commutative(pre.player@, d.take(2));
    vstd::seq_lib::lemma_multiset_commutative(pre.dealer@, d.subrange(2, 4));
    assert(d =~= d.take(2) + d.subrange(2, 4) + d.skip(4));
    vstd::seq_lib::lemma_multiset_commutative(d.take(2) + d.subrange(2, 4), d.skip(4));
    vstd::seq_lib::lemma_multiset_commutative(d.take(2), d.subrange(2, 4));
    assert(all_cards(post) =~= all_cards(pre));
}

/// A hit that lifts the active hand's score to twenty-one or more leaves the
/// turn state exactly where a stand from the same position would have left
/// it.
pub proof fn lemma_hit_advances_like_stand(pre: Game, after_hit: Game, after_stand: Game)
    requires
        pre.state == State::Player || pre.state == State::Dealer,
        hit_post(pre, after_hit),
        stand_post(pre, after_stand),
        pre.state == State::Player ==> spec_score(after_hit.player@) >= 21,
        pre.state == State::Dealer ==> spec_score(after_hit.dealer@) >= 21,
    ensures
        after_hit.state == after_stand.state,
{
}

} // verus!
