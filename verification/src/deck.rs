//! The deck builder: the canonical 52-card base deck and the composable
//! transformations (multiply, filter, shuffle, sort) that turn it into the
//! draw pile for a round.
use vstd::prelude::*;
use vstd::seq_lib::group_to_multiset_ensures;
use vstd::seq_lib::lemma_sorted_unique;
use vstd::relations::sorted_by;
use vstd::relations::total_ordering;
use crate::card::Card;
use crate::card::Rank;
use crate::card::Suit;
use crate::card::abs_rank;
use crate::card::rank_value;
use crate::card::spec_abs_rank;
use crate::card::suit_index;

verus! {

/// Suit at a given position of the fixed enumeration order.
pub open spec fn suit_of_index(i: int) -> Suit {
    if i == 0 {
        Suit::Spade
    } else if i == 1 {
        Suit::Diamond
    } else if i == 2 {
        Suit::Club
    } else {
        Suit::Heart
    }
}

/// Rank at a given position of the fixed enumeration order.
pub open spec fn rank_of_index(i: int) -> Rank {
    if i == 0 {
        Rank::Ace
    } else if i == 1 {
        Rank::Two
    } else if i == 2 {
        Rank::Three
    } else if i == 3 {
        Rank::Four
    } else if i == 4 {
        Rank::Five
    } else if i == 5 {
        Rank::Six
    } else if i == 6 {
        Rank::Seven
    } else if i == 7 {
        Rank::Eight
    } else if i == 8 {
        Rank::Nine
    } else if i == 9 {
        Rank::Ten
    } else if i == 10 {
        Rank::Jack
    } else if i == 11 {
        Rank::Queen
    } else {
        Rank::King
    }
}

/// The 52 canonical cards in deterministic order: for each suit in
/// enumeration order, each rank in enumeration order.
pub open spec fn base_deck() -> Seq<Card> {
    Seq::new(
        52,
        |i: int| Card { suit: suit_of_index(i / 13), rank: rank_of_index(i % 13) },
    )
}

/// The base deck lists the cards in strictly increasing absolute rank: the
/// card at position `i` has absolute rank `i + 1`.
pub proof fn lemma_base_deck_abs_rank(i: int)
    requires
        0 <= i < 52,
    ensures
        spec_abs_rank(base_deck()[i]) == i + 1,
{
    vstd::arithmetic::div_mod::lemma_fundamental_div_mod(i, 13);
    vstd::arithmetic::div_mod::lemma_div_pos_is_pos(i, 13);
    vstd::arithmetic::div_mod::lemma_div_is_ordered_by_denominator(i, 13, 13);
    assert(0 <= i / 13 < 4) by (nonlinear_arith)
        requires 0 <= i < 52;
    assert(0 <= i % 13 < 13);
    assert(suit_index(suit_of_index(i / 13)) == i / 13);
    assert(rank_value(rank_of_index(i % 13)) == i % 13 + 1);
}

impl Suit {
    /// The four suits in the fixed enumeration order used for deck building.
    pub fn iterator() -> (r: Vec<Suit>)
        ensures
            r@.len() == 4,
            forall|i: int| 0 <= i < 4 ==> r@[i] == suit_of_index(i),
    {
        let mut v: Vec<Suit> = Vec::new();
        v.push(Suit::Spade);
        v.push(Suit::Diamond);
        v.push(Suit::Club);
        v.push(Suit::Heart);
        v
    }
}

impl Rank {
    /// The thirteen ranks in the fixed enumeration order used for deck
    /// building.
    pub fn iterator() -> (r: Vec<Rank>)
        ensures
            r@.len() == 13,
            forall|i: int| 0 <= i < 13 ==> r@[i] == rank_of_index(i),
    {
        let mut v: Vec<Rank> = Vec::new();
        v.push(Rank::Ace);
        v.push(Rank::Two);
        v.push(Rank::Three);
        v.push(Rank::Four);
        v.push(Rank::Five);
        v.push(Rank::Six);
        v.push(Rank::Seven);
        v.push(Rank::Eight);
        v.push(Rank::Nine);
        v.push(Rank::Ten);
        v.push(Rank::Jack);
        v.push(Rank::Queen);
        v.push(Rank::King);
        v
    }
}

/// Relies on rand::random_range over `0..bound`: it returns a value sampled
/// from that range, and panics only when the range is empty, which the
/// precondition rules out. Nothing is assumed beyond membership in the range.
#[verifier::external_body]
fn random_below(bound: usize) -> (r: usize)
    requires
        1 <= bound,
    ensures
        r < bound,
{
    rand::random_range(0..bound)
}

/// Exchanges the cards at two positions, leaving every other position as it
/// was; the contents as a multiset do not change.
fn swap_cards(v: &mut Vec<Card>, x: usize, y: usize)
    requires
        x < old(v)@.len(),
        y < old(v)@.len(),
    ensures
        final(v)@ == old(v)@.update(x as int, old(v)@[y as int]).update(y as int, old(v)@[x as int]),
        final(v)@.len() == old(v)@.len(),
        final(v)@.to_multiset() == old(v)@.to_multiset(),
{
    let ghost s0 = v@;
    let a = v[x];
    let b = v[y];
    v.set(x, b);
    v.set(y, a);
    proof {
        broadcast use group_to_multiset_ensures;
        broadcast use vstd::multiset::group_multiset_axioms;

        assert(s0.update(x as int, b)[y as int] == b || y != x);
        assert(v@.to_multiset() =~= s0.to_multiset());
    }
}

/// Produces a random permutation of the given cards (a Fisher-Yates walk,
/// drawing each swap index from the process random source): the output holds
/// exactly the input cards, as a multiset.
pub fn shuffle(cards: Vec<Card>) -> (r: Vec<Card>)
    ensures
        r@.len() == cards@.len(),
        r@.to_multiset() == cards@.to_multiset(),
{
    let mut v = cards;
    let mut i: usize = v.len();
    while i > 1
        invariant
            i <= v@.len(),
            v@.len() == cards@.len(),
            v@.to_multiset() == cards@.to_multiset(),
        decreases i,
    {
        let j = random_below(i);
        i = i - 1;
        swap_cards(&mut v, i, j);
    }
    v
}

/// A sequence of cards in ascending absolute rank.
pub open spec fn sorted_by_abs_rank(s: Seq<Card>) -> bool {
    forall|i: int, j: int|
        0 <= i < j < s.len() ==> spec_abs_rank(s[i]) <= spec_abs_rank(s[j])
}

/// Sorts the given cards into ascending absolute rank (spade ace first,
/// heart king last under the fixed suit and rank enumeration). Since the
/// absolute rank determines the card, sortedness together with multiset
/// equality pins the output down exactly.
pub fn default_sort(cards: Vec<Card>) -> (r: Vec<Card>)
    ensures
        r@.len() == cards@.len(),
        r@.to_multiset() == cards@.to_multiset(),
        sorted_by_abs_rank(r@),
{
    let mut v = cards;
    let n = v.len();
    if n < 2 {
        return v;
    }
    let mut i: usize = 1;
    while i < n
        invariant
            1 <= i <= n,
            n == v@.len(),
            v@.len() == cards@.len(),
            v@.to_multiset() == cards@.to_multiset(),
            sorted_by_abs_rank(v@.take(i as int)),
        decreases n - i,
    {
        let mut j: usize = i;
        proof {
            assert forall|a: int, b: int| 0 <= a < b <= i && b != j implies spec_abs_rank(
                v@[a],
            ) <= spec_abs_rank(v@[b]) by {
                assert(v@.take(i as int)[a] == v@[a]);
                assert(v@.take(i as int)[b] == v@[b]);
            }
        }
        while j > 0 && abs_rank(&v[j - 1]) > abs_rank(&v[j])
            invariant
                j <= i < n,
                n == v@.len(),
                v@.len() == cards@.len(),
                v@.to_multiset() == cards@.to_multiset(),
                forall|a: int, b: int|
                    0 <= a < b <= i && b != j ==> spec_abs_rank(v@[a]) <= spec_abs_rank(v@[b]),
            decreases j,
        {
            swap_cards(&mut v, j - 1, j);
            j = j - 1;
        }
        proof {
            assert forall|a: int, b: int|
                #![trigger v@.take(i + 1)[a], v@.take(i + 1)[b]]
                0 <= a < b < i + 1 implies spec_abs_rank(v@.take(i + 1)[a]) <= spec_abs_rank(
                v@.take(i + 1)[b],
            ) by {
                assert(v@.take(i + 1)[a] == v@[a]);
                assert(v@.take(i + 1)[b] == v@[b]);
                if b == j && 0 < j && a < j - 1 {
                    assert(spec_abs_rank(v@[a]) <= spec_abs_rank(v@[j - 1]));
                }
            }
            assert(sorted_by_abs_rank(v@.take(i + 1)));
        }
        i = i + 1;
    }
    proof {
        assert(v@.take(n as int) =~= v@);
    }
    v
}

/// Two card sequences sorted by absolute rank that hold the same cards are
/// the same sequence: sorting a given multiset has exactly one result.
pub proof fn lemma_sorted_permutation_unique(x: Seq<Card>, y: Seq<Card>)
    requires
        sorted_by_abs_rank(x),
        sorted_by_abs_rank(y),
        x.to_multiset() == y.to_multiset(),
    ensures
        x == y,
{
    let leq = |a: Card, b: Card| spec_abs_rank(a) <= spec_abs_rank(b);
    assert forall|a: Card, b: Card| #[trigger] leq(a, b) && #[trigger] leq(b, a) implies a == b by {
        crate::card::lemma_abs_rank_injective(a, b);
    }
    assert(total_ordering(leq));
    assert(sorted_by(x, leq));
    assert(sorted_by(y, leq));
    lemma_sorted_unique(x, y, leq);
    assert(x =~= y);
}

/// A transform-free build, seen through its specification: 52 cards, already
/// in ascending absolute rank, with the ace of spades first and the king of
/// hearts last.
pub proof fn lemma_base_deck_properties()
    ensures
        base_deck().len() == 52,
        sorted_by_abs_rank(base_deck()),
        base_deck()[0] == (Card { suit: Suit::Spade, rank: Rank::Ace }),
        base_deck()[51] == (Card { suit: Suit::Heart, rank: Rank::King }),
{
    assert forall|i: int, j: int| 0 <= i < j < 52 implies spec_abs_rank(base_deck()[i])
        <= spec_abs_rank(base_deck()[j]) by {
        lemma_base_deck_abs_rank(i);
        lemma_base_deck_abs_rank(j);
    }
    assert(base_deck()[0] == (Card { suit: suit_of_index(0), rank: rank_of_index(0) }));
    assert(51int / 13 == 3 && 51int % 13 == 12) by (nonlinear_arith);
    assert(base_deck()[51] == (Card { suit: suit_of_index(3), rank: rank_of_index(12) }));
}

/// One step of the deck-building pipeline: a pure map from one card
/// sequence to the next.
#[derive(Clone, Copy)]
pub enum Transform<F> {
    /// Concatenate the given number of copies of the input (an n-deck shoe).
    Multiply(u8),
    /// Remove every card for which the predicate answers true.
    Filter(F),
    /// Permute the input at random.
    Shuffle,
    /// Sort the input by ascending absolute rank.
    DefaultSort,
}

/// `n` copies of `s`, concatenated.
pub open spec fn repeat_seq(s: Seq<Card>, n: nat) -> Seq<Card>
    decreases n,
{
    if n == 0 {
        Seq::empty()
    } else {
        repeat_seq(s, (n - 1) as nat) + s
    }
}

/// Concatenating `n` copies multiplies the length by `n`.
pub proof fn lemma_repeat_seq_len(s: Seq<Card>, n: nat)
    ensures
        repeat_seq(s, n).len() == n * s.len(),
    decreases n,
{
    if n > 0 {
        let m = (n - 1) as nat;
        lemma_repeat_seq_len(s, m);
        assert(repeat_seq(s, n).len() == m * s.len() + s.len());
        vstd::arithmetic::mul::lemma_mul_is_distributive_add_other_way(
            s.len() as int,
            m as int,
            1,
        );
        vstd::arithmetic::mul::lemma_mul_basics(s.len() as int);
        assert((m + 1) * s.len() == m * s.len() + 1 * s.len());
        assert(n * s.len() == m * s.len() + s.len());
        assert(repeat_seq(s, n).len() == n * s.len());
    } else {
        assert(repeat_seq(s, n).len() == 0);
        assert(n * s.len() == 0);
        assert(repeat_seq(s, n).len() == n * s.len());
    }
}

/// The subsequence of `s` at the positions where `keep` holds, in order.
pub open spec fn mask_filter(s: Seq<Card>, keep: Seq<bool>) -> Seq<Card>
    decreases s.len(),
{
    if s.len() == 0 || keep.len() == 0 {
        Seq::empty()
    } else {
        let rest = mask_filter(s.drop_last(), keep.drop_last());
        if keep.last() {
            rest.push(s.last())
        } else {
            rest
        }
    }
}

/// The predicate can be asked about every card.
pub open spec fn pred_callable<F: Fn(&Card) -> bool>(f: F) -> bool {
    forall|c: Card| call_requires(f, (&c,))
}

/// How a filter step relates input to output: one removal decision was
/// returned by the predicate for each input card, and the output keeps, in
/// order, exactly the cards whose decision was false.
pub open spec fn filter_applies<F: Fn(&Card) -> bool>(f: F, inp: Seq<Card>, out: Seq<Card>) -> bool {
    exists|keep: Seq<bool>|
        keep.len() == inp.len() && (forall|i: int|
            0 <= i < inp.len() ==> call_ensures(f, (&inp[i],), !keep[i])) && out == mask_filter(
            inp,
            keep,
        )
}

/// Each card that a mask keeps is a card of the input at a kept position.
proof fn lemma_mask_filter_element(s: Seq<Card>, keep: Seq<bool>, i: int)
    requires
        keep.len() == s.len(),
        0 <= i < mask_filter(s, keep).len(),
    ensures
        exists|j: int| 0 <= j < s.len() && #[trigger] keep[j] && mask_filter(s, keep)[i] == s[j],
    decreases s.len(),
{
    assert(s.len() > 0);
    let rest = mask_filter(s.drop_last(), keep.drop_last());
    if i < rest.len() {
        lemma_mask_filter_element(s.drop_last(), keep.drop_last(), i);
        let j = choose|j: int|
            0 <= j < s.drop_last().len() && #[trigger] keep.drop_last()[j] && mask_filter(
                s.drop_last(),
                keep.drop_last(),
            )[i] == s.drop_last()[j];
        assert(0 <= j < s.len() && keep[j] && mask_filter(s, keep)[i] == s[j]);
    } else {
        let j = s.len() - 1;
        assert(keep.last() && mask_filter(s, keep)[i] == s.last());
        assert(0 <= j < s.len() && keep[j] && mask_filter(s, keep)[i] == s[j]);
    }
}

/// Every card that a filter step lets through is one on which the predicate
/// answered false: the step removes every card the predicate matched.
pub proof fn lemma_filter_removes_matching<F: Fn(&Card) -> bool>(f: F, inp: Seq<Card>, out: Seq<Card>)
    requires
        filter_applies(f, inp, out),
    ensures
        forall|i: int| 0 <= i < out.len() ==> call_ensures(f, (&out[i],), false),
{
    let keep = choose|keep: Seq<bool>|
        keep.len() == inp.len() && (forall|i: int|
            0 <= i < inp.len() ==> call_ensures(f, (&inp[i],), !keep[i])) && out == mask_filter(
            inp,
            keep,
        );
    assert forall|i: int| 0 <= i < out.len() implies call_ensures(f, (&out[i],), false) by {
        lemma_mask_filter_element(inp, keep, i);
        let j = choose|j: int|
            0 <= j < inp.len() && #[trigger] keep[j] && mask_filter(inp, keep)[i] == inp[j];
        assert(call_ensures(f, (&inp[j],), !keep[j]));
    }
}

/// What one pipeline step promises of its output, given its input.
pub open spec fn transform_applies<F: Fn(&Card) -> bool>(t: Transform<F>, inp: Seq<Card>, out: Seq<Card>) -> bool {
    match t {
        Transform::Multiply(n) => out == repeat_seq(inp, n as nat),
        Transform::Filter(f) => filter_applies(f, inp, out),
        Transform::Shuffle => out.to_multiset() == inp.to_multiset(),
        Transform::DefaultSort => out.to_multiset() == inp.to_multiset() && sorted_by_abs_rank(
            out,
        ),
    }
}

/// A chain of decks that starts at the base deck, steps through the given
/// transforms in order, and ends at `out`.
pub open spec fn pipeline_applies<F: Fn(&Card) -> bool>(opts: Seq<Transform<F>>, out: Seq<Card>) -> bool {
    exists|stages: Seq<Seq<Card>>|
        stages.len() == opts.len() + 1 && stages[0] == base_deck() && stages[opts.len() as int]
            == out && (forall|i: int|
            0 <= i < opts.len() ==> transform_applies(opts[i], #[trigger] stages[i], stages[i + 1]))
}

/// The multiply step: `n` copies of the input, concatenated in order.
pub(crate) fn apply_multiply(input: Vec<Card>, n: u8) -> (r: Vec<Card>)
    ensures
        r@ == repeat_seq(input@, n as nat),
{
    let mut v: Vec<Card> = Vec::new();
    let mut i: u8 = 0;
    while i < n
        invariant
            i <= n,
            v@ == repeat_seq(input@, i as nat),
        decreases n - i,
    {
        let mut k: usize = 0;
        while k < input.len()
            invariant
                k <= input@.len(),
                v@ == repeat_seq(input@, i as nat) + input@.take(k as int),
            decreases input@.len() - k,
        {
            v.push(input[k]);
            proof {
                assert(input@.take(k + 1) =~= input@.take(k as int).push(input@[k as int]));
            }
            k = k + 1;
        }
        proof {
            assert(input@.take(input@.len() as int) =~= input@);
        }
        i = i + 1;
    }
    v
}

/// The filter step: asks the predicate about each card in turn and keeps,
/// in order, exactly those it did not mark for removal.
fn apply_filter<F: Fn(&Card) -> bool + Copy>(filter_fn: F, input: Vec<Card>) -> (r: Vec<Card>)
    requires
        pred_callable(filter_fn),
    ensures
        filter_applies(filter_fn, input@, r@),
{
    let mut v: Vec<Card> = Vec::new();
    let ghost mut keep: Seq<bool> = Seq::empty();
    let mut k: usize = 0;
    while k < input.len()
        invariant
            pred_callable(filter_fn),
            k <= input@.len(),
            keep.len() == k,
            forall|i: int| 0 <= i < k ==> call_ensures(filter_fn, (&input@[i],), !keep[i]),
            v@ == mask_filter(input@.take(k as int), keep),
        decreases input@.len() - k,
    {
        let c = input[k];
        let remove = filter_fn(&c);
        if !remove {
            v.push(c);
        }
        proof {
            let prev = input@.take(k as int);
            let cur = input@.take(k + 1);
            assert(cur.drop_last() =~= prev);
            assert(keep.push(!remove).drop_last() =~= keep);
            assert(cur.last() == input@[k as int]);
            keep = keep.push(!remove);
        }
        k = k + 1;
    }
    proof {
        assert(input@.take(input@.len() as int) =~= input@);
        assert(filter_applies(filter_fn, input@, v@));
    }
    v
}

/// One pipeline step that concatenates `n` copies of its input, simulating
/// an n-deck shoe.
pub fn deck<F>(n: u8) -> (r: Transform<F>)
    ensures
        r == Transform::<F>::Multiply(n),
{
    Transform::Multiply(n)
}

/// One pipeline step that removes every card for which the given predicate
/// answers true.
pub fn filter<F: Fn(&Card) -> bool>(filter_fn: F) -> (r: Transform<F>)
    ensures
        r == Transform::Filter(filter_fn),
{
    Transform::Filter(filter_fn)
}

/// The 52 canonical cards as a vector, in the deterministic base order.
pub(crate) fn base_cards() -> (r: Vec<Card>)
    ensures
        r@ == base_deck(),
{
    let suits = Suit::iterator();
    let ranks = Rank::iterator();
    let mut v: Vec<Card> = Vec::new();
    let mut s: usize = 0;
    while s < 4
        invariant
            s <= 4,
            suits@.len() == 4,
            ranks@.len() == 13,
            forall|i: int| 0 <= i < 4 ==> suits@[i] == suit_of_index(i),
            forall|i: int| 0 <= i < 13 ==> ranks@[i] == rank_of_index(i),
            v@ =~= base_deck().take(13 * s as int),
        decreases 4 - s,
    {
        let mut t: usize = 0;
        while t < 13
            invariant
                s < 4,
                t <= 13,
                suits@.len() == 4,
                ranks@.len() == 13,
                forall|i: int| 0 <= i < 4 ==> suits@[i] == suit_of_index(i),
                forall|i: int| 0 <= i < 13 ==> ranks@[i] == rank_of_index(i),
                v@ =~= base_deck().take(13 * s as int + t as int),
            decreases 13 - t,
        {
            v.push(Card::new(suits[s], ranks[t]));
            proof {
                let k: int = 13 * s as int + t as int;
                assert((13 * s as int + t as int) / 13 == s as int && (13 * s as int + t as int)
                    % 13 == t as int) by (nonlinear_arith)
                    requires
                        0 <= (s as int) && (s as int) < 4,
                        0 <= (t as int) && (t as int) < 13,
                ;
                assert(base_deck()[k] == (Card { suit: suit_of_index(s as int), rank: rank_of_index(t as int) }));
                assert(base_deck().take(k + 1) =~= base_deck().take(k).push(base_deck()[k]));
            }
            t = t + 1;
        }
        s = s + 1;
    }
    proof {
        assert(v@ =~= base_deck());
    }
    v
}

/// Builds a deck: starts from the 52 canonical cards in deterministic order
/// (each suit in enumeration order, each rank in enumeration order) and
/// applies the given transforms left to right, each consuming the previous
/// output.
pub fn cards<F: Fn(&Card) -> bool + Copy>(opts: &Vec<Transform<F>>) -> (r: Vec<Card>)
    requires
        forall|i: int|
            0 <= i < opts@.len() ==> ((#[trigger] opts@[i]) matches Transform::Filter(f)
                ==> pred_callable(f)),
    ensures
        pipeline_applies(opts@, r@),
        opts@.len() == 0 ==> r@ == base_deck(),
{
    let mut v = base_cards();
    let ghost mut stages: Seq<Seq<Card>> = seq![base_deck()];
    let mut idx: usize = 0;
    while idx < opts.len()
        invariant
            forall|i: int|
                0 <= i < opts@.len() ==> ((#[trigger] opts@[i]) matches Transform::Filter(f)
                    ==> pred_callable(f)),
            idx <= opts@.len(),
            stages.len() == idx + 1,
            stages[0] == base_deck(),
            stages[idx as int] == v@,
            forall|i: int|
                0 <= i < idx ==> transform_applies(opts@[i], #[trigger] stages[i], stages[i + 1]),
        decreases opts@.len() - idx,
    {
        let t = opts[idx];
        match t {
            Transform::Multiply(n) => {
                v = apply_multiply(v, n);
            },
            Transform::Filter(f) => {
                v = apply_filter(f, v);
            },
            Transform::Shuffle => {
                v = shuffle(v);
            },
            Transform::DefaultSort => {
                v = default_sort(v);
            },
        }
        proof {
            stages = stages.push(v@);
        }
        idx = idx + 1;
    }
    v
}

/// A pipeline of one multiply step and nothing else yields 52 * n cards.
pub proof fn lemma_multiply_only_len<F: Fn(&Card) -> bool>(opts: Seq<Transform<F>>, out: Seq<Card>, n: u8)
    requires
        opts =~= seq![Transform::<F>::Multiply(n)],
        pipeline_applies(opts, out),
    ensures
        out.len() == 52 * n,
{
    let stages = choose|stages: Seq<Seq<Card>>|
        stages.len() == opts.len() + 1 && stages[0] == base_deck() && stages[opts.len() as int]
            == out && (forall|i: int|
            0 <= i < opts.len() ==> transform_applies(
                opts[i],
                #[trigger] stages[i],
                stages[i + 1],
            ));
    assert(transform_applies(opts[0], stages[0], stages[1]));
    assert(opts[0] == Transform::<F>::Multiply(n));
    assert(stages[1] == out);
    assert(out == repeat_seq(base_deck(), n as nat));
    lemma_repeat_seq_len(base_deck(), n as nat);
    assert(base_deck().len() == 52);
}

/// Every deck whose cards are exactly those of the base deck comes out of
/// `default_sort` as the base deck itself.
pub proof fn lemma_default_sort_of_base_deck(s: Seq<Card>)
    requires
        s.to_multiset() == base_deck().to_multiset(),
        sorted_by_abs_rank(s),
    ensures
        s == base_deck(),
{
    lemma_base_deck_properties();
    lemma_sorted_permutation_unique(s, base_deck());
}

} // verus!
