use blackjack::card::Card;
use blackjack::card::Rank;
use blackjack::card::Suit;
use blackjack::deck::cards;
use blackjack::deck::deck;
use blackjack::deck::default_sort;
use blackjack::deck::filter;
use blackjack::deck::shuffle;
use blackjack::deck::Transform;

type CardPred = fn(&Card) -> bool;

#[test]
fn test_string() {
    let c = Card::new(Suit::Spade, Rank::Ace);
    assert_eq!(c.render(), "Ace of Spades")
}

#[test]
fn test_cards() {
    let opts: Vec<Transform<CardPred>> = vec![];
    let v = cards(&opts);
    assert!(v.len() == 13 * 4)
}

#[test]
fn test_default_sort() {
    let opts: Vec<Transform<CardPred>> = vec![Transform::DefaultSort];
    let v = cards(&opts);
    let exp = Card::new(Suit::Spade, Rank::Ace);
    assert_eq!(exp, v[0])
}

#[test]
fn test_filter() {
    let f1 = |c: &Card| -> bool { c.rank == Rank::Two || c.rank == Rank::Three };
    let f2 = filter(f1);
    let v = cards(&vec![Transform::Shuffle, f2]);
    assert!(!v
        .iter()
        .any(|c| c.rank == Rank::Two || c.rank == Rank::Three))
}

#[test]
fn test_deck() {
    let opts: Vec<Transform<CardPred>> = vec![deck(3)];
    let v = cards(&opts);
    assert!(v.len() == 13 * 4 * 3)
}

#[test]
fn base_build_first_and_last_under_sort() {
    let opts: Vec<Transform<CardPred>> = vec![Transform::DefaultSort];
    let v = cards(&opts);
    assert_eq!(v.len(), 52);
    assert_eq!(v[0], Card::new(Suit::Spade, Rank::Ace));
    assert_eq!(v[51], Card::new(Suit::Heart, Rank::King));
}

#[test]
fn multiply_then_filter_composes() {
    let remove_aces = |c: &Card| -> bool { c.rank == Rank::Ace };
    let v = cards(&vec![deck(2), filter(remove_aces)]);
    // two decks of 52, minus two aces of each suit
    assert_eq!(v.len(), 104 - 8);
    assert!(!v.iter().any(|c| c.rank == Rank::Ace));
}

#[test]
fn shuffle_is_a_permutation() {
    let opts: Vec<Transform<CardPred>> = vec![];
    let v = cards(&opts);
    let shuffled = shuffle(v.clone());
    assert_eq!(shuffled.len(), v.len());
    // same cards up to order: canonical sort brings both to one sequence
    assert_eq!(default_sort(shuffled), default_sort(v));
}

#[test]
fn standalone_default_sort_orders_a_shuffled_deck() {
    let opts: Vec<Transform<CardPred>> = vec![Transform::Shuffle];
    let sorted = default_sort(cards(&opts));
    let base: Vec<Transform<CardPred>> = vec![];
    assert_eq!(sorted, cards(&base));
}

#[test]
fn iterators_list_every_suit_and_rank_once() {
    let suits = Suit::iterator();
    assert_eq!(suits.len(), 4);
    assert_eq!(suits[0], Suit::Spade);
    assert_eq!(suits[3], Suit::Heart);
    let ranks = Rank::iterator();
    assert_eq!(ranks.len(), 13);
    assert_eq!(ranks[0], Rank::Ace);
    assert_eq!(ranks[12], Rank::King);
}
