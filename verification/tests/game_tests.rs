use blackjack::card::Card;
use blackjack::card::Rank;
use blackjack::card::Suit;
use blackjack::game::dealer_should_hit;
use blackjack::game::Game;
use blackjack::game::Outcome;
use blackjack::game::State;
use blackjack::hand::Hand;

fn hand_of(ranks: &[Rank]) -> Hand {
    Hand {
        cards: ranks.iter().map(|r| Card::new(Suit::Spade, *r)).collect(),
    }
}

#[test]
fn scoring_ace_king_is_blackjack() {
    let h = hand_of(&[Rank::Ace, Rank::King]);
    assert_eq!(h.min_score(), 11);
    assert_eq!(h.score(), 21);
}

#[test]
fn scoring_two_aces_upgrades_only_one() {
    let h = hand_of(&[Rank::Ace, Rank::Ace]);
    assert_eq!(h.min_score(), 2);
    assert_eq!(h.score(), 12);
}

#[test]
fn scoring_ten_nine() {
    let h = hand_of(&[Rank::Ten, Rank::Nine]);
    assert_eq!(h.score(), 19);
}

#[test]
fn scoring_bust_stays_as_it_stands() {
    let h = hand_of(&[Rank::King, Rank::Queen, Rank::Two]);
    assert_eq!(h.score(), 22);
}

#[test]
fn dealer_partial_render_hides_all_but_first() {
    let h = Hand {
        cards: vec![
            Card::new(Suit::Spade, Rank::Ace),
            Card::new(Suit::Heart, Rank::King),
        ],
    };
    assert_eq!(h.dealer_hand(), "Ace of Spades, **HIDDEN**");
}

#[test]
fn full_render_joins_with_commas() {
    let h = Hand {
        cards: vec![
            Card::new(Suit::Spade, Rank::Ace),
            Card::new(Suit::Heart, Rank::King),
        ],
    };
    assert_eq!(h.render_full(), "Ace of Spades,King of Hearts");
}

#[test]
fn new_game_starts_with_player() {
    let g = Game::new();
    assert_eq!(g.state, State::Player);
    assert!(g.player.cards.is_empty());
    assert!(g.dealer.cards.is_empty());
    assert_eq!(g.deck_len(), 0);
}

#[test]
fn stand_advances_player_dealer_handover() {
    let mut g = Game::new();
    g.stand();
    assert_eq!(g.state, State::Dealer);
    g.stand();
    assert_eq!(g.state, State::Handover);
}

#[test]
fn game_shuffle_builds_a_three_deck_shoe() {
    let mut g = Game::new();
    g.shuffle();
    assert_eq!(g.deck_len(), 156);
    let mut per_rank: u32 = 0;
    for c in g.deck.iter() {
        if c.rank == Rank::Ace && c.suit == Suit::Spade {
            per_rank += 1;
        }
    }
    assert_eq!(per_rank, 3);
}

#[test]
fn deal_moves_two_cards_to_each_hand() {
    let mut g = Game::new();
    g.set_deck(vec![
        Card::new(Suit::Spade, Rank::Ten),
        Card::new(Suit::Heart, Rank::Nine),
        Card::new(Suit::Club, Rank::Five),
        Card::new(Suit::Diamond, Rank::Six),
        Card::new(Suit::Spade, Rank::Two),
    ]);
    g.deal();
    assert_eq!(g.state, State::Player);
    assert_eq!(
        g.player.cards,
        vec![
            Card::new(Suit::Spade, Rank::Ten),
            Card::new(Suit::Heart, Rank::Nine)
        ]
    );
    assert_eq!(
        g.dealer.cards,
        vec![
            Card::new(Suit::Club, Rank::Five),
            Card::new(Suit::Diamond, Rank::Six)
        ]
    );
    assert_eq!(g.deck_len(), 1);
}

#[test]
fn hit_that_reaches_twenty_one_advances_like_stand() {
    let mut g = Game::new();
    g.set_deck(vec![
        Card::new(Suit::Spade, Rank::Ten),
        Card::new(Suit::Heart, Rank::Five),
        Card::new(Suit::Club, Rank::Ten),
        Card::new(Suit::Diamond, Rank::Six),
        Card::new(Suit::Spade, Rank::King),
    ]);
    g.deal();
    assert_eq!(g.state, State::Player);
    // player holds fifteen; the king busts the hand and the turn advances
    g.hit();
    assert_eq!(g.player.score(), 25);
    assert_eq!(g.state, State::Dealer);
}

#[test]
fn hit_below_twenty_one_keeps_the_turn() {
    let mut g = Game::new();
    g.set_deck(vec![
        Card::new(Suit::Spade, Rank::Ten),
        Card::new(Suit::Heart, Rank::Five),
        Card::new(Suit::Club, Rank::Ten),
        Card::new(Suit::Diamond, Rank::Six),
        Card::new(Suit::Spade, Rank::Two),
    ]);
    g.deal();
    g.hit();
    assert_eq!(g.player.score(), 17);
    assert_eq!(g.state, State::Player);
}

#[test]
fn dealer_hits_sixteen_and_soft_seventeen_stands_hard_seventeen() {
    assert!(dealer_should_hit(&hand_of(&[Rank::Ten, Rank::Six])));
    // ace and six: soft seventeen
    assert!(dealer_should_hit(&hand_of(&[Rank::Ace, Rank::Six])));
    // ten and seven: hard seventeen
    assert!(!dealer_should_hit(&hand_of(&[Rank::Ten, Rank::Seven])));
    assert!(!dealer_should_hit(&hand_of(&[Rank::Ten, Rank::Eight])));
}

#[test]
fn end_reports_the_outcome_and_clears_the_hands() {
    let mut g = Game::new();
    g.set_deck(vec![
        Card::new(Suit::Spade, Rank::Ten),
        Card::new(Suit::Heart, Rank::Nine),
        Card::new(Suit::Club, Rank::Ten),
        Card::new(Suit::Diamond, Rank::Seven),
        Card::new(Suit::Spade, Rank::Two),
    ]);
    g.deal();
    let outcome = g.end();
    // player nineteen, dealer seventeen
    assert_eq!(outcome, Outcome::PlayerWins);
    assert!(g.player.cards.is_empty());
    assert!(g.dealer.cards.is_empty());
    assert_eq!(g.deck_len(), 1);
}

fn play_round(deck: Vec<Card>) -> Outcome {
    let mut g = Game::new();
    g.set_deck(deck);
    g.deal();
    // the player stands immediately
    g.stand();
    while g.state == State::Dealer {
        if dealer_should_hit(&g.dealer) {
            assert!(g.deck_len() >= 1);
            g.hit();
        } else {
            g.stand();
        }
    }
    assert_eq!(g.state, State::Handover);
    g.end()
}

#[test]
fn round_where_the_dealer_draws_to_twenty_one() {
    // player: ten, nine (nineteen); dealer: ten, six (sixteen), draws five
    let outcome = play_round(vec![
        Card::new(Suit::Spade, Rank::Ten),
        Card::new(Suit::Heart, Rank::Nine),
        Card::new(Suit::Club, Rank::Ten),
        Card::new(Suit::Diamond, Rank::Six),
        Card::new(Suit::Spade, Rank::Five),
    ]);
    assert_eq!(outcome, Outcome::PlayerLoses);
}

#[test]
fn round_where_the_dealer_busts() {
    // player: ten, nine (nineteen); dealer: ten, six (sixteen), draws a king
    let outcome = play_round(vec![
        Card::new(Suit::Spade, Rank::Ten),
        Card::new(Suit::Heart, Rank::Nine),
        Card::new(Suit::Club, Rank::Ten),
        Card::new(Suit::Diamond, Rank::Six),
        Card::new(Suit::Spade, Rank::King),
    ]);
    assert_eq!(outcome, Outcome::DealerBusted);
}

#[test]
fn round_that_ends_in_a_draw() {
    // both sides hold eighteen and the dealer stands on hard eighteen
    let outcome = play_round(vec![
        Card::new(Suit::Spade, Rank::Ten),
        Card::new(Suit::Heart, Rank::Eight),
        Card::new(Suit::Club, Rank::Ten),
        Card::new(Suit::Diamond, Rank::Eight),
        Card::new(Suit::Spade, Rank::Two),
    ]);
    assert_eq!(outcome, Outcome::Draw);
}

#[test]
fn round_where_the_player_busts_beats_everything() {
    let mut g = Game::new();
    g.set_deck(vec![
        Card::new(Suit::Spade, Rank::Ten),
        Card::new(Suit::Heart, Rank::Five),
        Card::new(Suit::Club, Rank::Ten),
        Card::new(Suit::Diamond, Rank::King),
        Card::new(Suit::Spade, Rank::King),
        Card::new(Suit::Heart, Rank::King),
    ]);
    g.deal();
    g.hit();
    // the bust advanced the turn; the dealer busts too, but the player's
    // bust is reported first
    assert_eq!(g.state, State::Dealer);
    g.hit();
    assert_eq!(g.state, State::Handover);
    assert_eq!(g.end(), Outcome::PlayerBusted);
}
