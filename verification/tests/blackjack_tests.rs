use game_platform::blackjack::{BlackjackAction, BlackjackGame, BlackjackResult};
use game_platform::types::{Card, GameOutcome, Player, Suit};

fn card(rank: u8, suit: Suit) -> Card {
    Card { rank, suit }
}

/// A consistent game built around chosen hands, dealer cards and deck top.
/// The deck is padded so the shoe accounting stays plausible; cards are
/// drawn from the end of the deck vector.
fn rigged(player: Vec<Card>, dealer: Vec<Card>, deck_top: Vec<Card>, bet: u64, chips: u64)
    -> BlackjackGame {
    let mut deck: Vec<Card> = Vec::new();
    let dealt = player.len() + dealer.len() + deck_top.len();
    for _ in 0..(312 - dealt) {
        deck.push(card(2, Suit::Clubs));
    }
    // The last pushed card is the next drawn.
    for c in deck_top.iter().rev() {
        deck.push(*c);
    }
    BlackjackGame {
        player_hands: vec![player],
        dealer_hand: dealer,
        deck,
        current_hand: 0,
        bets: vec![bet],
        player_chips: chips,
        is_player_turn: true,
        is_game_over: false,
        insurance_bet: None,
        results: vec![],
    }
}

#[test]
fn new_deals_two_cards_each_and_debits_the_bet() {
    let game = BlackjackGame::new(100, 1000, 9);
    assert_eq!(game.player_hands.len(), 1);
    assert_eq!(game.player_hands[0].len(), 2);
    assert_eq!(game.dealer_hand.len(), 2);
    assert_eq!(game.deck.len(), 308);
    assert_eq!(game.bets, vec![100]);
    assert_eq!(game.player_chips, 900);
    assert!(game.is_player_turn);
    assert!(!game.is_game_over);
    assert!(game.results.is_empty());
}

#[test]
fn ace_and_king_is_a_two_card_twenty_one() {
    let game = rigged(
        vec![card(14, Suit::Hearts), card(13, Suit::Spades)],
        vec![card(9, Suit::Clubs), card(8, Suit::Diamonds)],
        vec![],
        100,
        900,
    );
    assert_eq!(game.get_player_hand_value(0), 21);
    assert_eq!(game.player_hands[0].len(), 2);
}

#[test]
fn aces_reduce_from_eleven_to_one() {
    let game = rigged(
        vec![card(14, Suit::Hearts), card(14, Suit::Spades), card(9, Suit::Clubs)],
        vec![card(9, Suit::Clubs), card(8, Suit::Diamonds)],
        vec![],
        100,
        900,
    );
    // 11 + 11 + 9 = 31, one ace drops: 21.
    assert_eq!(game.get_player_hand_value(0), 21);
}

#[test]
fn split_without_chips_fails_and_leaves_one_hand() {
    let mut game = rigged(
        vec![card(8, Suit::Hearts), card(8, Suit::Diamonds)],
        vec![card(9, Suit::Clubs), card(8, Suit::Spades)],
        vec![card(5, Suit::Clubs), card(6, Suit::Clubs)],
        100,
        50,
    );
    let err = game.make_action(BlackjackAction::Split).unwrap_err();
    assert_eq!(err, "Insufficient chips to split");
    assert_eq!(game.player_hands.len(), 1);
    assert_eq!(game.player_hands[0].len(), 2);
    assert_eq!(game.player_chips, 50);
    assert_eq!(game.bets, vec![100]);
}

#[test]
fn split_of_unequal_ranks_fails() {
    let mut game = rigged(
        vec![card(8, Suit::Hearts), card(9, Suit::Diamonds)],
        vec![card(9, Suit::Clubs), card(8, Suit::Spades)],
        vec![],
        100,
        1000,
    );
    assert_eq!(game.make_action(BlackjackAction::Split).unwrap_err(), "Cannot split");
    assert_eq!(game.player_hands.len(), 1);
}

#[test]
fn split_makes_two_hands_with_matching_bets() {
    let mut game = rigged(
        vec![card(8, Suit::Hearts), card(8, Suit::Diamonds)],
        vec![card(9, Suit::Clubs), card(8, Suit::Spades)],
        vec![card(5, Suit::Clubs), card(6, Suit::Clubs)],
        100,
        1000,
    );
    let outcome = game.make_action(BlackjackAction::Split).unwrap();
    assert_eq!(outcome, GameOutcome::InProgress);
    assert_eq!(game.player_hands.len(), 2);
    assert_eq!(game.player_hands[0], vec![card(8, Suit::Hearts), card(5, Suit::Clubs)]);
    assert_eq!(game.player_hands[1], vec![card(8, Suit::Diamonds), card(6, Suit::Clubs)]);
    assert_eq!(game.bets, vec![100, 100]);
    assert_eq!(game.player_chips, 900);
    assert!(game.is_player_turn);
}

#[test]
fn hit_that_busts_records_bust_and_house_wins() {
    let mut game = rigged(
        vec![card(13, Suit::Hearts), card(12, Suit::Diamonds)],
        vec![card(9, Suit::Clubs), card(9, Suit::Spades)],
        vec![card(5, Suit::Clubs)],
        100,
        900,
    );
    let outcome = game.make_action(BlackjackAction::Hit).unwrap();
    assert_eq!(game.results[0], BlackjackResult::Bust);
    assert!(game.is_game_over);
    assert_eq!(outcome, GameOutcome::Winner(Player::Two));
    assert_eq!(game.player_chips, 900); // the stake is lost
}

#[test]
fn stand_and_dealer_bust_pays_double() {
    let mut game = rigged(
        vec![card(13, Suit::Hearts), card(9, Suit::Diamonds)], // 19
        vec![card(6, Suit::Clubs), card(10, Suit::Spades)],    // 16, must draw
        vec![card(13, Suit::Clubs)],                           // dealer draws to 26
        100,
        900,
    );
    let outcome = game.make_action(BlackjackAction::Stand).unwrap();
    assert!(game.is_game_over);
    assert_eq!(game.results, vec![BlackjackResult::Win]);
    assert_eq!(game.player_chips, 900 + 200);
    assert_eq!(outcome, GameOutcome::Winner(Player::One));
}

#[test]
fn natural_blackjack_pays_three_to_two() {
    let mut game = rigged(
        vec![card(14, Suit::Hearts), card(13, Suit::Spades)], // natural 21
        vec![card(10, Suit::Clubs), card(9, Suit::Spades)],   // 19, stands
        vec![],
        100,
        0,
    );
    let outcome = game.make_action(BlackjackAction::Stand).unwrap();
    assert_eq!(game.results, vec![BlackjackResult::Blackjack]);
    assert_eq!(game.player_chips, 250); // stake plus one and a half
    assert_eq!(outcome, GameOutcome::Winner(Player::One));
}

#[test]
fn push_returns_the_stake_and_draws() {
    let mut game = rigged(
        vec![card(13, Suit::Hearts), card(9, Suit::Diamonds)], // 19
        vec![card(10, Suit::Clubs), card(9, Suit::Spades)],    // 19
        vec![],
        100,
        900,
    );
    let outcome = game.make_action(BlackjackAction::Stand).unwrap();
    assert_eq!(game.results, vec![BlackjackResult::Push]);
    assert_eq!(game.player_chips, 1000);
    assert_eq!(outcome, GameOutcome::Draw);
}

#[test]
fn double_needs_two_cards_and_chips() {
    let mut game = rigged(
        vec![card(5, Suit::Hearts), card(6, Suit::Diamonds)],
        vec![card(10, Suit::Clubs), card(9, Suit::Spades)],
        vec![card(10, Suit::Hearts)],
        100,
        50,
    );
    assert_eq!(
        game.make_action(BlackjackAction::Double).unwrap_err(),
        "Insufficient chips to double"
    );

    let mut game = rigged(
        vec![card(5, Suit::Hearts), card(6, Suit::Diamonds)], // 11
        vec![card(10, Suit::Clubs), card(9, Suit::Spades)],   // 19
        vec![card(10, Suit::Hearts)],                         // doubles into 21
        100,
        900,
    );
    let outcome = game.make_action(BlackjackAction::Double).unwrap();
    assert_eq!(game.bets, vec![200]);
    assert!(game.is_game_over);
    assert_eq!(game.results, vec![BlackjackResult::Win]);
    // 900 debited 100 for the double, then paid 400.
    assert_eq!(game.player_chips, 800 + 400);
    assert_eq!(outcome, GameOutcome::Winner(Player::One));
}

#[test]
fn insurance_needs_a_visible_ace_and_pays_on_dealer_blackjack() {
    let mut no_ace = rigged(
        vec![card(9, Suit::Hearts), card(9, Suit::Diamonds)],
        vec![card(10, Suit::Clubs), card(14, Suit::Spades)],
        vec![],
        100,
        900,
    );
    assert_eq!(
        no_ace.make_action(BlackjackAction::Insurance).unwrap_err(),
        "Insurance only available when dealer shows Ace"
    );

    let mut game = rigged(
        vec![card(9, Suit::Hearts), card(9, Suit::Diamonds)], // 18
        vec![card(14, Suit::Clubs), card(13, Suit::Spades)],  // dealer blackjack
        vec![],
        100,
        900,
    );
    game.make_action(BlackjackAction::Insurance).unwrap();
    assert_eq!(game.insurance_bet, Some(50));
    assert_eq!(game.player_chips, 850);
    let outcome = game.make_action(BlackjackAction::Stand).unwrap();
    assert_eq!(game.results, vec![BlackjackResult::Lose]);
    // Insurance pays back three times the premium.
    assert_eq!(game.player_chips, 850 + 150);
    assert_eq!(outcome, GameOutcome::Winner(Player::Two));
}

#[test]
fn acting_after_the_round_is_over_fails() {
    let mut game = rigged(
        vec![card(13, Suit::Hearts), card(9, Suit::Diamonds)],
        vec![card(10, Suit::Clubs), card(9, Suit::Spades)],
        vec![],
        100,
        900,
    );
    game.make_action(BlackjackAction::Stand).unwrap();
    assert!(game.is_game_over);
    assert_eq!(game.make_action(BlackjackAction::Hit).unwrap_err(), "Not player's turn");
}
