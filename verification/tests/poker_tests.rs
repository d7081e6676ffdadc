use game_platform::poker::{PokerAction, PokerActionRecord, PokerGame, PokerStage};
use game_platform::types::{Card, GameOutcome, Player, Suit};

fn card(rank: u8, suit: Suit) -> Card {
    Card { rank, suit }
}

#[test]
fn new_deals_and_posts_blinds() {
    let game = PokerGame::new(1000, 10, 20, 42);
    assert_eq!(game.pot, 30);
    assert_eq!(game.player_chips, vec![990, 980]);
    assert_eq!(game.stage, PokerStage::PreFlop);
    assert_eq!(game.player_bets, vec![10, 20]);
    assert_eq!(game.current_bet, 20);
    assert_eq!(game.active_player, Player::One);
    assert_eq!(game.dealer, Player::One);
    assert_eq!(game.last_raiser, Some(Player::Two));
    assert_eq!(game.deck.len(), 48);
    assert_eq!(game.player_hands.len(), 2);
    assert_eq!(game.player_hands[0].len(), 2);
    assert_eq!(game.player_hands[1].len(), 2);
    assert_eq!(game.community_cards.len(), 0);
    assert!(game.action_history.is_empty());
}

#[test]
fn same_seed_same_deal() {
    let a = PokerGame::new(1000, 10, 20, 77);
    let b = PokerGame::new(1000, 10, 20, 77);
    assert_eq!(a.player_hands, b.player_hands);
    assert_eq!(a.deck, b.deck);
}

#[test]
fn fold_preflop_wins_for_the_other_seat() {
    let mut game = PokerGame::new(1000, 10, 20, 1);
    let outcome = game.make_action(PokerAction::Fold, None, 5).unwrap();
    assert_eq!(outcome, GameOutcome::Winner(Player::Two));
    assert!(game.folded[0]);
    assert_eq!(game.action_history.len(), 1);
    assert_eq!(game.action_history[0].action, PokerAction::Fold);
}

#[test]
fn fold_after_the_flop_still_wins_for_the_other_seat() {
    let mut game = PokerGame::new(1000, 10, 20, 1);
    game.make_action(PokerAction::Call, None, 0).unwrap();
    game.make_action(PokerAction::Check, None, 1).unwrap();
    assert_eq!(game.stage, PokerStage::Flop);
    assert_eq!(game.community_cards.len(), 3);
    // After the flop the non-dealer seat acts first.
    assert_eq!(game.active_player, Player::Two);
    let outcome = game.make_action(PokerAction::Fold, None, 2).unwrap();
    assert_eq!(outcome, GameOutcome::Winner(Player::One));
}

#[test]
fn check_below_the_table_bet_fails_unchanged() {
    let mut game = PokerGame::new(1000, 10, 20, 3);
    let pot_before = game.pot;
    let bets_before = game.player_bets.clone();
    let err = game.make_action(PokerAction::Check, None, 0).unwrap_err();
    assert_eq!(err, "Cannot check, must call or raise");
    assert_eq!(game.pot, pot_before);
    assert_eq!(game.player_bets, bets_before);
    assert_eq!(game.stage, PokerStage::PreFlop);
    assert!(game.action_history.is_empty());
}

#[test]
fn raise_without_cover_fails_unchanged() {
    let mut game = PokerGame::new(1000, 10, 20, 3);
    let before_chips = game.player_chips.clone();
    let err = game.make_action(PokerAction::Raise, Some(10_000), 0).unwrap_err();
    assert_eq!(err, "Insufficient chips");
    assert_eq!(game.player_chips, before_chips);
    assert!(game.action_history.is_empty());
}

#[test]
fn folded_seat_cannot_act_again() {
    let mut game = PokerGame::new(1000, 10, 20, 3);
    game.folded[0] = true;
    let err = game.make_action(PokerAction::Check, None, 0).unwrap_err();
    assert_eq!(err, "Player has folded");
}

#[test]
fn raise_moves_chips_and_table_bet() {
    let mut game = PokerGame::new(1000, 10, 20, 9);
    // Seat 0 owes 10 and raises 30 on top of the table bet of 20.
    game.make_action(PokerAction::Raise, Some(30), 0).unwrap();
    assert_eq!(game.pot, 30 + 10 + 30);
    assert_eq!(game.player_bets[0], 50);
    assert_eq!(game.current_bet, 50);
    assert_eq!(game.player_chips[0], 1000 - 50);
    assert_eq!(game.last_raiser, Some(Player::One));
    assert_eq!(game.active_player, Player::Two);
}

#[test]
fn call_then_check_deals_the_flop() {
    let mut game = PokerGame::new(1000, 10, 20, 5);
    game.make_action(PokerAction::Call, None, 0).unwrap();
    assert_eq!(game.player_bets[0], 20);
    assert_eq!(game.pot, 40);
    game.make_action(PokerAction::Check, None, 1).unwrap();
    assert_eq!(game.stage, PokerStage::Flop);
    assert_eq!(game.community_cards.len(), 3);
    assert_eq!(game.deck.len(), 45);
    assert_eq!(game.player_bets, vec![0, 0]);
    assert_eq!(game.current_bet, 0);
    assert_eq!(game.last_raiser, None);
}

#[test]
fn all_in_below_the_bet_completes_the_round() {
    let mut game = PokerGame::new(1000, 10, 20, 5);
    game.player_chips[0] = 5; // short stack
    game.make_action(PokerAction::AllIn, None, 0).unwrap();
    assert!(game.all_in[0]);
    assert_eq!(game.player_chips[0], 0);
    // The round completes at once because a seat is all-in.
    assert_eq!(game.stage, PokerStage::Flop);
}

/// Builds a river-stage game with chosen cards, ready for the final check.
fn river_game(hand0: Vec<Card>, hand1: Vec<Card>, community: Vec<Card>) -> PokerGame {
    let mut game = PokerGame::new(1000, 10, 20, 123);
    game.player_hands = vec![hand0, hand1];
    game.community_cards = community;
    game.deck.truncate(43);
    game.stage = PokerStage::River;
    game.player_bets = vec![0, 0];
    game.current_bet = 0;
    game.active_player = Player::Two;
    game.action_history.push(PokerActionRecord {
        player: Player::Two,
        action: PokerAction::Check,
        amount: 0,
        stage: PokerStage::River,
        timestamp: 0,
    });
    game
}

#[test]
fn showdown_pair_of_aces_beats_high_card() {
    let community = vec![
        card(3, Suit::Clubs),
        card(9, Suit::Diamonds),
        card(11, Suit::Spades),
        card(12, Suit::Hearts),
        card(13, Suit::Clubs),
    ];
    let mut game = river_game(
        vec![card(14, Suit::Hearts), card(14, Suit::Diamonds)],
        vec![card(2, Suit::Clubs), card(7, Suit::Spades)],
        community,
    );
    let outcome = game.make_action(PokerAction::Check, None, 0).unwrap();
    assert_eq!(game.stage, PokerStage::Showdown);
    assert_eq!(outcome, GameOutcome::Winner(Player::One));
}

#[test]
fn showdown_equal_hands_is_a_draw() {
    let community = vec![
        card(3, Suit::Clubs),
        card(9, Suit::Diamonds),
        card(11, Suit::Spades),
        card(12, Suit::Hearts),
        card(13, Suit::Clubs),
    ];
    let mut game = river_game(
        vec![card(5, Suit::Hearts), card(6, Suit::Diamonds)],
        vec![card(5, Suit::Diamonds), card(6, Suit::Hearts)],
        community,
    );
    let outcome = game.make_action(PokerAction::Check, None, 0).unwrap();
    assert_eq!(outcome, GameOutcome::Draw);
}

#[test]
fn showdown_flush_beats_a_pair() {
    let community = vec![
        card(3, Suit::Hearts),
        card(9, Suit::Hearts),
        card(11, Suit::Hearts),
        card(12, Suit::Clubs),
        card(13, Suit::Diamonds),
    ];
    let mut game = river_game(
        vec![card(2, Suit::Hearts), card(6, Suit::Hearts)], // five hearts
        vec![card(13, Suit::Clubs), card(13, Suit::Spades)], // trip kings? no: pair + community king = three
        community,
    );
    // Seat 1 holds three kings (score 300 + 13), seat 0 a flush (500).
    let outcome = game.make_action(PokerAction::Check, None, 0).unwrap();
    assert_eq!(outcome, GameOutcome::Winner(Player::One));
}

#[test]
fn showdown_wheel_straight_counts() {
    let community = vec![
        card(2, Suit::Clubs),
        card(3, Suit::Diamonds),
        card(4, Suit::Spades),
        card(9, Suit::Hearts),
        card(12, Suit::Clubs),
    ];
    let mut game = river_game(
        vec![card(14, Suit::Hearts), card(5, Suit::Diamonds)], // A-2-3-4-5
        vec![card(9, Suit::Clubs), card(7, Suit::Spades)],     // pair of nines
        community,
    );
    let outcome = game.make_action(PokerAction::Check, None, 0).unwrap();
    assert_eq!(outcome, GameOutcome::Winner(Player::One));
}
