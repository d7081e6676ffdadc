use game_platform::blackjack::BlackjackAction;
use game_platform::clock::Timeouts;
use game_platform::dispatch::{GameAction, GamePayload, GameState};
use game_platform::poker::PokerAction;
use game_platform::types::{GameMode, GameOutcome, GameStatus, GameType, Player};

fn chess_game(mode: GameMode) -> GameState {
    GameState::new_game(
        "g1".to_string(),
        GameType::Chess,
        mode,
        vec!["alice".to_string(), "bob".to_string()],
        vec!["Alice".to_string(), "Bob".to_string()],
        1_000,
        &Timeouts::default(),
    )
}

fn record_fingerprint(g: &GameState) -> (GameStatus, Option<Player>, u64, usize) {
    let payload_len = match &g.payload {
        GamePayload::Chess(b) => b.move_history.len(),
        GamePayload::Poker(p) => p.action_history.len(),
        GamePayload::Blackjack(b) => b.results.len(),
    };
    (g.status, g.winner, g.updated_at, payload_len)
}

#[test]
fn new_game_is_in_progress_with_matching_payload() {
    let g = chess_game(GameMode::VsFriend);
    assert_eq!(g.status, GameStatus::InProgress);
    assert!(matches!(g.payload, GamePayload::Chess(_)));
    assert_eq!(g.winner, None);
    assert_eq!(g.players, vec!["alice".to_string(), "bob".to_string()]);

    let p = GameState::new_game(
        "g2".to_string(),
        GameType::Poker,
        GameMode::VsFriend,
        vec!["a".to_string(), "b".to_string()],
        vec!["A".to_string(), "B".to_string()],
        5,
        &Timeouts::default(),
    );
    match &p.payload {
        GamePayload::Poker(pg) => {
            assert_eq!(pg.pot, 30);
            assert_eq!(pg.player_chips, vec![990, 980]);
        },
        _ => panic!("wrong payload"),
    }
}

#[test]
fn accepted_chess_move_updates_record_and_clock() {
    let mut g = chess_game(GameMode::VsFriend);
    let action = GameAction::ChessMove { from_square: 12, to_square: 28, promotion: None };
    let (outcome, mutated) = g.apply(&"alice".to_string(), &action, 61_001_000);
    assert_eq!(outcome, GameOutcome::InProgress);
    assert!(mutated);
    assert_eq!(g.updated_at, 61_001_000);
    assert_eq!(g.status, GameStatus::InProgress);
    match &g.payload {
        GamePayload::Chess(b) => {
            assert_eq!(b.move_history.len(), 1);
            assert_eq!(b.active_player, Player::Two);
        },
        _ => panic!("wrong payload"),
    }
    // Seat 0 moved: elapsed 61 s debited, 10 s credited.
    assert_eq!(g.clock.time_left[0], 300_000_000 - 61_000_000 + 10_000_000);
    assert_eq!(g.clock.time_left[1], 300_000_000);
    assert_eq!(g.clock.current_turn_start, 61_001_000);
}

#[test]
fn out_of_turn_move_is_a_noop_and_stays_one_on_resubmission() {
    let mut g = chess_game(GameMode::VsFriend);
    let before = record_fingerprint(&g);
    // Bob moves while it is Alice's turn.
    let action = GameAction::ChessMove { from_square: 52, to_square: 36, promotion: None };
    let (outcome, mutated) = g.apply(&"bob".to_string(), &action, 2_000);
    assert_eq!(outcome, GameOutcome::InProgress);
    assert!(!mutated);
    assert_eq!(record_fingerprint(&g), before);
    // Resubmitting the very same action changes nothing either.
    let (outcome2, mutated2) = g.apply(&"bob".to_string(), &action, 3_000);
    assert_eq!(outcome2, GameOutcome::InProgress);
    assert!(!mutated2);
    assert_eq!(record_fingerprint(&g), before);
}

#[test]
fn foreign_actor_is_rejected() {
    let mut g = chess_game(GameMode::VsFriend);
    let action = GameAction::ChessMove { from_square: 12, to_square: 28, promotion: None };
    let (_, mutated) = g.apply(&"mallory".to_string(), &action, 2_000);
    assert!(!mutated);
}

#[test]
fn vs_bot_accepts_only_seat_zero() {
    let mut g = chess_game(GameMode::VsBot);
    let action = GameAction::Resign;
    let (_, mutated) = g.apply(&"bob".to_string(), &action, 2_000);
    assert!(!mutated);
    let (outcome, mutated) = g.apply(&"alice".to_string(), &action, 2_000);
    assert!(mutated);
    assert_eq!(outcome, GameOutcome::Winner(Player::Two));
}

#[test]
fn resign_completes_with_the_opponent_winning() {
    let mut g = chess_game(GameMode::VsFriend);
    let (outcome, mutated) = g.apply(&"bob".to_string(), &GameAction::Resign, 9_000);
    assert!(mutated);
    assert_eq!(outcome, GameOutcome::Winner(Player::One));
    assert_eq!(g.status, GameStatus::Completed);
    assert_eq!(g.winner, Some(Player::One));
    assert_eq!(g.updated_at, 9_000);
}

#[test]
fn a_completed_game_is_never_mutated_again() {
    let mut g = chess_game(GameMode::VsFriend);
    g.apply(&"bob".to_string(), &GameAction::Resign, 9_000);
    assert_eq!(g.status, GameStatus::Completed);
    let before = record_fingerprint(&g);

    let moves = [
        GameAction::ChessMove { from_square: 12, to_square: 28, promotion: None },
        GameAction::Resign,
        GameAction::OfferDraw,
        GameAction::AcceptDraw,
        GameAction::ClaimTimeout,
    ];
    for action in moves {
        for actor in ["alice", "bob"] {
            let (outcome, mutated) = g.apply(&actor.to_string(), &action, 10_000);
            assert_eq!(outcome, GameOutcome::InProgress);
            assert!(!mutated);
            assert_eq!(record_fingerprint(&g), before);
        }
    }
}

#[test]
fn a_draw_needs_an_offer_from_the_other_seat() {
    let mut g = chess_game(GameMode::VsFriend);
    // Accepting with no offer on the table fails.
    let (_, mutated) = g.apply(&"bob".to_string(), &GameAction::AcceptDraw, 1_500);
    assert!(!mutated);

    let (outcome, mutated) = g.apply(&"alice".to_string(), &GameAction::OfferDraw, 2_000);
    assert!(mutated);
    assert_eq!(outcome, GameOutcome::InProgress);
    assert_eq!(g.draw_offered_by, Some(Player::One));
    assert_eq!(g.status, GameStatus::InProgress);

    // The offering seat cannot accept its own offer.
    let (_, mutated) = g.apply(&"alice".to_string(), &GameAction::AcceptDraw, 2_500);
    assert!(!mutated);

    let (outcome, mutated) = g.apply(&"bob".to_string(), &GameAction::AcceptDraw, 3_000);
    assert!(mutated);
    assert_eq!(outcome, GameOutcome::Draw);
    assert_eq!(g.status, GameStatus::Completed);
    assert_eq!(g.winner, None);
}

#[test]
fn timeout_claim_needs_an_exhausted_opponent() {
    let mut g = chess_game(GameMode::VsFriend);
    // Too early: nobody has timed out.
    let (_, mutated) = g.apply(&"alice".to_string(), &GameAction::ClaimTimeout, 2_000);
    assert!(!mutated);

    // Far past the budget: seat 1 (Bob) has timed out, Alice claims.
    let late = 1_000 + 300_000_001;
    let (outcome, mutated) = g.apply(&"alice".to_string(), &GameAction::ClaimTimeout, late);
    assert!(mutated);
    assert_eq!(outcome, GameOutcome::Winner(Player::One));
    assert_eq!(g.status, GameStatus::TimedOut);
    assert_eq!(g.winner, Some(Player::One));
}

#[test]
fn poker_fold_through_dispatch_completes_the_game() {
    let mut g = GameState::new_game(
        "g3".to_string(),
        GameType::Poker,
        GameMode::VsFriend,
        vec!["alice".to_string(), "bob".to_string()],
        vec!["Alice".to_string(), "Bob".to_string()],
        1_000,
        &Timeouts::default(),
    );
    // Bob cannot act first.
    let fold = GameAction::Poker { action: PokerAction::Fold, amount: None };
    let (_, mutated) = g.apply(&"bob".to_string(), &fold, 2_000);
    assert!(!mutated);

    let (outcome, mutated) = g.apply(&"alice".to_string(), &fold, 2_000);
    assert!(mutated);
    assert_eq!(outcome, GameOutcome::Winner(Player::Two));
    assert_eq!(g.status, GameStatus::Completed);
    assert_eq!(g.winner, Some(Player::Two));
}

#[test]
fn blackjack_dispatch_checks_only_the_turn_flag() {
    let mut g = GameState::new_game(
        "g4".to_string(),
        GameType::Blackjack,
        GameMode::VsFriend,
        vec!["alice".to_string(), "bob".to_string()],
        vec!["Alice".to_string(), "Bob".to_string()],
        1_000,
        &Timeouts::default(),
    );
    // Even an actor holding no seat may act on the hand: only the
    // engine's own turn flag is consulted.
    let hit = GameAction::Blackjack { action: BlackjackAction::Hit };
    let (_, mutated) = g.apply(&"mallory".to_string(), &hit, 2_000);
    assert!(mutated);
}

#[test]
fn is_player_turn_follows_the_active_seat() {
    let mut g = chess_game(GameMode::VsFriend);
    assert!(g.is_player_turn(&"alice".to_string()));
    assert!(!g.is_player_turn(&"bob".to_string()));
    assert!(!g.is_player_turn(&"mallory".to_string()));
    let action = GameAction::ChessMove { from_square: 12, to_square: 28, promotion: None };
    g.apply(&"alice".to_string(), &action, 2_000);
    assert!(!g.is_player_turn(&"alice".to_string()));
    assert!(g.is_player_turn(&"bob".to_string()));
}

#[test]
fn wrong_payload_kind_is_rejected() {
    let mut g = chess_game(GameMode::VsFriend);
    let action = GameAction::Poker { action: PokerAction::Check, amount: None };
    let (_, mutated) = g.apply(&"alice".to_string(), &action, 2_000);
    assert!(!mutated);
}
