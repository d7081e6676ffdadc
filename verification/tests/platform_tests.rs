use game_platform::eth::parse_eth_address;
use game_platform::lobby::{password_digest, GameLobby, LobbyStatus};
use game_platform::profile::{PlayerStats, UserProfile};
use game_platform::types::{GameMode, GameType};

#[test]
fn parse_eth_address_accepts_both_prefixed_and_bare() {
    let bare = "00112233445566778899aabbccddeeff00112233";
    let with_prefix = format!("0x{}", bare);
    let a = parse_eth_address(bare).unwrap();
    let b = parse_eth_address(&with_prefix).unwrap();
    assert_eq!(a, b);
    assert_eq!(a.len(), 20);
    assert_eq!(a[0], 0x00);
    assert_eq!(a[1], 0x11);
    assert_eq!(a[19], 0x33);
}

#[test]
fn parse_eth_address_decodes_exact_bytes() {
    let addr = format!("0x{}{}", "00".repeat(19), "ff");
    let bytes = parse_eth_address(&addr).unwrap();
    assert_eq!(bytes[..19], vec![0u8; 19][..]);
    assert_eq!(bytes[19], 255);

    let upper = "ABCDEF0123456789abcdef0123456789ABCDEF01";
    let v = parse_eth_address(upper).unwrap();
    assert_eq!(v[0], 0xab);
    assert_eq!(v[2], 0xef);
}

#[test]
fn parse_eth_address_rejects_bad_input() {
    assert!(parse_eth_address("").is_none());
    assert!(parse_eth_address("0x1234").is_none());
    assert!(parse_eth_address(&"zz".repeat(20)).is_none());
    // 41 digits
    assert!(parse_eth_address(&"0".repeat(41)).is_none());
    // right length, one bad character
    let mut bad = "0".repeat(39);
    bad.push('g');
    assert!(parse_eth_address(&bad).is_none());
}

#[test]
fn password_digest_matches_the_fold_written_in_hex() {
    let expected = |p: &str| -> String {
        format!(
            "{:x}",
            p.bytes().fold(0u64, |acc, b| acc.wrapping_mul(31).wrapping_add(b as u64))
        )
    };
    for p in ["", "a", "secret", "pa55w0rd!", "a much longer pass phrase"] {
        assert_eq!(password_digest(p), expected(p), "digest of {:?}", p);
    }
}

fn sample_lobby() -> GameLobby {
    GameLobby {
        lobby_id: "l1".to_string(),
        creator: "alice".to_string(),
        creator_name: "Alice".to_string(),
        game_type: GameType::Chess,
        game_mode: GameMode::VsFriend,
        is_public: true,
        password_hash: None,
        status: LobbyStatus::Open,
        time_control: 300,
        created_at: 1_000,
        expires_at: 901_000,
        players: vec!["alice".to_string()],
        game_id: None,
    }
}

#[test]
fn lobby_expiry_is_strict() {
    let lobby = sample_lobby();
    assert!(!lobby.is_expired(901_000));
    assert!(lobby.is_expired(901_001));
}

#[test]
fn lobby_password_check() {
    let mut lobby = sample_lobby();
    assert!(lobby.password_matches(None));

    lobby.password_hash = Some(password_digest("secret"));
    assert!(lobby.password_matches(Some(&"secret".to_string())));
    assert!(!lobby.password_matches(Some(&"wrong".to_string())));
    assert!(!lobby.password_matches(None));
}

#[test]
fn new_profile_starts_at_the_base_rating() {
    let p = UserProfile::new(
        "Player1".to_string(),
        "0x1111111111111111111111111111111111111111".to_string(),
        "".to_string(),
        77,
    );
    assert_eq!(p.username, "Player1");
    assert_eq!(p.chess_elo, 1200);
    assert_eq!(p.created_at, 77);
    assert_eq!(p.last_active, 77);
    assert_eq!(p.total_games, 0);
    assert_eq!(p.current_streak, 0);
}

#[test]
fn stats_track_wins_losses_and_streaks() {
    let mut s = PlayerStats::default();
    s.record_win(GameType::Chess);
    s.record_win(GameType::Chess);
    assert_eq!(s.chess_wins, 2);
    assert_eq!(s.total_games, 2);
    assert_eq!(s.current_streak, 2);
    assert_eq!(s.best_streak, 2);

    s.record_loss(GameType::Poker);
    assert_eq!(s.poker_losses, 1);
    assert_eq!(s.current_streak, -1);
    s.record_loss(GameType::Poker);
    assert_eq!(s.current_streak, -2);
    assert_eq!(s.best_streak, 2);

    s.record_win(GameType::Blackjack);
    assert_eq!(s.blackjack_wins, 1);
    assert_eq!(s.current_streak, 1, "a win after losses restarts the streak at one");

    s.record_draw(GameType::Blackjack);
    assert_eq!(s.blackjack_pushes, 1);
    assert_eq!(s.current_streak, 0);
    assert_eq!(s.total_games, 6);

    s.record_draw(GameType::Poker);
    assert_eq!(s.total_games, 7, "a poker draw counts only toward the total");
}

#[test]
fn elo_updates_with_a_floor() {
    let mut s = PlayerStats::default();
    s.chess_elo = 1200;
    s.update_elo(-50);
    assert_eq!(s.chess_elo, 1150);
    s.update_elo(-2000);
    assert_eq!(s.chess_elo, 100);
    s.update_elo(32);
    assert_eq!(s.chess_elo, 132);
}
