//! User profiles and per-player statistics.
//!
//! The win/loss/draw bookkeeping keeps, per game kind, simple counters
//! plus a signed streak: positive while winning, negative while losing,
//! reset by a draw, with the best winning streak remembered.

use vstd::prelude::*;
use crate::types::{GameMode, GameStatus, GameType, Player};

verus! {

#[derive(Debug, Clone)]
pub struct UserProfile {
    pub username: String,
    pub eth_address: String,
    pub avatar_url: String,
    pub created_at: u64,
    pub last_active: u64,
    pub chess_wins: u32,
    pub chess_losses: u32,
    pub chess_draws: u32,
    pub chess_elo: u32,
    pub poker_wins: u32,
    pub poker_losses: u32,
    pub poker_chips_won: i64,
    pub blackjack_wins: u32,
    pub blackjack_losses: u32,
    pub blackjack_pushes: u32,
    pub total_games: u32,
    pub current_streak: i32,
    pub best_streak: u32,
}

pub const STARTING_ELO: u32 = 1200;

impl UserProfile {
    /// A fresh profile: no games played, the starting rating.
    pub fn new(username: String, eth_address: String, avatar_url: String, timestamp: u64) -> (p:
        UserProfile)
        ensures
            p.username@ == username@,
            p.eth_address@ == eth_address@,
            p.avatar_url@ == avatar_url@,
            p.created_at == timestamp,
            p.last_active == timestamp,
            p.chess_elo == STARTING_ELO,
            p.chess_wins == 0 && p.chess_losses == 0 && p.chess_draws == 0,
            p.poker_wins == 0 && p.poker_losses == 0 && p.poker_chips_won == 0,
            p.blackjack_wins == 0 && p.blackjack_losses == 0 && p.blackjack_pushes == 0,
            p.total_games == 0 && p.current_streak == 0 && p.best_streak == 0,
    {
        UserProfile {
            username,
            eth_address,
            avatar_url,
            created_at: timestamp,
            last_active: timestamp,
            chess_wins: 0,
            chess_losses: 0,
            chess_draws: 0,
            chess_elo: STARTING_ELO,
            poker_wins: 0,
            poker_losses: 0,
            poker_chips_won: 0,
            blackjack_wins: 0,
            blackjack_losses: 0,
            blackjack_pushes: 0,
            total_games: 0,
            current_streak: 0,
            best_streak: 0,
        }
    }
}

#[derive(Debug, Clone, Copy, PartialEq, Eq, Structural)]
pub struct PlayerStats {
    pub chess_wins: u32,
    pub chess_losses: u32,
    pub chess_draws: u32,
    pub chess_elo: u32,
    pub poker_wins: u32,
    pub poker_losses: u32,
    pub poker_chips_won: i64,
    pub blackjack_wins: u32,
    pub blackjack_losses: u32,
    pub blackjack_pushes: u32,
    pub total_games: u32,
    pub current_streak: i32,
    pub best_streak: u32,
}

impl Default for PlayerStats {
    /// All counters at zero.
    fn default() -> (s: PlayerStats)
        ensures
            s == (PlayerStats {
                chess_wins: 0,
                chess_losses: 0,
                chess_draws: 0,
                chess_elo: 0,
                poker_wins: 0,
                poker_losses: 0,
                poker_chips_won: 0,
                blackjack_wins: 0,
                blackjack_losses: 0,
                blackjack_pushes: 0,
                total_games: 0,
                current_streak: 0,
                best_streak: 0,
            }),
    {
        PlayerStats {
            chess_wins: 0,
            chess_losses: 0,
            chess_draws: 0,
            chess_elo: 0,
            poker_wins: 0,
            poker_losses: 0,
            poker_chips_won: 0,
            blackjack_wins: 0,
            blackjack_losses: 0,
            blackjack_pushes: 0,
            total_games: 0,
            current_streak: 0,
            best_streak: 0,
        }
    }
}

impl PlayerStats {
    /// Records a win: the matching counter and the game total go up, a
    /// winning streak extends (a losing one restarts at one), and the
    /// best streak follows.
    pub fn record_win(&mut self, game_type: GameType)
        requires
            old(self).total_games < u32::MAX,
            old(self).current_streak < i32::MAX,
            game_type == GameType::Chess ==> old(self).chess_wins < u32::MAX,
            game_type == GameType::Poker ==> old(self).poker_wins < u32::MAX,
            game_type == GameType::Blackjack ==> old(self).blackjack_wins < u32::MAX,
        ensures
            final(self).chess_wins == old(self).chess_wins + if game_type == GameType::Chess {
                1int
            } else {
                0int
            },
            final(self).poker_wins == old(self).poker_wins + if game_type == GameType::Poker {
                1int
            } else {
                0int
            },
            final(self).blackjack_wins == old(self).blackjack_wins + if game_type
                == GameType::Blackjack {
                1int
            } else {
                0int
            },
            final(self).total_games == old(self).total_games + 1,
            final(self).current_streak == if old(self).current_streak >= 0 {
                old(self).current_streak + 1
            } else {
                1int
            },
            final(self).best_streak == if final(self).current_streak > old(self).best_streak {
                final(self).current_streak as int
            } else {
                old(self).best_streak as int
            },
            *final(self) == (PlayerStats {
                chess_wins: final(self).chess_wins,
                poker_wins: final(self).poker_wins,
                blackjack_wins: final(self).blackjack_wins,
                total_games: final(self).total_games,
                current_streak: final(self).current_streak,
                best_streak: final(self).best_streak,
                ..*old(self)
            }),
    {
        match game_type {
            GameType::Chess => {
                self.chess_wins = self.chess_wins + 1;
            },
            GameType::Poker => {
                self.poker_wins = self.poker_wins + 1;
            },
            GameType::Blackjack => {
                self.blackjack_wins = self.blackjack_wins + 1;
            },
        }
        self.total_games = self.total_games + 1;

        if self.current_streak >= 0 {
            self.current_streak = self.current_streak + 1;
        } else {
            self.current_streak = 1;
        }

        if self.current_streak > 0 && self.current_streak as u32 > self.best_streak {
            self.best_streak = self.current_streak as u32;
        }
    }

    /// Records a loss: the matching counter and the game total go up, a
    /// losing streak extends (a winning one restarts at minus one).
    pub fn record_loss(&mut self, game_type: GameType)
        requires
            old(self).total_games < u32::MAX,
            old(self).current_streak > i32::MIN,
            game_type == GameType::Chess ==> old(self).chess_losses < u32::MAX,
            game_type == GameType::Poker ==> old(self).poker_losses < u32::MAX,
            game_type == GameType::Blackjack ==> old(self).blackjack_losses < u32::MAX,
        ensures
            final(self).chess_losses == old(self).chess_losses + if game_type == GameType::Chess {
                1int
            } else {
                0int
            },
            final(self).poker_losses == old(self).poker_losses + if game_type == GameType::Poker {
                1int
            } else {
                0int
            },
            final(self).blackjack_losses == old(self).blackjack_losses + if game_type
                == GameType::Blackjack {
                1int
            } else {
                0int
            },
            final(self).total_games == old(self).total_games + 1,
            final(self).current_streak == if old(self).current_streak <= 0 {
                old(self).current_streak - 1
            } else {
                -1int
            },
            *final(self) == (PlayerStats {
                chess_losses: final(self).chess_losses,
                poker_losses: final(self).poker_losses,
                blackjack_losses: final(self).blackjack_losses,
                total_games: final(self).total_games,
                current_streak: final(self).current_streak,
                ..*old(self)
            }),
    {
        match game_type {
            GameType::Chess => {
                self.chess_losses = self.chess_losses + 1;
            },
            GameType::Poker => {
                self.poker_losses = self.poker_losses + 1;
            },
            GameType::Blackjack => {
                self.blackjack_losses = self.blackjack_losses + 1;
            },
        }
        self.total_games = self.total_games + 1;

        if self.current_streak <= 0 {
            self.current_streak = self.current_streak - 1;
        } else {
            self.current_streak = -1;
        }
    }

    /// Records a draw: chess draws and blackjack pushes are counted
    /// (poker records nothing game-specific), the game total goes up,
    /// and any streak resets.
    pub fn record_draw(&mut self, game_type: GameType)
        requires
            old(self).total_games < u32::MAX,
            game_type == GameType::Chess ==> old(self).chess_draws < u32::MAX,
            game_type == GameType::Blackjack ==> old(self).blackjack_pushes < u32::MAX,
        ensures
            final(self).chess_draws == old(self).chess_draws + if game_type == GameType::Chess {
                1int
            } else {
                0int
            },
            final(self).blackjack_pushes == old(self).blackjack_pushes + if game_type
                == GameType::Blackjack {
                1int
            } else {
                0int
            },
            final(self).total_games == old(self).total_games + 1,
            final(self).current_streak == 0,
            *final(self) == (PlayerStats {
                chess_draws: final(self).chess_draws,
                blackjack_pushes: final(self).blackjack_pushes,
                total_games: final(self).total_games,
                current_streak: 0,
                ..*old(self)
            }),
    {
        match game_type {
            GameType::Chess => {
                self.chess_draws = self.chess_draws + 1;
            },
            GameType::Poker => {},
            GameType::Blackjack => {
                self.blackjack_pushes = self.blackjack_pushes + 1;
            },
        }
        self.total_games = self.total_games + 1;
        self.current_streak = 0;
    }

    /// Moves the chess rating by `delta`, never below the floor of 100.
    pub fn update_elo(&mut self, delta: i32)
        requires
            old(self).chess_elo <= i32::MAX,
            old(self).chess_elo + delta <= i32::MAX,
            old(self).chess_elo + delta >= i32::MIN,
        ensures
            final(self).chess_elo == if old(self).chess_elo + delta < 100 {
                100int
            } else {
                old(self).chess_elo + delta
            },
            *final(self) == (PlayerStats { chess_elo: final(self).chess_elo, ..*old(self) }),
    {
        let moved = self.chess_elo as i32 + delta;
        if moved < 100 {
            self.chess_elo = 100;
        } else {
            self.chess_elo = moved as u32;
        }
    }
}

/// A per-viewer summary of one game record.
#[derive(Debug, Clone)]
pub struct GameInfo {
    pub game_id: String,
    pub game_type: GameType,
    pub game_mode: GameMode,
    pub opponent: String,
    pub opponent_name: String,
    pub status: GameStatus,
    pub created_at: u64,
    pub updated_at: u64,
    pub winner: Option<Player>,
}

} // verus!
