//! Types shared by all three game engines and the dispatcher.

use vstd::prelude::*;

verus! {

/// One of the two fixed positions in a game record.
#[derive(Debug, Clone, Copy, PartialEq, Eq, Structural)]
pub enum Player {
    One,
    Two,
}

impl Player {
    /// The opposing seat.
    pub open spec fn spec_other(self) -> Player {
        match self {
            Player::One => Player::Two,
            Player::Two => Player::One,
        }
    }

    /// The seat's index into per-seat arrays: seat one is 0, seat two is 1.
    pub open spec fn spec_index(self) -> int {
        match self {
            Player::One => 0,
            Player::Two => 1,
        }
    }

    #[verifier::when_used_as_spec(spec_other)]
    pub fn other(self) -> (r: Player)
        ensures
            r == self.spec_other(),
    {
        match self {
            Player::One => Player::Two,
            Player::Two => Player::One,
        }
    }

    pub fn index(&self) -> (r: usize)
        ensures
            r == self.spec_index(),
            r < 2,
    {
        match self {
            Player::One => 0,
            Player::Two => 1,
        }
    }
}

/// Which engine a game record runs.
#[derive(Debug, Clone, Copy, PartialEq, Eq, Structural)]
pub enum GameType {
    Chess,
    Poker,
    Blackjack,
}

/// Who occupies the second seat.
#[derive(Debug, Clone, Copy, PartialEq, Eq, Structural)]
pub enum GameMode {
    VsBot,
    VsFriend,
    Local,
}

/// Lifecycle of a game record; every status but `InProgress` is terminal.
#[derive(Debug, Clone, Copy, PartialEq, Eq, Structural)]
pub enum GameStatus {
    WaitingForOpponent,
    InProgress,
    Completed,
    Cancelled,
    TimedOut,
}

/// The result of applying an action: either the game ended with a winning
/// seat or a draw, or it continues.  Rejected actions also report
/// `InProgress`, leaving the record untouched.
#[derive(Debug, Clone, Copy, PartialEq, Eq, Structural)]
pub enum GameOutcome {
    Winner(Player),
    Draw,
    InProgress,
}

/// A playing card; ranks run 2 through 14 (11 = jack, 12 = queen, 13 = king,
/// 14 = ace).
#[derive(Debug, Clone, Copy, PartialEq, Eq, Structural)]
pub struct Card {
    pub rank: u8,
    pub suit: Suit,
}

#[derive(Debug, Clone, Copy, PartialEq, Eq, Structural)]
pub enum Suit {
    Hearts,
    Diamonds,
    Clubs,
    Spades,
}

impl Card {
    /// A deck card: rank within 2..=14.
    pub open spec fn valid(self) -> bool {
        2 <= self.rank <= 14
    }
}

} // verus!
