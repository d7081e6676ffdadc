//! Rules engine for a two-seat turn-based gaming platform.
//!
//! Three game engines (chess, heads-up poker, blackjack) are driven through a
//! single dispatcher that owns the game record, enforces seat ownership and
//! turn order, and decides when a game has ended.  Every state transition is
//! applied synchronously from one action plus a caller-supplied timestamp.

pub mod blackjack;
pub mod chess;
pub mod clock;
pub mod deck;
pub mod dispatch;
pub mod eth;
pub mod lobby;
pub mod poker;
pub mod profile;
pub mod text;
pub mod types;
