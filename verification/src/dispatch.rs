//! The game record and the dispatcher.
//!
//! A `GameState` owns everything about one game: the two seats, the
//! status, the clock, and exactly one engine payload matching the game
//! kind.  Every inbound action goes through [`GameState::apply`], which
//! enforces status, seat ownership and turn order, delegates to the
//! engine, and finalizes the record when the engine reports a terminal
//! outcome.  Every rejected action — whatever the reason — leaves the
//! record untouched and reports `InProgress`; the second component of the
//! result says whether anything changed.

use vstd::prelude::*;
use crate::blackjack::{spec_bj_rejected, spec_bj_step, BlackjackAction, BlackjackGame};
use crate::chess::{spec_move_applied, spec_move_rejected, spec_outcome_after, ChessBoard,
    PieceType};
use crate::clock::{spec_budget_after_move, spec_time_left, spec_timed_out, Clock, Timeouts};
use crate::poker::{spec_action_rejected, spec_active_idx, spec_fold_applied, spec_poker_applied,
    spec_showdown_outcome, PokerAction, PokerGame, PokerStage};
use crate::types::{GameMode, GameOutcome, GameStatus, GameType, Player};

verus! {

/// The engine state of a game: exactly one engine, keyed by the game
/// kind.
#[derive(Debug, Clone)]
pub enum GamePayload {
    Chess(ChessBoard),
    Poker(PokerGame),
    Blackjack(BlackjackGame),
}

impl GamePayload {
    /// The game kind this payload belongs to.
    pub open spec fn kind(self) -> GameType {
        match self {
            GamePayload::Chess(_) => GameType::Chess,
            GamePayload::Poker(_) => GameType::Poker,
            GamePayload::Blackjack(_) => GameType::Blackjack,
        }
    }
}

/// One inbound action: an engine move, or one of the game-agnostic
/// controls.
#[derive(Debug, Clone)]
pub enum GameAction {
    ChessMove { from_square: u8, to_square: u8, promotion: Option<PieceType> },
    Poker { action: PokerAction, amount: Option<u64> },
    Blackjack { action: BlackjackAction },
    Resign,
    OfferDraw,
    AcceptDraw,
    ClaimTimeout,
}

/// One game record.
#[derive(Debug, Clone)]
pub struct GameState {
    pub game_id: String,
    pub game_type: GameType,
    pub game_mode: GameMode,
    pub status: GameStatus,
    pub players: Vec<String>,
    pub player_names: Vec<String>,
    pub created_at: u64,
    pub updated_at: u64,
    pub winner: Option<Player>,
    pub clock: Clock,
    pub draw_offered_by: Option<Player>,
    pub payload: GamePayload,
}

/// The seat at index `i`.
pub open spec fn spec_seat_player(i: int) -> Player {
    if i == 0 {
        Player::One
    } else {
        Player::Two
    }
}

/// Which seat `actor` occupies, if any.  Against a bot only seat 0 may
/// act; otherwise the actor must hold one of the two seats (the first
/// matching seat counts).
pub open spec fn spec_seat_of(g: GameState, actor: Seq<char>) -> Option<int> {
    if g.game_mode == GameMode::VsBot {
        if g.players@[0]@ == actor {
            Some(0int)
        } else {
            None
        }
    } else {
        if g.players@[0]@ == actor {
            Some(0int)
        } else if g.players@[1]@ == actor {
            Some(1int)
        } else {
            None
        }
    }
}

/// Why an action bounces off the record unapplied: a finished game, an
/// actor without a seat, a payload of the wrong kind, a move out of turn,
/// or the engine's own refusal.  The chess arm also refuses a counter at
/// the edge of its machine range, where applying the move could not be
/// recorded faithfully.
pub open spec fn spec_apply_rejected(
    g: GameState,
    actor: Seq<char>,
    action: GameAction,
    now: u64,
) -> bool {
    ||| g.status != GameStatus::InProgress
    ||| match action {
        GameAction::ChessMove { from_square, to_square, promotion } => {
            ||| spec_seat_of(g, actor) is None
            ||| !(g.payload is Chess)
            ||| g.payload->Chess_0.active_player.spec_index() != spec_seat_of(g, actor)->Some_0
            ||| g.payload->Chess_0.fullmove_number >= u16::MAX - 1
            ||| spec_move_rejected(g.payload->Chess_0, from_square as int, to_square as int)
        },
        GameAction::Poker { action: pa, amount } => {
            ||| spec_seat_of(g, actor) is None
            ||| !(g.payload is Poker)
            ||| spec_active_idx(g.payload->Poker_0) != spec_seat_of(g, actor)->Some_0
            ||| spec_action_rejected(g.payload->Poker_0, pa, amount)
        },
        GameAction::Blackjack { action: ba } => {
            ||| !(g.payload is Blackjack)
            ||| spec_bj_rejected(g.payload->Blackjack_0, ba)
        },
        GameAction::Resign => spec_seat_of(g, actor) is None,
        GameAction::OfferDraw => spec_seat_of(g, actor) is None,
        GameAction::AcceptDraw => {
            ||| spec_seat_of(g, actor) is None
            ||| g.draw_offered_by is None
            ||| g.draw_offered_by == Some(spec_seat_player(spec_seat_of(g, actor)->Some_0))
        },
        GameAction::ClaimTimeout => {
            ||| spec_seat_of(g, actor) is None
            ||| !spec_timed_out(
                g.clock,
                now,
                spec_seat_player(spec_seat_of(g, actor)->Some_0).spec_other(),
            )
        },
    }
}

/// Which seat `actor` occupies by plain position, ignoring the game
/// mode.  This is how the query surface resolves a viewer.
pub open spec fn spec_position_of(g: GameState, actor: Seq<char>) -> Option<int> {
    if g.players@[0]@ == actor {
        Some(0int)
    } else if g.players@[1]@ == actor {
        Some(1int)
    } else {
        None
    }
}

/// The record fields outside the payload, clock, status, winner,
/// timestamps and draw offer never change under dispatch.
pub open spec fn spec_identity_kept(pre: GameState, post: GameState) -> bool {
    &&& post.game_id == pre.game_id
    &&& post.game_type == pre.game_type
    &&& post.game_mode == pre.game_mode
    &&& post.players@ == pre.players@
    &&& post.player_names@ == pre.player_names@
    &&& post.created_at == pre.created_at
}

impl GameState {
    /// Structural soundness: two seats, and a payload that matches the
    /// game kind and is itself sound.  A running chess game's counters
    /// sit below their machine range so the next move can be recorded.
    pub open spec fn wf(self) -> bool {
        &&& self.players@.len() == 2
        &&& self.player_names@.len() == 2
        &&& self.payload.kind() == self.game_type
        &&& match self.payload {
            GamePayload::Chess(b) => b.wf() && (self.status == GameStatus::InProgress
                ==> b.halfmove_clock < u16::MAX && b.fullmove_number < u16::MAX),
            GamePayload::Poker(p) => p.wf(),
            GamePayload::Blackjack(b) => b.wf(),
        }
    }

    /// Which seat `actor` occupies, if any.
    pub fn seat_of(&self, actor: &String) -> (r: Option<usize>)
        requires
            self.wf(),
        ensures
            match r {
                Some(s) => s < 2 && spec_seat_of(*self, actor@) == Some(s as int),
                None => spec_seat_of(*self, actor@) is None,
            },
    {
        match self.game_mode {
            GameMode::VsBot => {
                if self.players[0] == *actor {
                    Some(0)
                } else {
                    None
                }
            },
            _ => {
                if self.players[0] == *actor {
                    Some(0)
                } else if self.players[1] == *actor {
                    Some(1)
                } else {
                    None
                }
            },
        }
    }

    /// Applies one action on behalf of `actor` at time `now`.
    ///
    /// The result carries the outcome and whether the record changed: a
    /// rejected action — finished game, foreign actor, wrong turn, or an
    /// engine refusal — reports `InProgress` and changes nothing, so
    /// resubmitting it changes nothing either.  A terminal outcome
    /// freezes the record: the status leaves `InProgress` for good, and
    /// then either the winner is set or the outcome was this draw.
    #[verifier::rlimit(100)]
    pub fn apply(&mut self, actor: &String, action: &GameAction, now: u64) -> (r: (
        GameOutcome,
        bool,
    ))
        requires
            old(self).wf(),
        ensures
            final(self).wf(),
            r.1 == !spec_apply_rejected(*old(self), actor@, *action, now),
            spec_apply_rejected(*old(self), actor@, *action, now) ==> *final(self) == *old(self)
                && r.0 == GameOutcome::InProgress,
            old(self).status != GameStatus::InProgress ==> *final(self) == *old(self),
            r.1 ==> spec_identity_kept(*old(self), *final(self)),
            r.1 && final(self).status != GameStatus::InProgress ==> (final(self).winner is Some
                || r.0 == GameOutcome::Draw),
            r.1 ==> (final(self).status == GameStatus::InProgress || final(self).status
                == GameStatus::Completed || final(self).status == GameStatus::TimedOut),
            r.1 ==> ({
                let pre = *old(self);
                let post = *final(self);
                let seat = spec_seat_of(pre, actor@);
                match *action {
                    GameAction::ChessMove { from_square, to_square, promotion } => {
                        &&& post.payload is Chess
                        &&& spec_move_applied(
                            pre.payload->Chess_0,
                            post.payload->Chess_0,
                            from_square as int,
                            to_square as int,
                            promotion,
                            now,
                        )
                        &&& r.0 == spec_outcome_after(post.payload->Chess_0)
                        &&& post.updated_at == now
                        &&& spec_time_left(post.clock, spec_seat_player(seat->Some_0))
                            == spec_budget_after_move(
                            pre.clock,
                            now,
                            spec_seat_player(seat->Some_0),
                        )
                        &&& spec_time_left(
                            post.clock,
                            spec_seat_player(seat->Some_0).spec_other(),
                        ) == spec_time_left(pre.clock, spec_seat_player(seat->Some_0).spec_other())
                        &&& post.clock.current_turn_start == now
                        &&& post.draw_offered_by == pre.draw_offered_by
                        &&& (match r.0 {
                            GameOutcome::Winner(w) => post.status == GameStatus::Completed
                                && post.winner == Some(w),
                            GameOutcome::Draw => post.status == GameStatus::Completed
                                && post.winner == pre.winner,
                            GameOutcome::InProgress => post.status == pre.status && post.winner
                                == pre.winner,
                        })
                    },
                    GameAction::Poker { action: pa, amount } => {
                        &&& post.payload is Poker
                        &&& (if pa == PokerAction::Fold {
                            spec_fold_applied(pre.payload->Poker_0, post.payload->Poker_0, now)
                                && r.0 == GameOutcome::Winner(
                                pre.payload->Poker_0.active_player.spec_other(),
                            )
                        } else {
                            spec_poker_applied(
                                pre.payload->Poker_0,
                                post.payload->Poker_0,
                                pa,
                                amount,
                                now,
                            ) && r.0 == (if post.payload->Poker_0.stage == PokerStage::Showdown {
                                spec_showdown_outcome(post.payload->Poker_0)
                            } else {
                                GameOutcome::InProgress
                            })
                        })
                        &&& post.updated_at == now
                        &&& post.clock == pre.clock
                        &&& post.draw_offered_by == pre.draw_offered_by
                        &&& (match r.0 {
                            GameOutcome::Winner(w) => post.status == GameStatus::Completed
                                && post.winner == Some(w),
                            GameOutcome::Draw => post.status == GameStatus::Completed
                                && post.winner == pre.winner,
                            GameOutcome::InProgress => post.status == pre.status && post.winner
                                == pre.winner,
                        })
                    },
                    GameAction::Blackjack { action: ba } => {
                        &&& post.payload is Blackjack
                        &&& spec_bj_step(
                            pre.payload->Blackjack_0,
                            post.payload->Blackjack_0,
                            ba,
                            r.0,
                        )
                        &&& post.updated_at == now
                        &&& post.clock == pre.clock
                        &&& post.draw_offered_by == pre.draw_offered_by
                        &&& (match r.0 {
                            GameOutcome::Winner(w) => post.status == GameStatus::Completed
                                && post.winner == Some(w),
                            GameOutcome::Draw => post.status == GameStatus::Completed
                                && post.winner == pre.winner,
                            GameOutcome::InProgress => post.status == pre.status && post.winner
                                == pre.winner,
                        })
                    },
                    GameAction::Resign => {
                        &&& post.status == GameStatus::Completed
                        &&& post.winner == Some(spec_seat_player(seat->Some_0).spec_other())
                        &&& post.updated_at == now
                        &&& r.0 == GameOutcome::Winner(spec_seat_player(seat->Some_0).spec_other())
                        &&& post == (GameState {
                            status: post.status,
                            winner: post.winner,
                            updated_at: post.updated_at,
                            ..pre
                        })
                    },
                    GameAction::OfferDraw => {
                        &&& post.draw_offered_by == Some(spec_seat_player(seat->Some_0))
                        &&& post.updated_at == now
                        &&& r.0 == GameOutcome::InProgress
                        &&& post == (GameState {
                            draw_offered_by: post.draw_offered_by,
                            updated_at: post.updated_at,
                            ..pre
                        })
                    },
                    GameAction::AcceptDraw => {
                        &&& post.status == GameStatus::Completed
                        &&& post.updated_at == now
                        &&& r.0 == GameOutcome::Draw
                        &&& post == (GameState {
                            status: post.status,
                            updated_at: post.updated_at,
                            ..pre
                        })
                    },
                    GameAction::ClaimTimeout => {
                        &&& post.status == GameStatus::TimedOut
                        &&& post.winner == Some(spec_seat_player(seat->Some_0))
                        &&& post.updated_at == now
                        &&& r.0 == GameOutcome::Winner(spec_seat_player(seat->Some_0))
                        &&& post == (GameState {
                            status: post.status,
                            winner: post.winner,
                            updated_at: post.updated_at,
                            ..pre
                        })
                    },
                }
            }),
    {
        if !(matches!(self.status, GameStatus::InProgress)) {
            return (GameOutcome::InProgress, false);
        }

        match action {
            GameAction::ChessMove { from_square, to_square, promotion } => {
                let seat = match self.seat_of(actor) {
                    Some(s) => s,
                    None => {
                        return (GameOutcome::InProgress, false);
                    },
                };
                let outcome = match &mut self.payload {
                    GamePayload::Chess(board) => {
                        if board.active_player.index() != seat {
                            return (GameOutcome::InProgress, false);
                        }
                        // A counter at the edge of its machine range
                        // could not record one more move.
                        if board.fullmove_number >= u16::MAX - 1 {
                            return (GameOutcome::InProgress, false);
                        }
                        match board.make_move(*from_square, *to_square, *promotion, now) {
                            Ok(o) => o,
                            Err(_) => {
                                return (GameOutcome::InProgress, false);
                            },
                        }
                    },
                    _ => {
                        return (GameOutcome::InProgress, false);
                    },
                };
                self.updated_at = now;
                let player = if seat == 0 {
                    Player::One
                } else {
                    Player::Two
                };
                self.clock.make_move(now, player);
                match outcome {
                    GameOutcome::Winner(w) => {
                        self.status = GameStatus::Completed;
                        self.winner = Some(w);
                    },
                    GameOutcome::Draw => {
                        self.status = GameStatus::Completed;
                    },
                    GameOutcome::InProgress => {},
                }
                (outcome, true)
            },
            GameAction::Poker { action: pa, amount } => {
                let seat = match self.seat_of(actor) {
                    Some(s) => s,
                    None => {
                        return (GameOutcome::InProgress, false);
                    },
                };
                let outcome = match &mut self.payload {
                    GamePayload::Poker(poker) => {
                        if poker.active_player.index() != seat {
                            return (GameOutcome::InProgress, false);
                        }
                        match poker.make_action(*pa, *amount, now) {
                            Ok(o) => o,
                            Err(_) => {
                                return (GameOutcome::InProgress, false);
                            },
                        }
                    },
                    _ => {
                        return (GameOutcome::InProgress, false);
                    },
                };
                self.updated_at = now;
                match outcome {
                    GameOutcome::Winner(w) => {
                        self.status = GameStatus::Completed;
                        self.winner = Some(w);
                    },
                    GameOutcome::Draw => {
                        self.status = GameStatus::Completed;
                    },
                    GameOutcome::InProgress => {},
                }
                (outcome, true)
            },
            GameAction::Blackjack { action: ba } => {
                // The engine checks only its own turn flag here: which
                // authenticated actor acts on the hand is not
                // cross-checked against the seats.
                let outcome = match &mut self.payload {
                    GamePayload::Blackjack(blackjack) => {
                        match blackjack.make_action(*ba) {
                            Ok(o) => o,
                            Err(_) => {
                                return (GameOutcome::InProgress, false);
                            },
                        }
                    },
                    _ => {
                        return (GameOutcome::InProgress, false);
                    },
                };
                self.updated_at = now;
                match outcome {
                    GameOutcome::Winner(w) => {
                        self.status = GameStatus::Completed;
                        self.winner = Some(w);
                    },
                    GameOutcome::Draw => {
                        self.status = GameStatus::Completed;
                    },
                    GameOutcome::InProgress => {},
                }
                (outcome, true)
            },
            GameAction::Resign => {
                let seat = match self.seat_of(actor) {
                    Some(s) => s,
                    None => {
                        return (GameOutcome::InProgress, false);
                    },
                };
                let winner = if seat == 0 {
                    Player::Two
                } else {
                    Player::One
                };
                self.status = GameStatus::Completed;
                self.winner = Some(winner);
                self.updated_at = now;
                (GameOutcome::Winner(winner), true)
            },
            GameAction::OfferDraw => {
                let seat = match self.seat_of(actor) {
                    Some(s) => s,
                    None => {
                        return (GameOutcome::InProgress, false);
                    },
                };
                let player = if seat == 0 {
                    Player::One
                } else {
                    Player::Two
                };
                self.draw_offered_by = Some(player);
                self.updated_at = now;
                (GameOutcome::InProgress, true)
            },
            GameAction::AcceptDraw => {
                let seat = match self.seat_of(actor) {
                    Some(s) => s,
                    None => {
                        return (GameOutcome::InProgress, false);
                    },
                };
                if self.draw_offered_by.is_none() {
                    return (GameOutcome::InProgress, false);
                }
                let player = if seat == 0 {
                    Player::One
                } else {
                    Player::Two
                };
                if self.draw_offered_by == Some(player) {
                    return (GameOutcome::InProgress, false);
                }
                self.status = GameStatus::Completed;
                self.updated_at = now;
                (GameOutcome::Draw, true)
            },
            GameAction::ClaimTimeout => {
                let seat = match self.seat_of(actor) {
                    Some(s) => s,
                    None => {
                        return (GameOutcome::InProgress, false);
                    },
                };
                let player = if seat == 0 {
                    Player::One
                } else {
                    Player::Two
                };
                let opponent = player.other();
                if !self.clock.timed_out(now, opponent) {
                    return (GameOutcome::InProgress, false);
                }
                self.status = GameStatus::TimedOut;
                self.winner = Some(player);
                self.updated_at = now;
                (GameOutcome::Winner(player), true)
            },
        }
    }

    /// Whether it is `actor`'s move: the seat they occupy must be the
    /// engine's active seat.  For blackjack the engine only knows one
    /// player, so any occupant of seat 0 is asked while the hand is
    /// being played.
    pub fn is_player_turn(&self, actor: &String) -> (r: bool)
        requires
            self.wf(),
        ensures
            r == match spec_position_of(*self, actor@) {
                None => false,
                Some(i) => match self.payload {
                    GamePayload::Chess(b) => i == b.active_player.spec_index(),
                    GamePayload::Poker(p) => i == p.active_player.spec_index(),
                    GamePayload::Blackjack(b) => b.is_player_turn && i == 0,
                },
            },
    {
        let seat: usize = if self.players[0] == *actor {
            0
        } else if self.players[1] == *actor {
            1
        } else {
            return false;
        };
        match &self.payload {
            GamePayload::Chess(board) => board.active_player.index() == seat,
            GamePayload::Poker(poker) => poker.active_player.index() == seat,
            GamePayload::Blackjack(blackjack) => blackjack.is_player_turn && seat == 0,
        }
    }

    /// A fresh record for a matched pair of seats: the payload is the
    /// matching engine's starting state, seeded from the start time.
    pub fn new_game(
        game_id: String,
        game_type: GameType,
        game_mode: GameMode,
        players: Vec<String>,
        player_names: Vec<String>,
        now: u64,
        timeouts: &Timeouts,
    ) -> (g: GameState)
        requires
            players@.len() == 2,
            player_names@.len() == 2,
        ensures
            g.wf(),
            g.game_id == game_id,
            g.game_type == game_type,
            g.game_mode == game_mode,
            g.status == GameStatus::InProgress,
            g.players@ == players@,
            g.player_names@ == player_names@,
            g.created_at == now,
            g.updated_at == now,
            g.winner is None,
            g.draw_offered_by is None,
            g.clock.current_turn_start == now,
            g.clock.time_left[0] == timeouts.start_time,
            g.clock.time_left[1] == timeouts.start_time,
    {
        let clock = Clock::new(now, timeouts);
        let payload = match game_type {
            GameType::Chess => GamePayload::Chess(ChessBoard::new()),
            GameType::Poker => GamePayload::Poker(PokerGame::new(1000, 10, 20, now)),
            GameType::Blackjack => GamePayload::Blackjack(BlackjackGame::new(100, 1000, now)),
        };
        GameState {
            game_id,
            game_type,
            game_mode,
            status: GameStatus::InProgress,
            players,
            player_names,
            created_at: now,
            updated_at: now,
            winner: None,
            clock,
            draw_offered_by: None,
            payload,
        }
    }
}

/// A finished record never moves again: every action on a record whose
/// status is no longer `InProgress` is rejected, and by `apply`'s
/// contract a rejected action leaves the record exactly as it was.
pub proof fn lemma_terminal_is_frozen(g: GameState, actor: Seq<char>, action: GameAction, now: u64)
    requires
        g.status != GameStatus::InProgress,
    ensures
        spec_apply_rejected(g, actor, action, now),
{
}

/// Failure is idempotent: a rejected action leaves the record unchanged,
/// and on the unchanged record the very same action is rejected again —
/// so resubmitting it never changes the record either.
pub proof fn lemma_rejection_stable(
    g: GameState,
    g_after: GameState,
    actor: Seq<char>,
    action: GameAction,
    now: u64,
)
    requires
        spec_apply_rejected(g, actor, action, now),
        g_after == g,
    ensures
        spec_apply_rejected(g_after, actor, action, now),
{
}

} // verus!
