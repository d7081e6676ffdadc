//! The per-game turn clock.
//!
//! All times are in microseconds.  Each seat has a remaining think-time
//! budget; a move debits the mover's budget by the time elapsed since the
//! turn started and credits the fixed increment.  When the elapsed time
//! already exceeds the budget, the deduction is skipped and the budget is
//! left untouched — the move itself is not rejected; ending such a game is
//! the timeout claim's job.

use vstd::prelude::*;
use crate::types::Player;

verus! {

/// Clock configuration handed in when a game is created: initial budget per
/// seat, per-move increment, and the settlement delay allowed per block.
#[derive(Debug, Clone, Copy, PartialEq, Eq, Structural)]
pub struct Timeouts {
    /// Initial think-time budget of each seat, in microseconds.
    pub start_time: u64,
    /// Credit added to the mover's budget on each accepted move.
    pub increment: u64,
    /// Settlement delay granted per block.
    pub block_delay: u64,
}

pub const DEFAULT_START_TIME_MICROS: u64 = 300_000_000;

pub const DEFAULT_INCREMENT_MICROS: u64 = 10_000_000;

pub const DEFAULT_BLOCK_DELAY_MICROS: u64 = 5_000_000;

impl Default for Timeouts {
    /// Five minutes per seat, ten seconds of increment, five seconds of
    /// block delay.
    fn default() -> (r: Timeouts)
        ensures
            r == (Timeouts {
                start_time: DEFAULT_START_TIME_MICROS,
                increment: DEFAULT_INCREMENT_MICROS,
                block_delay: DEFAULT_BLOCK_DELAY_MICROS,
            }),
    {
        Timeouts {
            start_time: DEFAULT_START_TIME_MICROS,
            increment: DEFAULT_INCREMENT_MICROS,
            block_delay: DEFAULT_BLOCK_DELAY_MICROS,
        }
    }
}

/// The two remaining budgets, the increment, the block delay, and the
/// timestamp at which the current turn began.
#[derive(Debug, Clone, Copy)]
pub struct Clock {
    /// Remaining budget of each seat, indexed by `Player::index`.
    pub time_left: [u64; 2],
    /// Credit added to the mover's budget on each accepted move.
    pub increment: u64,
    /// When the turn now in progress began.
    pub current_turn_start: u64,
    /// Settlement delay granted per block.
    pub block_delay: u64,
}

/// The remaining budget of `player` under `c`.
pub open spec fn spec_time_left(c: Clock, player: Player) -> u64 {
    c.time_left[player.spec_index()]
}

/// The time elapsed from `c`'s turn start to `now`, zero when `now` lies
/// before the turn start.
pub open spec fn spec_elapsed(c: Clock, now: u64) -> u64 {
    if now >= c.current_turn_start {
        (now - c.current_turn_start) as u64
    } else {
        0
    }
}

/// The mover's budget after an accepted move: elapsed time deducted and the
/// increment credited (saturating), unless the elapsed time exceeds the
/// budget, in which case the budget is untouched.
pub open spec fn spec_budget_after_move(c: Clock, now: u64, player: Player) -> u64 {
    let left = spec_time_left(c, player);
    let elapsed = spec_elapsed(c, now);
    if left >= elapsed {
        if left - elapsed + c.increment <= u64::MAX {
            (left - elapsed + c.increment) as u64
        } else {
            u64::MAX
        }
    } else {
        left
    }
}

/// Whether `player` has exhausted their budget as of `now`.
pub open spec fn spec_timed_out(c: Clock, now: u64, player: Player) -> bool {
    spec_time_left(c, player) < spec_elapsed(c, now)
}

impl Clock {
    /// A fresh clock: both seats start with the configured budget and the
    /// current turn starts at `block_time`.
    pub fn new(block_time: u64, timeouts: &Timeouts) -> (c: Clock)
        ensures
            c.time_left[0] == timeouts.start_time,
            c.time_left[1] == timeouts.start_time,
            c.increment == timeouts.increment,
            c.current_turn_start == block_time,
            c.block_delay == timeouts.block_delay,
    {
        Clock {
            time_left: [timeouts.start_time, timeouts.start_time],
            increment: timeouts.increment,
            current_turn_start: block_time,
            block_delay: timeouts.block_delay,
        }
    }

    /// Settles the mover's budget for the move made at `block_time` and
    /// starts the next turn there.  The opponent's budget is untouched.
    pub fn make_move(&mut self, block_time: u64, player: Player)
        ensures
            spec_time_left(*final(self), player)
                == spec_budget_after_move(*old(self), block_time, player),
            spec_time_left(*final(self), player.spec_other())
                == spec_time_left(*old(self), player.spec_other()),
            final(self).current_turn_start == block_time,
            final(self).increment == old(self).increment,
            final(self).block_delay == old(self).block_delay,
    {
        let duration = block_time.saturating_sub(self.current_turn_start);
        let i = player.index();
        let left = self.time_left[i];
        if left >= duration {
            let settled = (left - duration).saturating_add(self.increment);
            self.time_left = if i == 0 {
                [settled, self.time_left[1]]
            } else {
                [self.time_left[0], settled]
            };
        }
        self.current_turn_start = block_time;
    }

    /// Whether `player` has exhausted their budget as of `block_time`.
    ///
    /// A pure query: it takes the clock by shared reference and the result
    /// is a function of the clock and the arguments alone, so asking twice
    /// changes nothing and returns the same answer.
    pub fn timed_out(&self, block_time: u64, player: Player) -> (r: bool)
        ensures
            r == spec_timed_out(*self, block_time, player),
    {
        self.time_left[player.index()] < block_time.saturating_sub(self.current_turn_start)
    }
}

} // verus!
