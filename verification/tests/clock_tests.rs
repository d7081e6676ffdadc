use game_platform::clock::{Clock, Timeouts};
use game_platform::types::Player;

#[test]
fn default_timeouts_in_microseconds() {
    let t = Timeouts::default();
    assert_eq!(t.start_time, 300_000_000);
    assert_eq!(t.increment, 10_000_000);
    assert_eq!(t.block_delay, 5_000_000);
}

#[test]
fn new_clock_gives_both_seats_the_full_budget() {
    let clock = Clock::new(1_000, &Timeouts::default());
    assert_eq!(clock.time_left, [300_000_000, 300_000_000]);
    assert_eq!(clock.current_turn_start, 1_000);
    assert_eq!(clock.increment, 10_000_000);
}

#[test]
fn a_move_debits_elapsed_time_and_credits_the_increment() {
    let mut clock = Clock::new(1_000_000, &Timeouts::default());
    clock.make_move(61_000_000, Player::One); // 60 s elapsed
    assert_eq!(clock.time_left[0], 300_000_000 - 60_000_000 + 10_000_000);
    assert_eq!(clock.time_left[1], 300_000_000);
    assert_eq!(clock.current_turn_start, 61_000_000);
}

#[test]
fn overdrawn_budget_is_left_untouched_but_the_turn_restarts() {
    // The deduction is skipped when the elapsed time exceeds the budget;
    // the move itself is not rejected.
    let mut clock = Clock {
        time_left: [5_000_000, 300_000_000],
        increment: 10_000_000,
        current_turn_start: 0,
        block_delay: 5_000_000,
    };
    clock.make_move(10_000_000, Player::One);
    assert_eq!(clock.time_left[0], 5_000_000, "budget untouched");
    assert_eq!(clock.current_turn_start, 10_000_000);
}

#[test]
fn has_timed_out_is_a_pure_query() {
    let clock = Clock {
        time_left: [5_000_000, 300_000_000],
        increment: 10_000_000,
        current_turn_start: 0,
        block_delay: 5_000_000,
    };
    let first = clock.timed_out(10_000_000, Player::One);
    let second = clock.timed_out(10_000_000, Player::One);
    assert_eq!(first, second);
    assert!(first);
    assert_eq!(clock.time_left, [5_000_000, 300_000_000]);
    assert_eq!(clock.current_turn_start, 0);
}

#[test]
fn timed_out_is_strict() {
    let clock = Clock {
        time_left: [10_000_000, 0],
        increment: 0,
        current_turn_start: 0,
        block_delay: 0,
    };
    assert!(!clock.timed_out(10_000_000, Player::One)); // exactly the budget
    assert!(clock.timed_out(10_000_001, Player::One));
    assert!(clock.timed_out(1, Player::Two));
    assert!(!clock.timed_out(0, Player::Two));
}
