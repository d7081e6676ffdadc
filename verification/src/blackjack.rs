//! The blackjack engine.
//!
//! One player seat against the house.  The player's hands (more than one
//! after splits) are played in order; when the last hand finishes, the
//! dealer draws to seventeen and every unresolved hand is settled: a
//! natural blackjack pays 3:2, a win returns the stake plus even money, a
//! push returns the stake.  Insurance, offered against a visible ace, pays
//! 2:1 when the dealer holds blackjack.

use vstd::prelude::*;
use crate::deck::{build_deck, lemma_shuffle_from_len, lemma_shuffle_from_valid, shuffle,
    spec_shuffled_deck};
use crate::types::{Card, GameOutcome, Player};

verus! {

#[derive(Debug, Clone, Copy, PartialEq, Eq, Structural)]
pub enum BlackjackAction {
    Hit,
    Stand,
    Double,
    Split,
    Insurance,
}

#[derive(Debug, Clone, Copy, PartialEq, Eq, Structural)]
pub enum BlackjackResult {
    Win,
    Lose,
    Push,
    Blackjack,
    Bust,
}

#[derive(Debug, Clone)]
pub struct BlackjackGame {
    pub player_hands: Vec<Vec<Card>>,
    pub dealer_hand: Vec<Card>,
    pub deck: Vec<Card>,
    pub current_hand: usize,
    pub bets: Vec<u64>,
    pub player_chips: u64,
    pub is_player_turn: bool,
    pub is_game_over: bool,
    pub insurance_bet: Option<u64>,
    pub results: Vec<BlackjackResult>,
}

// ---------------------------------------------------------------------------
// Hand values.

/// The blackjack value of one card: face cards count ten, an ace eleven
/// until reduced.
pub open spec fn spec_card_value(rank: int) -> int {
    if 2 <= rank <= 10 {
        rank
    } else if 11 <= rank <= 13 {
        10
    } else if rank == 14 {
        11
    } else {
        0
    }
}

/// The value of a hand with every ace still counting eleven.
pub open spec fn spec_raw_value(hand: Seq<Card>) -> int
    decreases hand.len(),
{
    if hand.len() == 0 {
        0
    } else {
        spec_raw_value(hand.drop_last()) + spec_card_value(hand.last().rank as int)
    }
}

/// How many aces the hand holds.
pub open spec fn spec_num_aces(hand: Seq<Card>) -> int
    decreases hand.len(),
{
    if hand.len() == 0 {
        0
    } else {
        spec_num_aces(hand.drop_last()) + if hand.last().rank == 14 {
            1int
        } else {
            0int
        }
    }
}

/// Aces drop from eleven to one, one at a time, while the hand is over
/// twenty-one.
pub open spec fn spec_adjust(value: int, aces: int) -> int
    decreases aces,
{
    if value > 21 && aces > 0 {
        spec_adjust(value - 10, aces - 1)
    } else {
        value
    }
}

/// The value of a hand after ace reduction.
pub open spec fn spec_hand_value(hand: Seq<Card>) -> int {
    spec_adjust(spec_raw_value(hand), spec_num_aces(hand))
}

// ---------------------------------------------------------------------------
// Structural soundness.

/// The player's hands as plain sequences.
pub open spec fn spec_hands(g: BlackjackGame) -> Seq<Seq<Card>> {
    Seq::new(g.player_hands@.len(), |i: int| g.player_hands@[i]@)
}

/// The total number of cards across a list of hands.
pub open spec fn spec_cards_in_hands(hands: Seq<Seq<Card>>) -> int
    decreases hands.len(),
{
    if hands.len() == 0 {
        0
    } else {
        spec_cards_in_hands(hands.drop_last()) + hands.last().len()
    }
}

/// The total of a bet list from `from` on.
pub open spec fn spec_sum_bets_from(bets: Seq<u64>, from: int) -> int
    decreases bets.len() - from,
{
    if from < 0 || from >= bets.len() {
        0
    } else {
        bets[from] + spec_sum_bets_from(bets, from + 1)
    }
}

/// The recorded insurance stake, zero when none was taken.
pub open spec fn spec_insurance_val(g: BlackjackGame) -> int {
    match g.insurance_bet {
        Some(i) => i as int,
        None => 0,
    }
}

/// Bet totals are nonnegative and shrink toward the tail.
pub proof fn lemma_sum_bets_nonneg(bets: Seq<u64>, from: int)
    ensures
        0 <= spec_sum_bets_from(bets, from),
        from >= 0 ==> spec_sum_bets_from(bets, from) <= spec_sum_bets_from(bets, 0),
{
    lemma_sum_bets_tail_nonneg(bets, from);
    if from >= 0 {
        lemma_sum_bets_prefix(bets, 0, from);
    }
}

/// Dropping leading bets cannot increase the total.
pub proof fn lemma_sum_bets_prefix(bets: Seq<u64>, a: int, b: int)
    requires
        0 <= a <= b,
    ensures
        spec_sum_bets_from(bets, b) <= spec_sum_bets_from(bets, a),
    decreases b - a,
{
    if a < b {
        lemma_sum_bets_prefix(bets, a + 1, b);
        lemma_sum_bets_tail_nonneg(bets, a + 1);
    }
}

/// A tail total is nonnegative.
pub proof fn lemma_sum_bets_tail_nonneg(bets: Seq<u64>, from: int)
    ensures
        0 <= spec_sum_bets_from(bets, from),
    decreases bets.len() - from,
{
    if 0 <= from && from < bets.len() {
        lemma_sum_bets_tail_nonneg(bets, from + 1);
    }
}

// ---------------------------------------------------------------------------
// Settlement model.

/// The dealer's hand and the deck after the dealer has drawn to seventeen
/// (stopping early only if the shoe runs out).
pub open spec fn spec_dealer_draw(hand: Seq<Card>, deck: Seq<Card>) -> (Seq<Card>, Seq<Card>)
    decreases deck.len(),
{
    if spec_hand_value(hand) >= 17 || deck.len() == 0 {
        (hand, deck)
    } else {
        spec_dealer_draw(hand.push(deck.last()), deck.drop_last())
    }
}

/// Drawing hands cards from the deck to the dealer, one for one.
pub proof fn lemma_dealer_draw_conserves(hand: Seq<Card>, deck: Seq<Card>)
    ensures
        spec_dealer_draw(hand, deck).0.len() + spec_dealer_draw(hand, deck).1.len() == hand.len()
            + deck.len(),
        spec_dealer_draw(hand, deck).0.len() >= hand.len(),
    decreases deck.len(),
{
    if !(spec_hand_value(hand) >= 17 || deck.len() == 0) {
        lemma_dealer_draw_conserves(hand.push(deck.last()), deck.drop_last());
    }
}

/// How one unresolved hand settles against the dealer's final value.
pub open spec fn spec_hand_result(
    hand: Seq<Card>,
    dealer_value: int,
    dealer_bust: bool,
    dealer_blackjack: bool,
) -> BlackjackResult {
    let player_value = spec_hand_value(hand);
    let player_blackjack = player_value == 21 && hand.len() == 2;
    if player_blackjack && !dealer_blackjack {
        BlackjackResult::Blackjack
    } else if dealer_bust {
        BlackjackResult::Win
    } else if dealer_blackjack && !player_blackjack {
        BlackjackResult::Lose
    } else if player_value > dealer_value {
        BlackjackResult::Win
    } else if player_value < dealer_value {
        BlackjackResult::Lose
    } else {
        BlackjackResult::Push
    }
}

/// What one settled hand pays back into the chip stack: 3:2 for a natural
/// blackjack, stake plus even money for a win, the stake for a push.
pub open spec fn spec_hand_payout(
    hand: Seq<Card>,
    bet: int,
    dealer_value: int,
    dealer_bust: bool,
    dealer_blackjack: bool,
) -> int {
    match spec_hand_result(hand, dealer_value, dealer_bust, dealer_blackjack) {
        BlackjackResult::Blackjack => (bet * 5) / 2,
        BlackjackResult::Win => bet * 2,
        BlackjackResult::Push => bet,
        BlackjackResult::Lose => 0,
        BlackjackResult::Bust => 0,
    }
}

/// The results recorded for the hands from `from` on.
pub open spec fn spec_results_from(
    hands: Seq<Seq<Card>>,
    from: int,
    dealer_value: int,
    dealer_bust: bool,
    dealer_blackjack: bool,
) -> Seq<BlackjackResult>
    decreases hands.len() - from,
{
    if from < 0 || from >= hands.len() {
        Seq::empty()
    } else {
        seq![spec_hand_result(hands[from], dealer_value, dealer_bust, dealer_blackjack)]
            + spec_results_from(hands, from + 1, dealer_value, dealer_bust, dealer_blackjack)
    }
}

/// The total paid back for the hands from `from` on.
pub open spec fn spec_payout_from(
    hands: Seq<Seq<Card>>,
    bets: Seq<u64>,
    from: int,
    dealer_value: int,
    dealer_bust: bool,
    dealer_blackjack: bool,
) -> int
    decreases hands.len() - from,
{
    if from < 0 || from >= hands.len() {
        0
    } else {
        spec_hand_payout(hands[from], bets[from] as int, dealer_value, dealer_bust,
            dealer_blackjack) + spec_payout_from(hands, bets, from + 1, dealer_value, dealer_bust,
            dealer_blackjack)
    }
}

/// No payout is negative, and none exceeds three times its stake.
pub proof fn lemma_payout_from_bounds(
    hands: Seq<Seq<Card>>,
    bets: Seq<u64>,
    from: int,
    dealer_value: int,
    dealer_bust: bool,
    dealer_blackjack: bool,
)
    requires
        bets.len() == hands.len(),
    ensures
        0 <= spec_payout_from(hands, bets, from, dealer_value, dealer_bust, dealer_blackjack)
            <= 3 * spec_sum_bets_from(bets, from),
    decreases hands.len() - from,
{
    lemma_sum_bets_tail_nonneg(bets, from);
    if 0 <= from && from < hands.len() {
        lemma_payout_from_bounds(hands, bets, from + 1, dealer_value, dealer_bust,
            dealer_blackjack);
        let b = bets[from] as int;
        assert((b * 5) / 2 <= 3 * b && 0 <= b * 2 <= 3 * b) by (nonlinear_arith)
            requires
                b >= 0,
            ;
    }
}

/// One stake never exceeds the whole bet total.
pub proof fn lemma_bet_le_sum(bets: Seq<u64>, i: int)
    requires
        0 <= i < bets.len(),
    ensures
        bets[i] <= spec_sum_bets_from(bets, 0),
    decreases i,
{
    lemma_bet_le_sum_from(bets, 0, i);
}

/// One stake never exceeds the total from any earlier point.
pub proof fn lemma_bet_le_sum_from(bets: Seq<u64>, from: int, i: int)
    requires
        0 <= from <= i < bets.len(),
    ensures
        bets[i] <= spec_sum_bets_from(bets, from),
    decreases i - from,
{
    lemma_sum_bets_tail_nonneg(bets, from + 1);
    if from < i {
        lemma_bet_le_sum_from(bets, from + 1, i);
    }
}

/// The overall outcome of a finished round: the player wins if any hand
/// won or was a natural, every hand pushing is a draw, otherwise the
/// house wins.
pub open spec fn spec_overall_outcome(results: Seq<BlackjackResult>) -> GameOutcome {
    if exists|i: int|
        0 <= i < results.len() && (#[trigger] results[i] == BlackjackResult::Win || results[i]
            == BlackjackResult::Blackjack) {
        GameOutcome::Winner(Player::One)
    } else if forall|i: int| 0 <= i < results.len() ==> #[trigger] results[i]
        == BlackjackResult::Push {
        GameOutcome::Draw
    } else {
        GameOutcome::Winner(Player::Two)
    }
}

/// Replacing one hand changes the card total by the difference.
pub proof fn lemma_cards_in_hands_update(hands: Seq<Seq<Card>>, i: int, h: Seq<Card>)
    requires
        0 <= i < hands.len(),
    ensures
        spec_cards_in_hands(hands.update(i, h)) == spec_cards_in_hands(hands) - hands[i].len()
            + h.len(),
    decreases hands.len(),
{
    if hands.len() > 0 {
        if i == hands.len() - 1 {
            assert(hands.update(i, h).drop_last() =~= hands.drop_last());
        } else {
            assert(hands.update(i, h).drop_last() =~= hands.drop_last().update(i, h));
            lemma_cards_in_hands_update(hands.drop_last(), i, h);
        }
    }
}

/// Appending a hand adds its cards to the total.
pub proof fn lemma_cards_in_hands_push(hands: Seq<Seq<Card>>, h: Seq<Card>)
    ensures
        spec_cards_in_hands(hands.push(h)) == spec_cards_in_hands(hands) + h.len(),
{
    assert(hands.push(h).drop_last() =~= hands);
}

/// Appending a bet adds it to every tail total.
pub proof fn lemma_sum_bets_push(bets: Seq<u64>, b: u64, from: int)
    requires
        0 <= from <= bets.len(),
    ensures
        spec_sum_bets_from(bets.push(b), from) == spec_sum_bets_from(bets, from) + b,
    decreases bets.len() - from,
{
    if from < bets.len() {
        lemma_sum_bets_push(bets, b, from + 1);
        assert(bets.push(b)[from] == bets[from]);
    } else {
        assert(bets.push(b)[from] == b);
        assert(spec_sum_bets_from(bets.push(b), from + 1) == 0);
    }
}

/// Replacing a bet changes the total by the difference.
pub proof fn lemma_sum_bets_update(bets: Seq<u64>, i: int, v: u64, from: int)
    requires
        0 <= from <= i < bets.len(),
    ensures
        spec_sum_bets_from(bets.update(i, v), from) == spec_sum_bets_from(bets, from) - bets[i]
            + v,
    decreases i - from,
{
    if from < i {
        lemma_sum_bets_update(bets, i, v, from + 1);
    } else {
        assert(spec_sum_bets_from(bets.update(i, v), i + 1) == spec_sum_bets_from(bets, i + 1))
            by {
            lemma_sum_bets_same_tail(bets, bets.update(i, v), i + 1);
        }
    }
}

/// Two bet lists equal from `from` on have equal tail totals.
pub proof fn lemma_sum_bets_same_tail(a: Seq<u64>, b: Seq<u64>, from: int)
    requires
        a.len() == b.len(),
        forall|k: int| from <= k < a.len() ==> a[k] == b[k],
    ensures
        spec_sum_bets_from(a, from) == spec_sum_bets_from(b, from),
    decreases a.len() - from,
{
    if 0 <= from && from < a.len() {
        lemma_sum_bets_same_tail(a, b, from + 1);
    }
}

// ---------------------------------------------------------------------------
// The player phase of one action.

/// Why an action is refused, in the order the checks run.
pub open spec fn spec_bj_rejected(g: BlackjackGame, action: BlackjackAction) -> bool {
    let cur = g.current_hand as int;
    ||| !g.is_player_turn
    ||| g.is_game_over
    ||| (action == BlackjackAction::Double && spec_hands(g)[cur].len() != 2)
    ||| (action == BlackjackAction::Double && spec_hands(g)[cur].len() == 2 && g.bets@[cur]
        > g.player_chips)
    ||| (action == BlackjackAction::Split && (spec_hands(g)[cur].len() != 2 || spec_hands(
        g,
    )[cur][0].rank != spec_hands(g)[cur][1].rank))
    ||| (action == BlackjackAction::Split && spec_hands(g)[cur].len() == 2 && spec_hands(
        g,
    )[cur][0].rank == spec_hands(g)[cur][1].rank && g.bets@[cur] > g.player_chips)
    ||| (action == BlackjackAction::Insurance && g.dealer_hand@[0].rank != 14)
    ||| (action == BlackjackAction::Insurance && g.dealer_hand@[0].rank == 14 && g.bets@[0] / 2
        > g.player_chips)
}

/// The state after a hit: one card drawn into the hand being played (none
/// if the shoe is empty); a bust records itself and moves play on.
pub open spec fn spec_hit_rel(pre: BlackjackGame, p: BlackjackGame) -> bool {
    let cur = pre.current_hand as int;
    let drew = pre.deck@.len() > 0;
    let hand1 = if drew {
        spec_hands(pre)[cur].push(pre.deck@.last())
    } else {
        spec_hands(pre)[cur]
    };
    let bust = spec_hand_value(hand1) > 21;
    &&& spec_hands(p) == spec_hands(pre).update(cur, hand1)
    &&& p.deck@ == if drew {
        pre.deck@.drop_last()
    } else {
        pre.deck@
    }
    &&& p.results@ == if bust {
        pre.results@.push(BlackjackResult::Bust)
    } else {
        pre.results@
    }
    &&& p.current_hand == if bust {
        cur + 1
    } else {
        cur
    }
    &&& p.is_player_turn == if bust {
        cur + 1 < pre.player_hands@.len()
    } else {
        true
    }
    &&& p.bets@ == pre.bets@
    &&& p.player_chips == pre.player_chips
    &&& p.dealer_hand@ == pre.dealer_hand@
    &&& p.insurance_bet == pre.insurance_bet
    &&& p.is_game_over == pre.is_game_over
}

/// The state after a stand: play simply moves to the next hand.
pub open spec fn spec_stand_rel(pre: BlackjackGame, p: BlackjackGame) -> bool {
    &&& p.current_hand == pre.current_hand + 1
    &&& p.is_player_turn == (pre.current_hand + 1 < pre.player_hands@.len())
    &&& p == (BlackjackGame {
        current_hand: p.current_hand,
        is_player_turn: p.is_player_turn,
        ..pre
    })
}

/// The state after a double: the bet doubled, one card drawn, a bust
/// recorded, and play moved on unconditionally.
pub open spec fn spec_double_rel(pre: BlackjackGame, p: BlackjackGame) -> bool {
    let cur = pre.current_hand as int;
    let bet = pre.bets@[cur];
    let drew = pre.deck@.len() > 0;
    let hand1 = if drew {
        spec_hands(pre)[cur].push(pre.deck@.last())
    } else {
        spec_hands(pre)[cur]
    };
    let bust = spec_hand_value(hand1) > 21;
    &&& spec_hands(p) == spec_hands(pre).update(cur, hand1)
    &&& p.deck@ == if drew {
        pre.deck@.drop_last()
    } else {
        pre.deck@
    }
    &&& p.player_chips == pre.player_chips - bet
    &&& p.bets@ == pre.bets@.update(cur, (2 * bet) as u64)
    &&& p.results@ == if bust {
        pre.results@.push(BlackjackResult::Bust)
    } else {
        pre.results@
    }
    &&& p.current_hand == cur + 1
    &&& p.is_player_turn == (cur + 1 < pre.player_hands@.len())
    &&& p.dealer_hand@ == pre.dealer_hand@
    &&& p.insurance_bet == pre.insurance_bet
    &&& p.is_game_over == pre.is_game_over
}

/// The state after a split: the second card starts a new hand with a
/// matching bet, and each of the two hands is dealt one fresh card (as far
/// as the shoe allows).
pub open spec fn spec_split_rel(pre: BlackjackGame, p: BlackjackGame) -> bool {
    let cur = pre.current_hand as int;
    let bet = pre.bets@[cur];
    let h = spec_hands(pre)[cur];
    let deck0 = pre.deck@;
    let cur_hand = if deck0.len() > 0 {
        seq![h[0], deck0.last()]
    } else {
        seq![h[0]]
    };
    let deck1 = if deck0.len() > 0 {
        deck0.drop_last()
    } else {
        deck0
    };
    let new_hand = if deck1.len() > 0 {
        seq![h[1], deck1.last()]
    } else {
        seq![h[1]]
    };
    let deck2 = if deck1.len() > 0 {
        deck1.drop_last()
    } else {
        deck1
    };
    &&& spec_hands(p) == spec_hands(pre).update(cur, cur_hand).push(new_hand)
    &&& p.deck@ == deck2
    &&& p.bets@ == pre.bets@.push(bet)
    &&& p.player_chips == pre.player_chips - bet
    &&& p.current_hand == pre.current_hand
    &&& p.is_player_turn
    &&& p.results@ == pre.results@
    &&& p.dealer_hand@ == pre.dealer_hand@
    &&& p.insurance_bet == pre.insurance_bet
    &&& p.is_game_over == pre.is_game_over
}

/// The state after taking insurance: half the main bet set aside.
pub open spec fn spec_insurance_rel(pre: BlackjackGame, p: BlackjackGame) -> bool {
    let ins = pre.bets@[0] / 2;
    &&& p.player_chips == pre.player_chips - ins
    &&& p.insurance_bet == Some(ins)
    &&& p == (BlackjackGame {
        player_chips: p.player_chips,
        insurance_bet: p.insurance_bet,
        ..pre
    })
}

/// The player phase of each action.
pub open spec fn spec_player_phase(
    pre: BlackjackGame,
    p: BlackjackGame,
    action: BlackjackAction,
) -> bool {
    match action {
        BlackjackAction::Hit => spec_hit_rel(pre, p),
        BlackjackAction::Stand => spec_stand_rel(pre, p),
        BlackjackAction::Double => spec_double_rel(pre, p),
        BlackjackAction::Split => spec_split_rel(pre, p),
        BlackjackAction::Insurance => spec_insurance_rel(pre, p),
    }
}

/// The settlement after the player phase: nothing while the player still
/// plays; otherwise the dealer draws and every hand is resolved.
pub open spec fn spec_settle_rel(p: BlackjackGame, q: BlackjackGame) -> bool {
    if p.is_player_turn {
        q == p
    } else {
        let drawn = spec_dealer_draw(p.dealer_hand@, p.deck@);
        let dv = spec_hand_value(drawn.0);
        let dbust = dv > 21;
        let dbj = dv == 21 && drawn.0.len() == 2;
        let ins_pay = if dbj {
            3 * spec_insurance_val(p)
        } else {
            0int
        };
        &&& q.dealer_hand@ == drawn.0
        &&& q.deck@ == drawn.1
        &&& q.results@ == p.results@ + spec_results_from(
            spec_hands(p),
            p.results@.len() as int,
            dv,
            dbust,
            dbj,
        )
        &&& q.player_chips == p.player_chips + ins_pay + spec_payout_from(
            spec_hands(p),
            p.bets@,
            p.results@.len() as int,
            dv,
            dbust,
            dbj,
        )
        &&& q.is_game_over
        &&& spec_hands(q) == spec_hands(p)
        &&& q.bets@ == p.bets@
        &&& q.current_hand == p.current_hand
        &&& q.is_player_turn == p.is_player_turn
        &&& q.insurance_bet == p.insurance_bet
    }
}

/// One accepted action end to end: the player phase, the settlement if
/// the player's turn ended, and the outcome reported.
pub open spec fn spec_bj_step(
    pre: BlackjackGame,
    post: BlackjackGame,
    action: BlackjackAction,
    outcome: GameOutcome,
) -> bool {
    exists|p: BlackjackGame|
        {
            &&& #[trigger] spec_player_phase(pre, p, action)
            &&& spec_settle_rel(p, post)
            &&& outcome == (if post.is_game_over {
                spec_overall_outcome(post.results@)
            } else {
                GameOutcome::InProgress
            })
        }
}

/// The result list is append-only: one action, through the player phase
/// and any settlement, only ever adds entries after the ones already
/// recorded.
pub proof fn lemma_results_only_grow(
    pre: BlackjackGame,
    p: BlackjackGame,
    q: BlackjackGame,
    action: BlackjackAction,
)
    requires
        spec_player_phase(pre, p, action),
        spec_settle_rel(p, q),
    ensures
        q.results@.len() >= pre.results@.len(),
        q.results@.take(pre.results@.len() as int) == pre.results@,
{
    assert(p.results@.take(pre.results@.len() as int) =~= pre.results@);
    assert(q.results@.take(p.results@.len() as int) =~= p.results@);
    assert(q.results@.take(pre.results@.len() as int) =~= pre.results@);
}

impl BlackjackGame {
    /// Structural soundness: at least one hand, one bet per hand, the hand
    /// being played within range while it is the player's turn, results
    /// not outrunning the hands, six decks of cards accounted for, and the
    /// money supply small enough that no payout overflows.
    pub open spec fn wf(self) -> bool {
        &&& self.player_hands@.len() >= 1
        &&& self.bets@.len() == self.player_hands@.len()
        &&& self.current_hand <= self.player_hands@.len()
        &&& self.is_player_turn ==> self.current_hand < self.player_hands@.len()
        &&& self.is_player_turn ==> self.results@.len() <= self.current_hand
        &&& self.results@.len() <= self.player_hands@.len()
        &&& self.dealer_hand@.len() >= 1
        &&& spec_cards_in_hands(spec_hands(self)) + self.dealer_hand@.len() + self.deck@.len()
            == 312
        &&& !self.is_game_over ==> self.player_chips + spec_sum_bets_from(self.bets@, 0)
            + spec_insurance_val(self) <= u64::MAX / 5
    }

    /// Deals a fresh round from a shuffled six-deck shoe: two cards to the
    /// player, two to the dealer (the second hidden while the player
    /// plays), and the bet debited up front.
    pub fn new(bet: u64, player_chips: u64, seed: u64) -> (g: BlackjackGame)
        requires
            bet <= player_chips,
            player_chips <= u64::MAX / 5,
        ensures
            g.wf(),
            g.player_hands@.len() == 1,
            g.dealer_hand@.len() == 2,
            g.current_hand == 0,
            g.bets@ == seq![bet],
            g.player_chips == player_chips - bet,
            g.is_player_turn,
            !g.is_game_over,
            g.insurance_bet is None,
            g.results@.len() == 0,
            ({
                let full = spec_shuffled_deck(6, seed);
                &&& g.deck@ == full.subrange(0, 308)
                &&& g.player_hands@[0]@ == seq![full[311], full[310]]
                &&& g.dealer_hand@ == seq![full[309], full[308]]
            }),
    {
        let mut deck = build_deck(6);
        proof {
            lemma_shuffle_from_len(deck@, seed, deck@.len() - 1);
            lemma_shuffle_from_valid(deck@, seed, deck@.len() - 1);
        }
        shuffle(&mut deck, seed);

        let c0 = deck.pop().unwrap();
        let c1 = deck.pop().unwrap();
        let c2 = deck.pop().unwrap();
        let c3 = deck.pop().unwrap();

        let mut player_hand: Vec<Card> = Vec::new();
        player_hand.push(c0);
        player_hand.push(c1);
        let mut dealer_hand: Vec<Card> = Vec::new();
        dealer_hand.push(c2);
        dealer_hand.push(c3);

        let mut player_hands: Vec<Vec<Card>> = Vec::new();
        player_hands.push(player_hand);

        let mut bets: Vec<u64> = Vec::new();
        bets.push(bet);

        let g = BlackjackGame {
            player_hands,
            dealer_hand,
            deck,
            current_hand: 0,
            bets,
            player_chips: player_chips - bet,
            is_player_turn: true,
            is_game_over: false,
            insurance_bet: None,
            results: Vec::new(),
        };
        proof {
            let full = spec_shuffled_deck(6, seed);
            assert(g.deck@ =~= full.subrange(0, 308));
            assert(g.player_hands@[0]@ =~= seq![full[311], full[310]]);
            assert(g.dealer_hand@ =~= seq![full[309], full[308]]);
            assert(g.bets@ =~= seq![bet]);
            assert(spec_hands(g) =~= seq![g.player_hands@[0]@]);
            assert(spec_hands(g).drop_last() =~= Seq::<Seq<Card>>::empty());
            assert(spec_cards_in_hands(Seq::<Seq<Card>>::empty()) == 0);
            assert(spec_cards_in_hands(spec_hands(g)) == 2);
            assert(spec_sum_bets_from(g.bets@, 0) == bet + spec_sum_bets_from(g.bets@, 1));
        }
        g
    }

    /// The value of a hand: tens for faces, aces eleven then reduced to
    /// one while the total is over twenty-one.
    fn calculate_hand_value(hand: &Vec<Card>) -> (value: u32)
        requires
            hand@.len() <= 400,
        ensures
            value == spec_hand_value(hand@),
    {
        let mut value: u32 = 0;
        let mut aces: u32 = 0;

        let n = hand.len();
        let mut k: usize = 0;
        while k < n
            invariant
                k <= n,
                n == hand@.len() <= 400,
                value == spec_raw_value(hand@.take(k as int)),
                aces == spec_num_aces(hand@.take(k as int)),
                value <= 11 * k,
                aces <= k,
            decreases n - k,
        {
            proof {
                assert(hand@.take(k + 1).drop_last() =~= hand@.take(k as int));
            }
            let card = hand[k];
            let card_value: u32 = if 2 <= card.rank && card.rank <= 10 {
                card.rank as u32
            } else if 11 <= card.rank && card.rank <= 13 {
                10
            } else if card.rank == 14 {
                aces = aces + 1;
                11
            } else {
                0
            };
            value = value + card_value;
            k = k + 1;
        }
        proof {
            assert(hand@.take(n as int) =~= hand@);
        }

        while value > 21 && aces > 0
            invariant
                spec_adjust(value as int, aces as int) == spec_hand_value(hand@),
            decreases aces,
        {
            value = value - 10;
            aces = aces - 1;
        }

        value
    }

    /// Applies one player action.
    ///
    /// Valid only while it is the player's turn and the round is not over.
    /// Hit draws one card, recording a bust.  Stand moves to the next
    /// hand.  Double needs exactly two cards and enough chips, doubles the
    /// bet and draws exactly one card.  Split needs two cards of one rank
    /// and enough chips to match the bet.  Insurance needs a visible ace
    /// and costs half the main bet.  When the last hand finishes, the
    /// dealer plays and every hand is settled.  A refused action leaves
    /// the game untouched.
    #[verifier::rlimit(100)]
    pub fn make_action(&mut self, action: BlackjackAction) -> (r: Result<GameOutcome, String>)
        requires
            old(self).wf(),
        ensures
            final(self).wf(),
            r is Err <==> spec_bj_rejected(*old(self), action),
            r is Err ==> *final(self) == *old(self),
            (!old(self).is_player_turn || old(self).is_game_over) ==> r->Err_0@
                == "Not player's turn"@,
            ({
                let pre = *old(self);
                let cur = pre.current_hand as int;
                let turn_ok = pre.is_player_turn && !pre.is_game_over;
                &&& (turn_ok && action == BlackjackAction::Double && spec_hands(pre)[cur].len()
                    != 2) ==> r->Err_0@ == "Can only double on first two cards"@
                &&& (turn_ok && action == BlackjackAction::Double && spec_hands(pre)[cur].len()
                    == 2 && pre.bets@[cur] > pre.player_chips) ==> r->Err_0@
                    == "Insufficient chips to double"@
                &&& (turn_ok && action == BlackjackAction::Split && (spec_hands(pre)[cur].len()
                    != 2 || spec_hands(pre)[cur][0].rank != spec_hands(pre)[cur][1].rank)) ==> r
                    ->Err_0@ == "Cannot split"@
                &&& (turn_ok && action == BlackjackAction::Split && spec_hands(pre)[cur].len()
                    == 2 && spec_hands(pre)[cur][0].rank == spec_hands(pre)[cur][1].rank
                    && pre.bets@[cur] > pre.player_chips) ==> r->Err_0@
                    == "Insufficient chips to split"@
                &&& (turn_ok && action == BlackjackAction::Insurance && pre.dealer_hand@[0].rank
                    != 14) ==> r->Err_0@ == "Insurance only available when dealer shows Ace"@
                &&& (turn_ok && action == BlackjackAction::Insurance && pre.dealer_hand@[0].rank
                    == 14 && pre.bets@[0] / 2 > pre.player_chips) ==> r->Err_0@
                    == "Insufficient chips for insurance"@
            }),
            !spec_bj_rejected(*old(self), action) ==> exists|p: BlackjackGame|
                {
                    &&& #[trigger] spec_player_phase(*old(self), p, action)
                    &&& spec_settle_rel(p, *final(self))
                    &&& r == Ok::<GameOutcome, String>(
                        if final(self).is_game_over {
                            spec_overall_outcome(final(self).results@)
                        } else {
                            GameOutcome::InProgress
                        },
                    )
                },
    {
        if !self.is_player_turn || self.is_game_over {
            return Err("Not player's turn".to_owned());
        }
        let ghost pre = *self;
        let cur = self.current_hand;
        proof {
            lemma_hand_within_total(spec_hands(pre), cur as int);
            lemma_cards_in_hands_nonneg(spec_hands(pre));
        }

        match action {
            BlackjackAction::Hit => {
                match self.deck.pop() {
                    Some(card) => {
                        self.player_hands[cur].push(card);
                    },
                    None => {},
                }
                proof {
                    assert(spec_hands(*self) =~= spec_hands(pre).update(
                        cur as int,
                        spec_hands(*self)[cur as int],
                    ));
                    lemma_cards_in_hands_update(
                        spec_hands(pre),
                        cur as int,
                        spec_hands(*self)[cur as int],
                    );
                }
                let value = Self::calculate_hand_value(&self.player_hands[cur]);
                if value > 21 {
                    self.results.push(BlackjackResult::Bust);
                    self.advance_hand();
                }
                proof {
                    assert(spec_hit_rel(pre, *self));
                    assert(self.wf());
                }
            },
            BlackjackAction::Stand => {
                self.advance_hand();
                proof {
                    assert(spec_stand_rel(pre, *self));
                    assert(spec_hands(*self) =~= spec_hands(pre));
                    assert(self.wf());
                }
            },
            BlackjackAction::Double => {
                if self.player_hands[cur].len() != 2 {
                    return Err("Can only double on first two cards".to_owned());
                }
                let bet = self.bets[cur];
                if bet > self.player_chips {
                    return Err("Insufficient chips to double".to_owned());
                }
                proof {
                    lemma_bet_le_sum(pre.bets@, cur as int);
                    lemma_sum_bets_nonneg(pre.bets@, 0);
                    lemma_sum_bets_update(pre.bets@, cur as int, (2 * pre.bets@[cur as int]) as u64, 0);
                }

                self.player_chips = self.player_chips - bet;
                self.bets[cur] = bet * 2;

                match self.deck.pop() {
                    Some(card) => {
                        self.player_hands[cur].push(card);
                    },
                    None => {},
                }
                proof {
                    assert(spec_hands(*self) =~= spec_hands(pre).update(
                        cur as int,
                        spec_hands(*self)[cur as int],
                    ));
                    lemma_cards_in_hands_update(
                        spec_hands(pre),
                        cur as int,
                        spec_hands(*self)[cur as int],
                    );
                }
                let value = Self::calculate_hand_value(&self.player_hands[cur]);
                if value > 21 {
                    self.results.push(BlackjackResult::Bust);
                }
                self.advance_hand();
                proof {
                    assert(spec_double_rel(pre, *self));
                    assert(self.wf());
                }
            },
            BlackjackAction::Split => {
                if self.player_hands[cur].len() != 2 || self.player_hands[cur][0].rank
                    != self.player_hands[cur][1].rank {
                    return Err("Cannot split".to_owned());
                }
                let bet = self.bets[cur];
                if bet > self.player_chips {
                    return Err("Insufficient chips to split".to_owned());
                }
                proof {
                    lemma_bet_le_sum(pre.bets@, cur as int);
                    lemma_sum_bets_nonneg(pre.bets@, 0);
                    lemma_sum_bets_push(pre.bets@, pre.bets@[cur as int], 0);
                }

                self.player_chips = self.player_chips - bet;
                let second = self.player_hands[cur].pop().unwrap();
                let mut new_hand: Vec<Card> = Vec::new();
                new_hand.push(second);
                self.player_hands.push(new_hand);
                self.bets.push(bet);

                match self.deck.pop() {
                    Some(card) => {
                        self.player_hands[cur].push(card);
                    },
                    None => {},
                }
                let last_idx = self.player_hands.len() - 1;
                match self.deck.pop() {
                    Some(card) => {
                        self.player_hands[last_idx].push(card);
                    },
                    None => {},
                }
                proof {
                    let h = spec_hands(pre)[cur as int];
                    let deck0 = pre.deck@;
                    let cur_hand: Seq<Card> = if deck0.len() > 0 {
                        seq![h[0], deck0.last()]
                    } else {
                        seq![h[0]]
                    };
                    let deck1: Seq<Card> = if deck0.len() > 0 {
                        deck0.drop_last()
                    } else {
                        deck0
                    };
                    let new_hand: Seq<Card> = if deck1.len() > 0 {
                        seq![h[1], deck1.last()]
                    } else {
                        seq![h[1]]
                    };
                    assert(self.player_hands@[cur as int]@ =~= cur_hand);
                    assert(self.player_hands@[last_idx as int]@ =~= new_hand);
                    assert(spec_hands(*self) =~= spec_hands(pre).update(cur as int, cur_hand).push(
                        new_hand,
                    ));
                    lemma_cards_in_hands_update(spec_hands(pre), cur as int, cur_hand);
                    lemma_cards_in_hands_push(
                        spec_hands(pre).update(cur as int, cur_hand),
                        new_hand,
                    );
                    assert(spec_split_rel(pre, *self));
                    assert(self.wf());
                }
            },
            BlackjackAction::Insurance => {
                if self.dealer_hand[0].rank != 14 {
                    return Err("Insurance only available when dealer shows Ace".to_owned());
                }
                let insurance = self.bets[0] / 2;
                if insurance > self.player_chips {
                    return Err("Insufficient chips for insurance".to_owned());
                }
                proof {
                    lemma_sum_bets_nonneg(pre.bets@, 0);
                }
                self.player_chips = self.player_chips - insurance;
                self.insurance_bet = Some(insurance);
                proof {
                    assert(spec_insurance_rel(pre, *self));
                    assert(spec_hands(*self) =~= spec_hands(pre));
                    assert(self.wf());
                }
            },
        }

        let ghost p_snap = *self;
        proof {
            assert(spec_player_phase(pre, p_snap, action));
        }

        if !self.is_player_turn {
            self.play_dealer();
            let ghost p_drawn = *self;
            proof {
                assert(spec_hands(p_drawn) =~= spec_hands(p_snap));
                lemma_dealer_draw_conserves(p_snap.dealer_hand@, p_snap.deck@);
            }
            self.resolve_game();
            proof {
                assert(spec_hands(*self) =~= spec_hands(p_drawn));
                lemma_results_from_len(
                    spec_hands(p_drawn),
                    p_drawn.results@.len() as int,
                    spec_hand_value(self.dealer_hand@),
                    spec_hand_value(self.dealer_hand@) > 21,
                    spec_hand_value(self.dealer_hand@) == 21 && self.dealer_hand@.len() == 2,
                );
                assert(spec_settle_rel(p_snap, *self));
                assert(self.wf());
            }
        }

        if self.is_game_over {
            let outcome = self.game_outcome();
            proof {
                assert(spec_player_phase(pre, p_snap, action) && spec_settle_rel(p_snap, *self));
            }
            Ok(outcome)
        } else {
            proof {
                assert(spec_settle_rel(p_snap, *self));
            }
            Ok(GameOutcome::InProgress)
        }
    }

    /// Moves play to the next hand; past the last hand the player's turn
    /// is over.
    fn advance_hand(&mut self)
        requires
            old(self).current_hand < old(self).player_hands@.len(),
            old(self).is_player_turn,
        ensures
            final(self).current_hand == old(self).current_hand + 1,
            final(self).is_player_turn == (old(self).current_hand + 1
                < old(self).player_hands@.len()),
            *final(self) == (BlackjackGame {
                current_hand: final(self).current_hand,
                is_player_turn: final(self).is_player_turn,
                ..*old(self)
            }),
    {
        let n = self.player_hands.len();
        self.current_hand = self.current_hand + 1;
        if self.current_hand >= n {
            self.is_player_turn = false;
        }
    }

    /// The dealer draws to seventeen, stopping early only if the shoe
    /// runs out.
    fn play_dealer(&mut self)
        requires
            old(self).wf(),
        ensures
            final(self).dealer_hand@ == spec_dealer_draw(
                old(self).dealer_hand@,
                old(self).deck@,
            ).0,
            final(self).deck@ == spec_dealer_draw(old(self).dealer_hand@, old(self).deck@).1,
            *final(self) == (BlackjackGame {
                dealer_hand: final(self).dealer_hand,
                deck: final(self).deck,
                ..*old(self)
            }),
    {
        let ghost pre = *self;
        proof {
            lemma_cards_in_hands_nonneg(spec_hands(pre));
        }
        loop
            invariant
                spec_dealer_draw(self.dealer_hand@, self.deck@) == spec_dealer_draw(
                    pre.dealer_hand@,
                    pre.deck@,
                ),
                self.dealer_hand@.len() + self.deck@.len() <= 312,
                *self == (BlackjackGame {
                    dealer_hand: self.dealer_hand,
                    deck: self.deck,
                    ..pre
                }),
            ensures
                spec_dealer_draw(self.dealer_hand@, self.deck@) == spec_dealer_draw(
                    pre.dealer_hand@,
                    pre.deck@,
                ),
                spec_hand_value(self.dealer_hand@) >= 17 || self.deck@.len() == 0,
                *self == (BlackjackGame {
                    dealer_hand: self.dealer_hand,
                    deck: self.deck,
                    ..pre
                }),
            decreases self.deck@.len(),
        {
            let value = Self::calculate_hand_value(&self.dealer_hand);
            if value >= 17 {
                break;
            }
            match self.deck.pop() {
                Some(card) => {
                    self.dealer_hand.push(card);
                },
                None => {
                    break;
                },
            }
        }
    }

    /// Settles every unresolved hand against the dealer's final value and
    /// pays insurance if the dealer holds blackjack.
    fn resolve_game(&mut self)
        requires
            old(self).wf(),
            !old(self).is_game_over,
        ensures
            ({
                let pre = *old(self);
                let dv = spec_hand_value(pre.dealer_hand@);
                let dbust = dv > 21;
                let dbj = dv == 21 && pre.dealer_hand@.len() == 2;
                let ins_pay = if dbj {
                    3 * spec_insurance_val(pre)
                } else {
                    0int
                };
                let r0 = pre.results@.len() as int;
                &&& final(self).results@ == pre.results@ + spec_results_from(
                    spec_hands(pre),
                    r0,
                    dv,
                    dbust,
                    dbj,
                )
                &&& final(self).player_chips == pre.player_chips + ins_pay + spec_payout_from(
                    spec_hands(pre),
                    pre.bets@,
                    r0,
                    dv,
                    dbust,
                    dbj,
                )
                &&& final(self).is_game_over
                &&& *final(self) == (BlackjackGame {
                    results: final(self).results,
                    player_chips: final(self).player_chips,
                    is_game_over: true,
                    ..pre
                })
            }),
    {
        let ghost pre = *self;
        proof {
            lemma_cards_in_hands_nonneg(spec_hands(pre));
        }
        let dealer_value = Self::calculate_hand_value(&self.dealer_hand);
        let dealer_bust = dealer_value > 21;
        let dealer_blackjack = dealer_value == 21 && self.dealer_hand.len() == 2;

        let ghost dv = spec_hand_value(pre.dealer_hand@);
        let ghost r0 = pre.results@.len() as int;
        let ghost hands = spec_hands(pre);

        proof {
            lemma_payout_from_bounds(hands, pre.bets@, r0, dv, dealer_bust, dealer_blackjack);
            lemma_sum_bets_nonneg(pre.bets@, r0);
        }

        // Insurance pays 2:1 (the stake comes back with it) only against a
        // dealer blackjack.
        match self.insurance_bet {
            Some(insurance) => {
                if dealer_blackjack {
                    self.player_chips = self.player_chips + insurance * 3;
                }
            },
            None => {},
        }
        let ghost ins_pay: int = if dealer_blackjack {
            3 * spec_insurance_val(pre)
        } else {
            0
        };

        let mut i: usize = self.results.len();
        while i < self.player_hands.len()
            invariant
                pre.wf(),
                !pre.is_game_over,
                hands == spec_hands(pre),
                dv == spec_hand_value(pre.dealer_hand@),
                dealer_value == dv,
                dealer_bust == (dv > 21),
                dealer_blackjack == (dv == 21 && pre.dealer_hand@.len() == 2),
                ins_pay == if dealer_blackjack {
                    3 * spec_insurance_val(pre)
                } else {
                    0int
                },
                r0 == pre.results@.len(),
                r0 <= i <= hands.len(),
                self.results@.len() == i,
                self.results@ + spec_results_from(hands, i as int, dv, dealer_bust,
                    dealer_blackjack) == pre.results@ + spec_results_from(
                    hands,
                    r0,
                    dv,
                    dealer_bust,
                    dealer_blackjack,
                ),
                self.player_chips + spec_payout_from(hands, pre.bets@, i as int, dv, dealer_bust,
                    dealer_blackjack) == pre.player_chips + ins_pay + spec_payout_from(
                    hands,
                    pre.bets@,
                    r0,
                    dv,
                    dealer_bust,
                    dealer_blackjack,
                ),
                self.player_chips + spec_payout_from(hands, pre.bets@, i as int, dv, dealer_bust,
                    dealer_blackjack) <= u64::MAX,
                *self == (BlackjackGame {
                    results: self.results,
                    player_chips: self.player_chips,
                    ..pre
                }),
            decreases self.player_hands@.len() - i,
        {
            proof {
                lemma_hand_within_total(hands, i as int);
                lemma_payout_from_bounds(hands, pre.bets@, i + 1, dv, dealer_bust,
                    dealer_blackjack);
                lemma_bet_le_sum(pre.bets@, i as int);
                lemma_sum_bets_nonneg(pre.bets@, 0);
                let b = pre.bets@[i as int] as int;
                assert(0 <= (b * 5) / 2 && 0 <= b * 2 && b * 5 <= u64::MAX) by (nonlinear_arith)
                    requires
                        0 <= b <= u64::MAX / 5,
                    ;
                assert(hands[i as int] == self.player_hands@[i as int]@);
                assert(spec_payout_from(hands, pre.bets@, i as int, dv, dealer_bust,
                    dealer_blackjack) == spec_hand_payout(hands[i as int], b, dv, dealer_bust,
                    dealer_blackjack) + spec_payout_from(hands, pre.bets@, i + 1, dv, dealer_bust,
                    dealer_blackjack));
            }
            let player_value = Self::calculate_hand_value(&self.player_hands[i]);
            let player_blackjack = player_value == 21 && self.player_hands[i].len() == 2;
            proof {
                assert(spec_hand_result(hands[i as int], dv, dealer_bust, dealer_blackjack)
                    == spec_hand_result(self.player_hands@[i as int]@, dv, dealer_bust,
                    dealer_blackjack));
            }
            let ghost results_before = self.results@;

            let result = if player_blackjack && !dealer_blackjack {
                self.player_chips = self.player_chips + (self.bets[i] * 5) / 2;
                BlackjackResult::Blackjack
            } else if dealer_bust {
                self.player_chips = self.player_chips + self.bets[i] * 2;
                BlackjackResult::Win
            } else if dealer_blackjack && !player_blackjack {
                BlackjackResult::Lose
            } else if player_value > dealer_value {
                self.player_chips = self.player_chips + self.bets[i] * 2;
                BlackjackResult::Win
            } else if player_value < dealer_value {
                BlackjackResult::Lose
            } else {
                self.player_chips = self.player_chips + self.bets[i];
                BlackjackResult::Push
            };

            self.results.push(result);
            proof {
                assert(result == spec_hand_result(hands[i as int], dv, dealer_bust,
                    dealer_blackjack));
                assert(results_before.push(result) + spec_results_from(hands, i + 1, dv,
                    dealer_bust, dealer_blackjack) =~= results_before + spec_results_from(
                    hands,
                    i as int,
                    dv,
                    dealer_bust,
                    dealer_blackjack,
                ));
            }
            i = i + 1;
        }

        self.is_game_over = true;
    }

    /// The overall outcome of a finished round.
    pub fn game_outcome(&self) -> (r: GameOutcome)
        ensures
            r == spec_overall_outcome(self.results@),
    {
        let n = self.results.len();
        let mut won = false;
        let mut i: usize = 0;
        while i < n
            invariant
                i <= n,
                n == self.results@.len(),
                won == exists|k: int|
                    0 <= k < i && (#[trigger] self.results@[k] == BlackjackResult::Win
                        || self.results@[k] == BlackjackResult::Blackjack),
            decreases n - i,
        {
            match self.results[i] {
                BlackjackResult::Win => {
                    won = true;
                },
                BlackjackResult::Blackjack => {
                    won = true;
                },
                _ => {},
            }
            i = i + 1;
        }
        if won {
            return GameOutcome::Winner(Player::One);
        }

        let mut all_push = true;
        let mut i: usize = 0;
        while i < n
            invariant
                i <= n,
                n == self.results@.len(),
                all_push == forall|k: int|
                    0 <= k < i ==> #[trigger] self.results@[k] == BlackjackResult::Push,
            decreases n - i,
        {
            if !(matches!(self.results[i], BlackjackResult::Push)) {
                all_push = false;
            }
            i = i + 1;
        }

        if all_push {
            GameOutcome::Draw
        } else {
            GameOutcome::Winner(Player::Two)
        }
    }

    /// The value of the hand at `hand_idx`.
    pub fn get_player_hand_value(&self, hand_idx: usize) -> (value: u32)
        requires
            self.wf(),
            hand_idx < self.player_hands@.len(),
        ensures
            value == spec_hand_value(self.player_hands@[hand_idx as int]@),
    {
        proof {
            lemma_hand_within_total(spec_hands(*self), hand_idx as int);
        }
        Self::calculate_hand_value(&self.player_hands[hand_idx])
    }

    /// What the player can see of the dealer: the first card's value while
    /// the player still plays, the whole hand afterwards.
    pub fn get_dealer_visible_value(&self) -> (value: u32)
        requires
            self.wf(),
        ensures
            self.is_player_turn ==> value == spec_card_value(self.dealer_hand@[0].rank as int),
            !self.is_player_turn ==> value == spec_hand_value(self.dealer_hand@),
    {
        if self.is_player_turn {
            let rank = self.dealer_hand[0].rank;
            if 2 <= rank && rank <= 10 {
                rank as u32
            } else if 11 <= rank && rank <= 13 {
                10
            } else if rank == 14 {
                11
            } else {
                0
            }
        } else {
            proof {
                lemma_cards_in_hands_nonneg(spec_hands(*self));
            }
            Self::calculate_hand_value(&self.dealer_hand)
        }
    }
}

/// Settlement records one result for each unresolved hand.
pub proof fn lemma_results_from_len(
    hands: Seq<Seq<Card>>,
    from: int,
    dealer_value: int,
    dealer_bust: bool,
    dealer_blackjack: bool,
)
    requires
        0 <= from <= hands.len(),
    ensures
        spec_results_from(hands, from, dealer_value, dealer_bust, dealer_blackjack).len()
            == hands.len() - from,
    decreases hands.len() - from,
{
    if from < hands.len() {
        lemma_results_from_len(hands, from + 1, dealer_value, dealer_bust, dealer_blackjack);
    }
}

/// Each hand holds no more cards than all hands together.
pub proof fn lemma_hand_within_total(hands: Seq<Seq<Card>>, i: int)
    requires
        0 <= i < hands.len(),
    ensures
        hands[i].len() <= spec_cards_in_hands(hands),
        0 <= spec_cards_in_hands(hands),
    decreases hands.len(),
{
    if hands.len() > 0 {
        if i == hands.len() - 1 {
            lemma_cards_in_hands_nonneg(hands.drop_last());
        } else {
            lemma_hand_within_total(hands.drop_last(), i);
        }
    }
}

/// A card count over hands is nonnegative.
pub proof fn lemma_cards_in_hands_nonneg(hands: Seq<Seq<Card>>)
    ensures
        0 <= spec_cards_in_hands(hands),
    decreases hands.len(),
{
    if hands.len() > 0 {
        lemma_cards_in_hands_nonneg(hands.drop_last());
    }
}

} // verus!
