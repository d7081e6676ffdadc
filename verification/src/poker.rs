//! The heads-up poker engine.
//!
//! Two seats, blinds posted at the deal, betting rounds through
//! pre-flop/flop/turn/river, then a showdown scored by a simplified hand
//! ranking: straight flush over quads over full house over flush over
//! straight over trips over two pair over one pair over high card, each
//! tier keyed by the relevant rank only (not kicker-exact).

use vstd::prelude::*;
use crate::deck::{build_deck, lemma_shuffle_from_len, lemma_shuffle_from_valid, shuffle,
    spec_shuffled_deck};
use crate::types::{Card, GameOutcome, Player, Suit};

verus! {

#[derive(Debug, Clone, Copy, PartialEq, Eq, Structural)]
pub enum PokerStage {
    PreFlop,
    Flop,
    Turn,
    River,
    Showdown,
}

#[derive(Debug, Clone, Copy, PartialEq, Eq, Structural)]
pub enum PokerAction {
    Fold,
    Check,
    Call,
    Raise,
    AllIn,
}

/// One entry of the append-only action history.
#[derive(Debug, Clone, Copy, PartialEq, Eq, Structural)]
pub struct PokerActionRecord {
    pub player: Player,
    pub action: PokerAction,
    pub amount: u64,
    pub stage: PokerStage,
    pub timestamp: u64,
}

#[derive(Debug, Clone)]
pub struct PokerGame {
    pub player_hands: Vec<Vec<Card>>,
    pub community_cards: Vec<Card>,
    pub deck: Vec<Card>,
    pub pot: u64,
    pub current_bet: u64,
    pub player_bets: Vec<u64>,
    pub player_chips: Vec<u64>,
    pub active_player: Player,
    pub stage: PokerStage,
    pub dealer: Player,
    pub folded: Vec<bool>,
    pub all_in: Vec<bool>,
    pub last_raiser: Option<Player>,
    pub action_history: Vec<PokerActionRecord>,
    pub round_complete: bool,
    pub small_blind: u64,
    pub big_blind: u64,
}

// ---------------------------------------------------------------------------
// Hand scoring model.

/// How many cards of rank `r` the pile holds.
pub open spec fn spec_rank_count(cards: Seq<Card>, r: int) -> int
    decreases cards.len(),
{
    if cards.len() == 0 {
        0
    } else {
        spec_rank_count(cards.drop_last(), r) + if cards.last().rank == r {
            1int
        } else {
            0int
        }
    }
}

/// How many cards of suit `s` the pile holds.
pub open spec fn spec_suit_count(cards: Seq<Card>, s: Suit) -> int
    decreases cards.len(),
{
    if cards.len() == 0 {
        0
    } else {
        spec_suit_count(cards.drop_last(), s) + if cards.last().suit == s {
            1int
        } else {
            0int
        }
    }
}

/// Five or more cards of one suit.
pub open spec fn spec_has_flush(cards: Seq<Card>) -> bool {
    ||| spec_suit_count(cards, Suit::Hearts) >= 5
    ||| spec_suit_count(cards, Suit::Diamonds) >= 5
    ||| spec_suit_count(cards, Suit::Clubs) >= 5
    ||| spec_suit_count(cards, Suit::Spades) >= 5
}

/// Ranks `lo` through `lo + 4` all present.
pub open spec fn spec_run_at(cards: Seq<Card>, lo: int) -> bool {
    &&& spec_rank_count(cards, lo) > 0
    &&& spec_rank_count(cards, lo + 1) > 0
    &&& spec_rank_count(cards, lo + 2) > 0
    &&& spec_rank_count(cards, lo + 3) > 0
    &&& spec_rank_count(cards, lo + 4) > 0
}

/// Five consecutive ranks, or the wheel (ace playing low).
pub open spec fn spec_has_straight(cards: Seq<Card>) -> bool {
    ||| exists|lo: int| 2 <= lo <= 10 && #[trigger] spec_run_at(cards, lo)
    ||| (spec_rank_count(cards, 14) > 0 && spec_rank_count(cards, 2) > 0 && spec_rank_count(
        cards,
        3,
    ) > 0 && spec_rank_count(cards, 4) > 0 && spec_rank_count(cards, 5) > 0)
}

/// How many distinct ranks from `from` up appear exactly `c` times.
pub open spec fn spec_num_ranks_with(cards: Seq<Card>, c: int, from: int) -> int
    decreases 15 - from,
{
    if from >= 15 || from < 2 {
        0
    } else {
        (if spec_rank_count(cards, from) == c {
            1int
        } else {
            0int
        }) + spec_num_ranks_with(cards, c, from + 1)
    }
}

/// The lowest rank at or above `from` appearing exactly `c` times;
/// 15 when there is none.
pub open spec fn spec_min_rank_with(cards: Seq<Card>, c: int, from: int) -> int
    decreases 15 - from,
{
    if from >= 15 || from < 2 {
        15
    } else if spec_rank_count(cards, from) == c {
        from
    } else {
        spec_min_rank_with(cards, c, from + 1)
    }
}

/// The highest rank at or below `down` appearing exactly `c` times;
/// 0 when there is none.
pub open spec fn spec_max_rank_with(cards: Seq<Card>, c: int, down: int) -> int
    decreases down,
{
    if down < 2 {
        0
    } else if spec_rank_count(cards, down) == c {
        down
    } else {
        spec_max_rank_with(cards, c, down - 1)
    }
}

/// The highest rank present at or below `down`; 0 when there is none.
pub open spec fn spec_max_present(cards: Seq<Card>, down: int) -> int
    decreases down,
{
    if down < 2 {
        0
    } else if spec_rank_count(cards, down) > 0 {
        down
    } else {
        spec_max_present(cards, down - 1)
    }
}

/// The score of a pile of hole plus community cards.  Higher is better.
/// Each tier is keyed by a single rank: quads, full houses and trips by
/// their lowest matching rank, two pair by the higher pair, one pair by
/// the pair's rank.
pub open spec fn spec_score(cards: Seq<Card>) -> int {
    let flush = spec_has_flush(cards);
    let straight = spec_has_straight(cards);
    if straight && flush {
        800 + spec_max_present(cards, 14)
    } else if spec_min_rank_with(cards, 4, 2) < 15 {
        700 + spec_min_rank_with(cards, 4, 2)
    } else if spec_min_rank_with(cards, 3, 2) < 15 && spec_min_rank_with(cards, 2, 2) < 15 {
        600 + spec_min_rank_with(cards, 3, 2)
    } else if flush {
        500
    } else if straight {
        400
    } else if spec_min_rank_with(cards, 3, 2) < 15 {
        300 + spec_min_rank_with(cards, 3, 2)
    } else if spec_num_ranks_with(cards, 2, 2) >= 2 {
        200 + spec_max_rank_with(cards, 2, 14)
    } else if spec_num_ranks_with(cards, 2, 2) == 1 {
        100 + spec_min_rank_with(cards, 2, 2)
    } else {
        spec_max_present(cards, 14)
    }
}

/// The pile seat `i` shows down: two hole cards plus the community cards.
pub open spec fn spec_showdown_cards(g: PokerGame, i: int) -> Seq<Card> {
    g.player_hands@[i]@ + g.community_cards@
}

/// The showdown result: higher score wins, ties split.
pub open spec fn spec_showdown_outcome(g: PokerGame) -> GameOutcome {
    let s0 = spec_score(spec_showdown_cards(g, 0));
    let s1 = spec_score(spec_showdown_cards(g, 1));
    if s0 > s1 {
        GameOutcome::Winner(Player::One)
    } else if s1 > s0 {
        GameOutcome::Winner(Player::Two)
    } else {
        GameOutcome::Draw
    }
}

/// Every count is between zero and the pile size.
pub proof fn lemma_rank_count_bounds(cards: Seq<Card>, r: int)
    ensures
        0 <= spec_rank_count(cards, r) <= cards.len(),
    decreases cards.len(),
{
    if cards.len() > 0 {
        lemma_rank_count_bounds(cards.drop_last(), r);
    }
}

/// Every suit count is between zero and the pile size.
pub proof fn lemma_suit_count_bounds(cards: Seq<Card>, s: Suit)
    ensures
        0 <= spec_suit_count(cards, s) <= cards.len(),
    decreases cards.len(),
{
    if cards.len() > 0 {
        lemma_suit_count_bounds(cards.drop_last(), s);
    }
}

/// The index a suit occupies in a per-suit counting array.
pub open spec fn spec_suit_index(s: Suit) -> int {
    match s {
        Suit::Hearts => 0,
        Suit::Diamonds => 1,
        Suit::Clubs => 2,
        Suit::Spades => 3,
    }
}

// ---------------------------------------------------------------------------
// Betting model.

/// The per-seat index of the acting seat.
pub open spec fn spec_active_idx(g: PokerGame) -> int {
    g.active_player.spec_index()
}

/// What the acting seat still owes to match the table bet.
pub open spec fn spec_to_call(g: PokerGame) -> int {
    g.current_bet - g.player_bets@[spec_active_idx(g)]
}

/// The raise amount used: the caller's, or the big blind by default.
pub open spec fn spec_raise_amount(g: PokerGame, amount: Option<u64>) -> int {
    match amount {
        Some(a) => a as int,
        None => g.big_blind as int,
    }
}

/// The money fields after the acting seat's chips have moved, as
/// `(pot, seat bet, seat chips, seat all-in, table bet, last raiser)`.
/// Fold and Check move no chips.
pub open spec fn spec_bet_delta(g: PokerGame, action: PokerAction, amount: Option<u64>) -> (
    int,
    int,
    int,
    bool,
    int,
    Option<Player>,
) {
    let idx = spec_active_idx(g);
    let pot = g.pot as int;
    let bet = g.player_bets@[idx] as int;
    let chips = g.player_chips@[idx] as int;
    let allin = g.all_in@[idx];
    let cur = g.current_bet as int;
    let lr = g.last_raiser;
    match action {
        PokerAction::Fold => (pot, bet, chips, allin, cur, lr),
        PokerAction::Check => (pot, bet, chips, allin, cur, lr),
        PokerAction::Call => {
            let tc = cur - bet;
            if tc > chips {
                (pot + chips, bet + chips, 0, true, cur, lr)
            } else {
                (pot + tc, cur, chips - tc, allin, cur, lr)
            }
        },
        PokerAction::Raise => {
            let ra = spec_raise_amount(g, amount);
            let tc = cur - bet;
            (pot + tc + ra, cur + ra, chips - tc - ra, allin, cur + ra, Some(g.active_player))
        },
        PokerAction::AllIn => {
            let nb = bet + chips;
            if nb > cur {
                (pot + chips, nb, 0, true, nb, Some(g.active_player))
            } else {
                (pot + chips, nb, 0, true, cur, lr)
            }
        },
    }
}

/// Why an action is refused.
pub open spec fn spec_action_rejected(
    g: PokerGame,
    action: PokerAction,
    amount: Option<u64>,
) -> bool {
    let idx = spec_active_idx(g);
    ||| g.folded@[idx]
    ||| (action == PokerAction::Check && g.player_bets@[idx] < g.current_bet)
    ||| (action == PokerAction::Raise && spec_to_call(g) + spec_raise_amount(g, amount)
        > g.player_chips@[idx])
}

/// How many history entries belong to `stage`.
pub open spec fn spec_count_stage(h: Seq<PokerActionRecord>, stage: PokerStage) -> int
    decreases h.len(),
{
    if h.len() == 0 {
        0
    } else {
        spec_count_stage(h.drop_last(), stage) + if h.last().stage == stage {
            1int
        } else {
            0int
        }
    }
}

/// A betting round is complete when a seat is all-in, or the bets match
/// and at least two actions have been recorded this stage.
pub open spec fn spec_round_complete_vals(
    bet0: int,
    bet1: int,
    allin0: bool,
    allin1: bool,
    h: Seq<PokerActionRecord>,
    stage: PokerStage,
) -> bool {
    ||| allin0
    ||| allin1
    ||| (bet0 == bet1 && spec_count_stage(h, stage) >= 2)
}

/// The stage following a completed betting round.
pub open spec fn spec_next_stage(s: PokerStage) -> PokerStage {
    match s {
        PokerStage::PreFlop => PokerStage::Flop,
        PokerStage::Flop => PokerStage::Turn,
        PokerStage::Turn => PokerStage::River,
        PokerStage::River => PokerStage::Showdown,
        PokerStage::Showdown => PokerStage::Showdown,
    }
}

/// How many community cards the stage transition deals.
pub open spec fn spec_deal_count(s: PokerStage) -> int {
    match s {
        PokerStage::PreFlop => 3,
        PokerStage::Flop => 1,
        PokerStage::Turn => 1,
        PokerStage::River => 0,
        PokerStage::Showdown => 0,
    }
}

/// The history entry recorded for an accepted action.
pub open spec fn spec_action_record(
    g: PokerGame,
    action: PokerAction,
    amount: Option<u64>,
    timestamp: u64,
) -> PokerActionRecord {
    PokerActionRecord {
        player: g.active_player,
        action,
        amount: match amount {
            Some(a) => a,
            None => 0,
        },
        stage: g.stage,
        timestamp,
    }
}

/// The full effect of an accepted fold: the seat folds, the action is
/// recorded, and nothing else moves.
pub open spec fn spec_fold_applied(pre: PokerGame, post: PokerGame, timestamp: u64) -> bool {
    let idx = spec_active_idx(pre);
    &&& post.folded@ == pre.folded@.update(idx, true)
    &&& post.action_history@ == pre.action_history@.push(
        spec_action_record(pre, PokerAction::Fold, None, timestamp),
    )
    &&& post == (PokerGame { folded: post.folded, action_history: post.action_history, ..pre })
}

/// The full effect of an accepted non-fold action: chips move per
/// `spec_bet_delta`, the action is recorded, and a completed betting
/// round advances the stage.
pub open spec fn spec_poker_applied(
    pre: PokerGame,
    post: PokerGame,
    action: PokerAction,
    amount: Option<u64>,
    timestamp: u64,
) -> bool {
    let idx = spec_active_idx(pre);
    let delta = spec_bet_delta(pre, action, amount);
    let rec = spec_action_record(pre, action, amount, timestamp);
    let hist1 = pre.action_history@.push(rec);
    let bets1 = pre.player_bets@.update(idx, (delta.1 as u64));
    let allins1 = pre.all_in@.update(idx, delta.3);
    let complete = spec_round_complete_vals(
        bets1[0] as int,
        bets1[1] as int,
        allins1[0],
        allins1[1],
        hist1,
        pre.stage,
    );
    &&& post.pot == delta.0
    &&& post.player_chips@ == pre.player_chips@.update(idx, (delta.2 as u64))
    &&& post.all_in@ == allins1
    &&& post.action_history@ == hist1
    &&& post.folded@ == pre.folded@
    &&& post.player_hands@ == pre.player_hands@
    &&& post.dealer == pre.dealer
    &&& post.small_blind == pre.small_blind
    &&& post.big_blind == pre.big_blind
    &&& post.round_complete == pre.round_complete
    &&& (if complete {
        &&& post.stage == spec_next_stage(pre.stage)
        &&& post.player_bets@ == seq![0u64, 0u64]
        &&& post.current_bet == 0
        &&& post.last_raiser is None
        &&& post.deck@ == pre.deck@.take(pre.deck@.len() - spec_deal_count(pre.stage))
        &&& post.community_cards@ == pre.community_cards@ + Seq::new(
            spec_deal_count(pre.stage) as nat,
            |i: int| pre.deck@[pre.deck@.len() - 1 - i],
        )
        &&& post.active_player == (match pre.stage {
            PokerStage::PreFlop => pre.dealer.spec_other(),
            PokerStage::Flop => pre.dealer.spec_other(),
            PokerStage::Turn => pre.dealer.spec_other(),
            PokerStage::River => pre.active_player,
            PokerStage::Showdown => pre.active_player,
        })
    } else {
        &&& post.stage == pre.stage
        &&& post.player_bets@ == bets1
        &&& post.current_bet == delta.4
        &&& post.last_raiser == delta.5
        &&& post.deck@ == pre.deck@
        &&& post.community_cards@ == pre.community_cards@
        &&& post.active_player == pre.active_player.spec_other()
    })
}

/// Where a stage sits in the hand's fixed order.
pub open spec fn spec_stage_rank(s: PokerStage) -> int {
    match s {
        PokerStage::PreFlop => 0,
        PokerStage::Flop => 1,
        PokerStage::Turn => 2,
        PokerStage::River => 3,
        PokerStage::Showdown => 4,
    }
}

/// The stage only advances, never backward: any accepted non-fold action
/// leaves the stage where it was or moves it one step on.
pub proof fn lemma_stage_moves_forward(
    pre: PokerGame,
    post: PokerGame,
    action: PokerAction,
    amount: Option<u64>,
    timestamp: u64,
)
    requires
        spec_poker_applied(pre, post, action, amount, timestamp),
    ensures
        spec_stage_rank(pre.stage) <= spec_stage_rank(post.stage) <= spec_stage_rank(pre.stage)
            + 1,
{
}

// ---------------------------------------------------------------------------
// Structural soundness.

/// The number of community cards each stage has dealt.
pub open spec fn spec_community_for_stage(stage: PokerStage) -> int {
    match stage {
        PokerStage::PreFlop => 0,
        PokerStage::Flop => 3,
        PokerStage::Turn => 4,
        PokerStage::River => 5,
        PokerStage::Showdown => 5,
    }
}

impl PokerGame {
    /// Structural soundness: two seats everywhere, the deck consistent
    /// with the stage, bets within the table bet, everything within the
    /// pot, and the money supply small enough that no transfer overflows.
    pub open spec fn wf(self) -> bool {
        &&& self.player_hands@.len() == 2
        &&& self.player_hands@[0]@.len() == 2
        &&& self.player_hands@[1]@.len() == 2
        &&& self.player_bets@.len() == 2
        &&& self.player_chips@.len() == 2
        &&& self.folded@.len() == 2
        &&& self.all_in@.len() == 2
        &&& self.community_cards@.len() == spec_community_for_stage(self.stage)
        &&& self.deck@.len() == 48 - self.community_cards@.len()
        &&& self.player_bets@[0] <= self.current_bet
        &&& self.player_bets@[1] <= self.current_bet
        &&& self.player_bets@[0] <= self.pot
        &&& self.player_bets@[1] <= self.pot
        &&& self.current_bet <= self.pot
        &&& self.pot + self.player_chips@[0] + self.player_chips@[1] <= u64::MAX
        &&& forall|i: int|
            0 <= i < self.deck@.len() ==> (#[trigger] self.deck@[i]).valid()
        &&& forall|i: int|
            0 <= i < self.community_cards@.len() ==> (#[trigger] self.community_cards@[i]).valid()
        &&& self.player_hands@[0]@[0].valid()
        &&& self.player_hands@[0]@[1].valid()
        &&& self.player_hands@[1]@[0].valid()
        &&& self.player_hands@[1]@[1].valid()
    }

    /// Deals a fresh hand: a shuffled deck, two hole cards per seat, the
    /// blinds posted (seat 0 the small blind, acting first pre-flop), the
    /// big blind standing as the initial raiser.
    pub fn new(starting_chips: u64, small_blind: u64, big_blind: u64, seed: u64) -> (g: PokerGame)
        requires
            small_blind <= big_blind,
            big_blind <= starting_chips,
            2 * starting_chips <= u64::MAX,
        ensures
            g.wf(),
            g.pot == small_blind + big_blind,
            g.current_bet == big_blind,
            g.player_bets@ == seq![small_blind, big_blind],
            g.player_chips@ == seq![
                (starting_chips - small_blind) as u64,
                (starting_chips - big_blind) as u64,
            ],
            g.active_player == Player::One,
            g.stage == PokerStage::PreFlop,
            g.dealer == Player::One,
            g.folded@ == seq![false, false],
            g.all_in@ == seq![false, false],
            g.last_raiser == Some(Player::Two),
            g.action_history@.len() == 0,
            !g.round_complete,
            g.small_blind == small_blind,
            g.big_blind == big_blind,
            g.community_cards@.len() == 0,
            ({
                let full = spec_shuffled_deck(1, seed);
                &&& g.deck@ == full.subrange(0, 48)
                &&& g.player_hands@[0]@ == seq![full[51], full[50]]
                &&& g.player_hands@[1]@ == seq![full[49], full[48]]
            }),
    {
        let mut deck = build_deck(1);
        proof {
            lemma_shuffle_from_len(deck@, seed, deck@.len() - 1);
            lemma_shuffle_from_valid(deck@, seed, deck@.len() - 1);
        }
        shuffle(&mut deck, seed);

        let c0 = deck.pop().unwrap();
        let c1 = deck.pop().unwrap();
        let c2 = deck.pop().unwrap();
        let c3 = deck.pop().unwrap();
        let mut p1_hand: Vec<Card> = Vec::new();
        p1_hand.push(c0);
        p1_hand.push(c1);
        let mut p2_hand: Vec<Card> = Vec::new();
        p2_hand.push(c2);
        p2_hand.push(c3);

        let mut player_hands: Vec<Vec<Card>> = Vec::new();
        player_hands.push(p1_hand);
        player_hands.push(p2_hand);

        let mut player_bets: Vec<u64> = Vec::new();
        player_bets.push(small_blind);
        player_bets.push(big_blind);

        let mut player_chips: Vec<u64> = Vec::new();
        player_chips.push(starting_chips - small_blind);
        player_chips.push(starting_chips - big_blind);

        let mut folded: Vec<bool> = Vec::new();
        folded.push(false);
        folded.push(false);

        let mut all_in: Vec<bool> = Vec::new();
        all_in.push(false);
        all_in.push(false);

        let g = PokerGame {
            player_hands,
            community_cards: Vec::new(),
            deck,
            pot: small_blind + big_blind,
            current_bet: big_blind,
            player_bets,
            player_chips,
            active_player: Player::One,
            stage: PokerStage::PreFlop,
            dealer: Player::One,
            folded,
            all_in,
            last_raiser: Some(Player::Two),
            action_history: Vec::new(),
            round_complete: false,
            small_blind,
            big_blind,
        };
        proof {
            let full = spec_shuffled_deck(1, seed);
            assert(g.deck@ =~= full.subrange(0, 48));
            assert(g.player_hands@[0]@ =~= seq![full[51], full[50]]);
            assert(g.player_hands@[1]@ =~= seq![full[49], full[48]]);
            assert(g.player_bets@ =~= seq![small_blind, big_blind]);
            assert(g.player_chips@ =~= seq![
                (starting_chips - small_blind) as u64,
                (starting_chips - big_blind) as u64,
            ]);
            assert(g.folded@ =~= seq![false, false]);
            assert(g.all_in@ =~= seq![false, false]);
        }
        g
    }

    /// Scores one seat's showdown pile.
    #[verifier::rlimit(100)]
    #[verifier::spinoff_prover]
    pub fn evaluate_hand(&self, player_idx: usize) -> (score: u32)
        requires
            self.wf(),
            player_idx < 2,
        ensures
            score == spec_score(spec_showdown_cards(*self, player_idx as int)),
    {
        // Combine the hole cards with the community cards.
        let mut all_cards: Vec<Card> = Vec::new();
        let hand = &self.player_hands[player_idx];
        let mut k: usize = 0;
        while k < hand.len()
            invariant
                k <= hand@.len(),
                all_cards@ == hand@.take(k as int),
            decreases hand@.len() - k,
        {
            all_cards.push(hand[k]);
            k = k + 1;
        }
        let mut k: usize = 0;
        while k < self.community_cards.len()
            invariant
                k <= self.community_cards@.len(),
                all_cards@ == hand@ + self.community_cards@.take(k as int),
            decreases self.community_cards@.len() - k,
        {
            proof {
                assert(hand@ + self.community_cards@.take(k + 1) =~= (hand@
                    + self.community_cards@.take(k as int)).push(self.community_cards@[k as int]));
            }
            all_cards.push(self.community_cards[k]);
            k = k + 1;
        }
        proof {
            assert(hand@.take(hand@.len() as int) =~= hand@);
            assert(self.community_cards@.take(self.community_cards@.len() as int)
                =~= self.community_cards@);
            assert(all_cards@ == spec_showdown_cards(*self, player_idx as int));
            assert forall|i: int| 0 <= i < all_cards@.len() implies (#[trigger] all_cards@[
            i]).valid() by {
                if i >= 2 {
                    assert(all_cards@[i] == self.community_cards@[i - 2]);
                    assert(self.community_cards@[i - 2].valid());
                } else if i == 0 {
                    assert(all_cards@[0] == self.player_hands@[player_idx as int]@[0]);
                } else {
                    assert(all_cards@[1] == self.player_hands@[player_idx as int]@[1]);
                }
            }
        }
        let ghost cards = all_cards@;

        // Count ranks and suits.
        let mut rank_counts: Vec<u8> = Vec::new();
        let mut k: usize = 0;
        while k < 15
            invariant
                k <= 15,
                rank_counts@.len() == k,
                forall|r: int| 0 <= r < k ==> rank_counts@[r] == 0,
            decreases 15 - k,
        {
            rank_counts.push(0);
            k = k + 1;
        }
        let mut suit_counts: Vec<u8> = Vec::new();
        let mut k: usize = 0;
        while k < 4
            invariant
                k <= 4,
                suit_counts@.len() == k,
                forall|r: int| 0 <= r < k ==> suit_counts@[r] == 0,
            decreases 4 - k,
        {
            suit_counts.push(0);
            k = k + 1;
        }

        let n = all_cards.len();
        let mut m: usize = 0;
        while m < n
            invariant
                m <= n,
                n == cards.len() <= 7,
                cards == all_cards@,
                forall|i: int| 0 <= i < cards.len() ==> (#[trigger] cards[i]).valid(),
                rank_counts@.len() == 15,
                suit_counts@.len() == 4,
                forall|r: int|
                    0 <= r < 15 ==> #[trigger] rank_counts@[r] == spec_rank_count(
                        cards.take(m as int),
                        r,
                    ),
                forall|s: Suit|
                    #[trigger] suit_counts@[spec_suit_index(s)] == spec_suit_count(
                        cards.take(m as int),
                        s,
                    ),
            decreases n - m,
        {
            let card = all_cards[m];
            proof {
                assert(cards.take(m + 1).drop_last() =~= cards.take(m as int));
                assert(cards.take(m + 1).last() == cards[m as int]);
                assert forall|r: int| 0 <= r < 15 implies spec_rank_count(cards.take(m + 1), r)
                    == spec_rank_count(cards.take(m as int), r) + (if cards[m as int].rank == r {
                    1int
                } else {
                    0int
                }) by {
                    assert(cards.take(m + 1).len() > 0);
                }
                assert forall|s: Suit| spec_suit_count(cards.take(m + 1), s) == spec_suit_count(
                    cards.take(m as int),
                    s,
                ) + (if cards[m as int].suit == s {
                    1int
                } else {
                    0int
                }) by {
                    assert(cards.take(m + 1).len() > 0);
                }
                lemma_rank_count_bounds(cards.take(m as int), card.rank as int);
                lemma_suit_count_bounds(cards.take(m as int), card.suit);
            }
            let ri = card.rank as usize;
            rank_counts[ri] = rank_counts[ri] + 1;
            let si = Self::suit_index(card.suit);
            suit_counts[si] = suit_counts[si] + 1;
            m = m + 1;
        }
        proof {
            assert(cards.take(n as int) =~= cards);
            assert(suit_counts@[spec_suit_index(Suit::Hearts)] == spec_suit_count(
                cards,
                Suit::Hearts,
            ));
            assert(suit_counts@[spec_suit_index(Suit::Diamonds)] == spec_suit_count(
                cards,
                Suit::Diamonds,
            ));
            assert(suit_counts@[spec_suit_index(Suit::Clubs)] == spec_suit_count(
                cards,
                Suit::Clubs,
            ));
            assert(suit_counts@[spec_suit_index(Suit::Spades)] == spec_suit_count(
                cards,
                Suit::Spades,
            ));
        }

        let is_flush = suit_counts[0] >= 5 || suit_counts[1] >= 5 || suit_counts[2] >= 5
            || suit_counts[3] >= 5;
        proof {
            assert(is_flush == spec_has_flush(cards));
        }
        let is_straight = Self::check_straight(&rank_counts, Ghost(cards));

        let quad_rank = Self::min_rank_with(&rank_counts, 4, Ghost(cards));
        let trip_rank = Self::min_rank_with(&rank_counts, 3, Ghost(cards));
        let pair_rank = Self::min_rank_with(&rank_counts, 2, Ghost(cards));
        let num_pairs = Self::num_ranks_with(&rank_counts, 2, Ghost(cards));
        let top_rank = Self::max_present(&rank_counts, Ghost(cards));

        if is_straight && is_flush {
            800 + top_rank as u32
        } else if quad_rank < 15 {
            700 + quad_rank as u32
        } else if trip_rank < 15 && pair_rank < 15 {
            600 + trip_rank as u32
        } else if is_flush {
            500
        } else if is_straight {
            400
        } else if trip_rank < 15 {
            300 + trip_rank as u32
        } else if num_pairs >= 2 {
            200 + Self::max_rank_with(&rank_counts, 2, Ghost(cards)) as u32
        } else if num_pairs == 1 {
            100 + pair_rank as u32
        } else {
            top_rank as u32
        }
    }

    /// The index a suit occupies in a per-suit counting array.
    fn suit_index(s: Suit) -> (r: usize)
        ensures
            r == spec_suit_index(s),
            r < 4,
    {
        match s {
            Suit::Hearts => 0,
            Suit::Diamonds => 1,
            Suit::Clubs => 2,
            Suit::Spades => 3,
        }
    }

    /// Whether the counted ranks hold five consecutive ranks or the wheel.
    fn check_straight(rank_counts: &Vec<u8>, Ghost(cards): Ghost<Seq<Card>>) -> (r: bool)
        requires
            rank_counts@.len() == 15,
            forall|r: int| 0 <= r < 15 ==> rank_counts@[r] == spec_rank_count(cards, r),
        ensures
            r == spec_has_straight(cards),
    {
        let mut consecutive: usize = 0;
        let mut i: usize = 14;
        while i >= 2
            invariant
                1 <= i <= 14,
                consecutive <= 4,
                i + consecutive <= 14,
                rank_counts@.len() == 15,
                forall|r: int| 0 <= r < 15 ==> rank_counts@[r] == spec_rank_count(cards, r),
                forall|k: int|
                    i + 1 <= k <= i + consecutive ==> spec_rank_count(cards, k) > 0,
                i + consecutive == 14 || spec_rank_count(cards, i + consecutive + 1) == 0,
                forall|lo: int| i + 1 <= lo <= 10 ==> !(#[trigger] spec_run_at(cards, lo)),
            decreases i,
        {
            if rank_counts[i] > 0 {
                consecutive = consecutive + 1;
                if consecutive >= 5 {
                    proof {
                        assert(spec_run_at(cards, i as int));
                    }
                    return true;
                }
            } else {
                consecutive = 0;
            }
            i = i - 1;
        }
        // The ace may also play low: A-2-3-4-5.
        if rank_counts[14] > 0 && rank_counts[2] > 0 && rank_counts[3] > 0 && rank_counts[4] > 0
            && rank_counts[5] > 0 {
            return true;
        }
        proof {
            assert(forall|lo: int| 2 <= lo <= 10 ==> !(#[trigger] spec_run_at(cards, lo)));
        }
        false
    }

    /// The lowest rank appearing exactly `c` times; 15 when there is none.
    fn min_rank_with(rank_counts: &Vec<u8>, c: u8, Ghost(cards): Ghost<Seq<Card>>) -> (r: u8)
        requires
            rank_counts@.len() == 15,
            forall|r: int| 0 <= r < 15 ==> rank_counts@[r] == spec_rank_count(cards, r),
        ensures
            r == spec_min_rank_with(cards, c as int, 2),
            r <= 15,
    {
        let mut i: u8 = 2;
        while i < 15
            invariant
                2 <= i <= 15,
                rank_counts@.len() == 15,
                forall|r: int| 0 <= r < 15 ==> rank_counts@[r] == spec_rank_count(cards, r),
                spec_min_rank_with(cards, c as int, 2) == spec_min_rank_with(
                    cards,
                    c as int,
                    i as int,
                ),
            decreases 15 - i,
        {
            if rank_counts[i as usize] == c {
                return i;
            }
            i = i + 1;
        }
        15
    }

    /// The highest rank appearing exactly `c` times; 0 when there is none.
    fn max_rank_with(rank_counts: &Vec<u8>, c: u8, Ghost(cards): Ghost<Seq<Card>>) -> (r: u8)
        requires
            rank_counts@.len() == 15,
            forall|r: int| 0 <= r < 15 ==> rank_counts@[r] == spec_rank_count(cards, r),
        ensures
            r == spec_max_rank_with(cards, c as int, 14),
            r <= 14,
    {
        let mut i: u8 = 14;
        while i >= 2
            invariant
                1 <= i <= 14,
                rank_counts@.len() == 15,
                forall|r: int| 0 <= r < 15 ==> rank_counts@[r] == spec_rank_count(cards, r),
                spec_max_rank_with(cards, c as int, 14) == spec_max_rank_with(
                    cards,
                    c as int,
                    i as int,
                ),
            decreases i,
        {
            if rank_counts[i as usize] == c {
                return i;
            }
            i = i - 1;
        }
        0
    }

    /// The highest rank present at all; 0 when the pile is empty.
    fn max_present(rank_counts: &Vec<u8>, Ghost(cards): Ghost<Seq<Card>>) -> (r: u8)
        requires
            rank_counts@.len() == 15,
            forall|r: int| 0 <= r < 15 ==> rank_counts@[r] == spec_rank_count(cards, r),
        ensures
            r == spec_max_present(cards, 14),
            r <= 14,
    {
        let mut i: u8 = 14;
        while i >= 2
            invariant
                1 <= i <= 14,
                rank_counts@.len() == 15,
                forall|r: int| 0 <= r < 15 ==> rank_counts@[r] == spec_rank_count(cards, r),
                spec_max_present(cards, 14) == spec_max_present(cards, i as int),
            decreases i,
        {
            if rank_counts[i as usize] > 0 {
                return i;
            }
            i = i - 1;
        }
        0
    }

    /// How many distinct ranks appear exactly `c` times.
    fn num_ranks_with(rank_counts: &Vec<u8>, c: u8, Ghost(cards): Ghost<Seq<Card>>) -> (r: usize)
        requires
            rank_counts@.len() == 15,
            forall|r: int| 0 <= r < 15 ==> rank_counts@[r] == spec_rank_count(cards, r),
        ensures
            r == spec_num_ranks_with(cards, c as int, 2),
    {
        let mut acc: usize = 0;
        let mut i: usize = 2;
        while i < 15
            invariant
                2 <= i <= 15,
                acc <= i,
                rank_counts@.len() == 15,
                forall|r: int| 0 <= r < 15 ==> rank_counts@[r] == spec_rank_count(cards, r),
                spec_num_ranks_with(cards, c as int, 2) == acc + spec_num_ranks_with(
                    cards,
                    c as int,
                    i as int,
                ),
            decreases 15 - i,
        {
            if rank_counts[i] == c {
                acc = acc + 1;
            }
            i = i + 1;
        }
        acc
    }

    /// Applies one action by the acting seat.
    ///
    /// A seat that has folded may not act.  A fold ends the hand at once
    /// with the other seat the winner.  A check requires the seat to be
    /// level with the table bet.  A call moves chips up to the table bet,
    /// going all-in when they do not suffice.  A raise (of the given
    /// amount, the big blind by default) must be fully covered.  All-in
    /// commits everything and may raise the table bet.  Every accepted
    /// action is recorded; a completed betting round advances the stage,
    /// and reaching the showdown scores both hands.  A refused action
    /// leaves the game untouched.
    #[verifier::rlimit(100)]
    pub fn make_action(
        &mut self,
        action: PokerAction,
        amount: Option<u64>,
        timestamp: u64,
    ) -> (r: Result<GameOutcome, String>)
        requires
            old(self).wf(),
        ensures
            final(self).wf(),
            r is Err <==> spec_action_rejected(*old(self), action, amount),
            r is Err ==> *final(self) == *old(self),
            old(self).folded@[spec_active_idx(*old(self))] ==> r->Err_0@ == "Player has folded"@,
            (!old(self).folded@[spec_active_idx(*old(self))] && action == PokerAction::Check
                && old(self).player_bets@[spec_active_idx(*old(self))] < old(self).current_bet)
                ==> r->Err_0@ == "Cannot check, must call or raise"@,
            (!old(self).folded@[spec_active_idx(*old(self))] && action == PokerAction::Raise
                && spec_to_call(*old(self)) + spec_raise_amount(*old(self), amount) > old(
                self,
            ).player_chips@[spec_active_idx(*old(self))]) ==> r->Err_0@ == "Insufficient chips"@,
            (action == PokerAction::Fold && !old(self).folded@[spec_active_idx(*old(self))])
                ==> spec_fold_applied(*old(self), *final(self), timestamp) && r == Ok::<
                GameOutcome,
                String,
            >(GameOutcome::Winner(old(self).active_player.spec_other())),
            (action != PokerAction::Fold && !spec_action_rejected(*old(self), action, amount))
                ==> spec_poker_applied(*old(self), *final(self), action, amount, timestamp) && r
                == (if final(self).stage == PokerStage::Showdown {
                Ok::<GameOutcome, String>(spec_showdown_outcome(*final(self)))
            } else {
                Ok::<GameOutcome, String>(GameOutcome::InProgress)
            }),
    {
        let ghost pre = *self;
        let player_idx = self.active_player.index();

        if self.folded[player_idx] {
            return Err("Player has folded".to_owned());
        }

        match action {
            PokerAction::Fold => {
                self.folded[player_idx] = true;
                self.action_history.push(
                    PokerActionRecord {
                        player: self.active_player,
                        action,
                        amount: 0,
                        stage: self.stage,
                        timestamp,
                    },
                );
                return Ok(GameOutcome::Winner(self.active_player.other()));
            },
            PokerAction::Check => {
                if self.player_bets[player_idx] < self.current_bet {
                    return Err("Cannot check, must call or raise".to_owned());
                }
                proof {
                    assert(self.player_bets@ =~= pre.player_bets@.update(
                        player_idx as int,
                        pre.player_bets@[player_idx as int],
                    ));
                    assert(self.player_chips@ =~= pre.player_chips@.update(
                        player_idx as int,
                        pre.player_chips@[player_idx as int],
                    ));
                    assert(self.all_in@ =~= pre.all_in@.update(
                        player_idx as int,
                        pre.all_in@[player_idx as int],
                    ));
                }
            },
            PokerAction::Call => {
                self.apply_call();
            },
            PokerAction::Raise => {
                let raise_amount = match amount {
                    Some(a) => a,
                    None => self.big_blind,
                };
                let to_call = self.current_bet - self.player_bets[player_idx];

                if raise_amount > self.player_chips[player_idx] || to_call
                    > self.player_chips[player_idx] - raise_amount {
                    return Err("Insufficient chips".to_owned());
                }
                self.apply_raise(raise_amount);
            },
            PokerAction::AllIn => {
                self.apply_all_in();
            },
        }

        self.action_history.push(
            PokerActionRecord {
                player: self.active_player,
                action,
                amount: match amount {
                    Some(a) => a,
                    None => 0,
                },
                stage: self.stage,
                timestamp,
            },
        );

        proof {
            assert(self.wf());
        }
        if self.is_round_complete() {
            self.advance_stage();
        } else {
            self.active_player = self.active_player.other();
        }

        if matches!(self.stage, PokerStage::Showdown) {
            return self.determine_winner();
        }

        Ok(GameOutcome::InProgress)
    }

    /// Moves the acting seat's chips for a call, going all-in when they
    /// do not cover the table bet.
    #[verifier::rlimit(100)]
    #[verifier::spinoff_prover]
    fn apply_call(&mut self)
        requires
            old(self).wf(),
        ensures
            final(self).wf(),
            ({
                let pre = *old(self);
                let idx = spec_active_idx(pre);
                let delta = spec_bet_delta(pre, PokerAction::Call, None);
                &&& final(self).pot == delta.0
                &&& final(self).player_bets@ == pre.player_bets@.update(idx, (delta.1 as u64))
                &&& final(self).player_chips@ == pre.player_chips@.update(idx, (delta.2 as u64))
                &&& final(self).all_in@ == pre.all_in@.update(idx, delta.3)
                &&& final(self).current_bet == delta.4
                &&& final(self).last_raiser == delta.5
                &&& *final(self) == (PokerGame {
                    pot: final(self).pot,
                    player_bets: final(self).player_bets,
                    player_chips: final(self).player_chips,
                    all_in: final(self).all_in,
                    current_bet: final(self).current_bet,
                    last_raiser: final(self).last_raiser,
                    ..pre
                })
            }),
    {
        let ghost pre = *self;
        let player_idx = self.active_player.index();
        let to_call = self.current_bet - self.player_bets[player_idx];
        if to_call > self.player_chips[player_idx] {
            // Not enough to match: everything goes in.
            let chips = self.player_chips[player_idx];
            self.pot = self.pot + chips;
            self.player_bets[player_idx] = self.player_bets[player_idx] + chips;
            self.player_chips[player_idx] = 0;
            self.all_in[player_idx] = true;
        } else {
            self.pot = self.pot + to_call;
            self.player_bets[player_idx] = self.current_bet;
            self.player_chips[player_idx] = self.player_chips[player_idx] - to_call;
            proof {
                assert(self.all_in@ =~= pre.all_in@.update(
                    player_idx as int,
                    pre.all_in@[player_idx as int],
                ));
            }
        }
    }

    /// Moves the acting seat's chips for a fully covered raise and makes
    /// the seat the raiser to beat.
    #[verifier::rlimit(100)]
    #[verifier::spinoff_prover]
    fn apply_raise(&mut self, raise_amount: u64)
        requires
            old(self).wf(),
            spec_to_call(*old(self)) + raise_amount <= old(self).player_chips@[spec_active_idx(
                *old(self),
            )],
        ensures
            final(self).wf(),
            ({
                let pre = *old(self);
                let idx = spec_active_idx(pre);
                let delta = spec_bet_delta(pre, PokerAction::Raise, Some(raise_amount));
                &&& final(self).pot == delta.0
                &&& final(self).player_bets@ == pre.player_bets@.update(idx, (delta.1 as u64))
                &&& final(self).player_chips@ == pre.player_chips@.update(idx, (delta.2 as u64))
                &&& final(self).all_in@ == pre.all_in@.update(idx, delta.3)
                &&& final(self).current_bet == delta.4
                &&& final(self).last_raiser == delta.5
                &&& *final(self) == (PokerGame {
                    pot: final(self).pot,
                    player_bets: final(self).player_bets,
                    player_chips: final(self).player_chips,
                    all_in: final(self).all_in,
                    current_bet: final(self).current_bet,
                    last_raiser: final(self).last_raiser,
                    ..pre
                })
            }),
    {
        let ghost pre = *self;
        let player_idx = self.active_player.index();
        let to_call = self.current_bet - self.player_bets[player_idx];
        let total = to_call + raise_amount;

        self.pot = self.pot + total;
        self.player_chips[player_idx] = self.player_chips[player_idx] - total;
        self.player_bets[player_idx] = self.current_bet + raise_amount;
        self.current_bet = self.player_bets[player_idx];
        self.last_raiser = Some(self.active_player);
        proof {
            assert(self.all_in@ =~= pre.all_in@.update(
                player_idx as int,
                pre.all_in@[player_idx as int],
            ));
        }
    }

    /// Commits the acting seat's whole stack, raising the table bet when
    /// it tops it.
    #[verifier::rlimit(100)]
    #[verifier::spinoff_prover]
    fn apply_all_in(&mut self)
        requires
            old(self).wf(),
        ensures
            final(self).wf(),
            ({
                let pre = *old(self);
                let idx = spec_active_idx(pre);
                let delta = spec_bet_delta(pre, PokerAction::AllIn, None);
                &&& final(self).pot == delta.0
                &&& final(self).player_bets@ == pre.player_bets@.update(idx, (delta.1 as u64))
                &&& final(self).player_chips@ == pre.player_chips@.update(idx, (delta.2 as u64))
                &&& final(self).all_in@ == pre.all_in@.update(idx, delta.3)
                &&& final(self).current_bet == delta.4
                &&& final(self).last_raiser == delta.5
                &&& *final(self) == (PokerGame {
                    pot: final(self).pot,
                    player_bets: final(self).player_bets,
                    player_chips: final(self).player_chips,
                    all_in: final(self).all_in,
                    current_bet: final(self).current_bet,
                    last_raiser: final(self).last_raiser,
                    ..pre
                })
            }),
    {
        let player_idx = self.active_player.index();
        let chips = self.player_chips[player_idx];
        self.pot = self.pot + chips;
        self.player_bets[player_idx] = self.player_bets[player_idx] + chips;
        self.player_chips[player_idx] = 0;
        self.all_in[player_idx] = true;

        if self.player_bets[player_idx] > self.current_bet {
            self.current_bet = self.player_bets[player_idx];
            self.last_raiser = Some(self.active_player);
        }
    }

    /// Whether the current betting round is complete.
    pub fn is_round_complete(&self) -> (r: bool)
        requires
            self.wf(),
        ensures
            r == spec_round_complete_vals(
                self.player_bets@[0] as int,
                self.player_bets@[1] as int,
                self.all_in@[0],
                self.all_in@[1],
                self.action_history@,
                self.stage,
            ),
    {
        if self.all_in[0] || self.all_in[1] {
            return true;
        }

        let p1_bet = self.player_bets[0];
        let p2_bet = self.player_bets[1];

        let mut count: usize = 0;
        let mut i: usize = 0;
        let n = self.action_history.len();
        while i < n
            invariant
                i <= n,
                count <= i,
                n == self.action_history@.len(),
                count == spec_count_stage(self.action_history@.take(i as int), self.stage),
            decreases n - i,
        {
            proof {
                assert(self.action_history@.take(i + 1).drop_last() =~= self.action_history@.take(
                    i as int,
                ));
            }
            if self.action_history[i].stage == self.stage {
                count = count + 1;
            }
            i = i + 1;
        }
        proof {
            assert(self.action_history@.take(n as int) =~= self.action_history@);
        }

        p1_bet == p2_bet && count >= 2
    }

    /// Ends the betting round: bets reset, the next stage's community
    /// cards dealt from the top of the deck, and the seat after the dealer
    /// brought to act on the three dealing transitions.
    fn advance_stage(&mut self)
        requires
            old(self).wf(),
        ensures
            final(self).wf(),
            final(self).player_bets@ == seq![0u64, 0u64],
            final(self).current_bet == 0,
            final(self).last_raiser is None,
            final(self).stage == spec_next_stage(old(self).stage),
            final(self).deck@ == old(self).deck@.take(
                old(self).deck@.len() - spec_deal_count(old(self).stage),
            ),
            final(self).community_cards@ == old(self).community_cards@ + Seq::new(
                spec_deal_count(old(self).stage) as nat,
                |i: int| old(self).deck@[old(self).deck@.len() - 1 - i],
            ),
            final(self).active_player == (match old(self).stage {
                PokerStage::PreFlop => old(self).dealer.spec_other(),
                PokerStage::Flop => old(self).dealer.spec_other(),
                PokerStage::Turn => old(self).dealer.spec_other(),
                PokerStage::River => old(self).active_player,
                PokerStage::Showdown => old(self).active_player,
            }),
            final(self).player_hands@ == old(self).player_hands@,
            final(self).pot == old(self).pot,
            final(self).player_chips@ == old(self).player_chips@,
            final(self).folded@ == old(self).folded@,
            final(self).all_in@ == old(self).all_in@,
            final(self).action_history@ == old(self).action_history@,
            final(self).dealer == old(self).dealer,
            final(self).round_complete == old(self).round_complete,
            final(self).small_blind == old(self).small_blind,
            final(self).big_blind == old(self).big_blind,
    {
        let ghost pre = *self;

        let mut fresh_bets: Vec<u64> = Vec::new();
        fresh_bets.push(0);
        fresh_bets.push(0);
        self.player_bets = fresh_bets;
        self.current_bet = 0;
        self.last_raiser = None;
        let ghost mid = *self;

        match self.stage {
            PokerStage::PreFlop => {
                self.stage = PokerStage::Flop;
                let mut d: usize = 0;
                while d < 3
                    invariant
                        d <= 3,
                        pre.wf(),
                        pre.stage == PokerStage::PreFlop,
                        pre.deck == mid.deck,
                        pre.community_cards == mid.community_cards,
                        self.deck@ == pre.deck@.take(pre.deck@.len() - d),
                        self.community_cards@ == pre.community_cards@ + Seq::new(
                            d as nat,
                            |i: int| pre.deck@[pre.deck@.len() - 1 - i],
                        ),
                        *self == (PokerGame {
                            deck: self.deck,
                            community_cards: self.community_cards,
                            stage: PokerStage::Flop,
                            ..mid
                        }),
                    decreases 3 - d,
                {
                    proof {
                        assert(pre.deck@.take(pre.deck@.len() - d).len() == pre.deck@.len() - d
                            > 0);
                    }
                    match self.deck.pop() {
                        Some(card) => {
                            proof {
                                assert(pre.deck@.take(pre.deck@.len() - d).last() == pre.deck@[
                                    pre.deck@.len() - 1 - d]);
                                assert(pre.deck@.take(pre.deck@.len() - d).drop_last()
                                    =~= pre.deck@.take(pre.deck@.len() - (d + 1)));
                            }
                            self.community_cards.push(card);
                            proof {
                                assert(self.community_cards@ =~= pre.community_cards@ + Seq::new(
                                    (d + 1) as nat,
                                    |i: int| pre.deck@[pre.deck@.len() - 1 - i],
                                ));
                            }
                        },
                        None => {},
                    }
                    d = d + 1;
                }
                self.active_player = self.dealer.other();
            },
            PokerStage::Flop => {
                self.stage = PokerStage::Turn;
                match self.deck.pop() {
                    Some(card) => {
                        self.community_cards.push(card);
                    },
                    None => {},
                }
                proof {
                    assert(self.deck@ =~= pre.deck@.take(pre.deck@.len() - 1));
                    assert(self.community_cards@ =~= pre.community_cards@ + Seq::new(
                        1,
                        |i: int| pre.deck@[pre.deck@.len() - 1 - i],
                    ));
                }
                self.active_player = self.dealer.other();
            },
            PokerStage::Turn => {
                self.stage = PokerStage::River;
                match self.deck.pop() {
                    Some(card) => {
                        self.community_cards.push(card);
                    },
                    None => {},
                }
                proof {
                    assert(self.deck@ =~= pre.deck@.take(pre.deck@.len() - 1));
                    assert(self.community_cards@ =~= pre.community_cards@ + Seq::new(
                        1,
                        |i: int| pre.deck@[pre.deck@.len() - 1 - i],
                    ));
                }
                self.active_player = self.dealer.other();
            },
            PokerStage::River => {
                self.stage = PokerStage::Showdown;
                proof {
                    assert(self.deck@ =~= pre.deck@.take(pre.deck@.len() - 0));
                    assert(self.community_cards@ =~= pre.community_cards@ + Seq::new(
                        0,
                        |i: int| pre.deck@[pre.deck@.len() - 1 - i],
                    ));
                }
            },
            PokerStage::Showdown => {
                proof {
                    assert(self.deck@ =~= pre.deck@.take(pre.deck@.len() - 0));
                    assert(self.community_cards@ =~= pre.community_cards@ + Seq::new(
                        0,
                        |i: int| pre.deck@[pre.deck@.len() - 1 - i],
                    ));
                }
            },
        }
        proof {
            assert(self.player_bets@ =~= seq![0u64, 0u64]);
        }
    }

    /// Compares the two showdown scores.
    pub fn determine_winner(&self) -> (r: Result<GameOutcome, String>)
        requires
            self.wf(),
        ensures
            r == Ok::<GameOutcome, String>(spec_showdown_outcome(*self)),
    {
        let p1_score = self.evaluate_hand(0);
        let p2_score = self.evaluate_hand(1);

        if p1_score > p2_score {
            Ok(GameOutcome::Winner(Player::One))
        } else if p2_score > p1_score {
            Ok(GameOutcome::Winner(Player::Two))
        } else {
            Ok(GameOutcome::Draw)
        }
    }
}

} // verus!
