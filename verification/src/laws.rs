//! What holds of the casino across its operations.
use crate::ledger::{
    claim_of, claims_sum, entries_wf, lemma_claim_le_sum, lemma_credit, lemma_remove_player,
};
use crate::math::{
    spec_dynamic_max, spec_free, spec_payout, spec_rake, spec_rake_bps, spec_roll, MAX_UNDER,
    MIN_UNDER, ROLL_MOD,
};
use crate::model::{
    after_claim, after_place_bet, after_resolve, after_skim, after_start_round, balance_of,
    bet_winnings, credit_round, lemma_payout_nonneg, lemma_winnings_bounds, place_bet_error,
    resolve_error, player_winnings, rake_after_skim, resolve_seed, round_winnings, skim_error,
    skim_sent, stake_payout, start_round_error, Balances, Bet, CasinoError, CasinoView,
};
use crate::token::{Address, TokenIdView};
use vstd::arithmetic::div_mod::{lemma_div_multiples_vanish_quotient, lemma_fundamental_div_mod};
use vstd::prelude::*;

verus! {

/// Every roll is a face of a 100-sided die: 0 to 99.
pub proof fn law_roll_is_die_face(seed: u64, index: u64)
    ensures
        0 <= spec_roll(seed, index) < ROLL_MOD,
{
}

/// The house edge: for every accepted `under`, the payout of a win, weighted by
/// the chance `under / 100` of winning, is at most 95% of the net stake. The
/// rounding of the payout never favours the player.
pub proof fn law_house_edge(amount: int, under: int)
    requires
        amount >= 0,
        MIN_UNDER <= under <= MAX_UNDER,
    ensures
        spec_payout(amount, under) * under <= amount * 95,
{
    let x = amount * 100 / under;
    lemma_fundamental_div_mod(amount * 100, under);
    assert(x * under <= amount * 100) by (nonlinear_arith)
        requires
            x == amount * 100 / under,
            amount * 100 == under * (amount * 100 / under) + (amount * 100) % under,
            (amount * 100) % under >= 0,
    ;
    let p = x * 9500 / 10000;
    lemma_fundamental_div_mod(x * 9500, 10000);
    assert(x >= 0) by (nonlinear_arith)
        requires
            x == amount * 100 / under,
            amount >= 0,
            under > 0,
    ;
    assert(p * 10000 <= x * 9500) by (nonlinear_arith)
        requires
            p == x * 9500 / 10000,
            x * 9500 == 10000 * (x * 9500 / 10000) + (x * 9500) % 10000,
            (x * 9500) % 10000 >= 0,
    ;
    assert(p * under * 10000 <= amount * 95 * 10000) by (nonlinear_arith)
        requires
            p * 10000 <= x * 9500,
            x * under <= amount * 100,
            under > 0,
            x >= 0,
    ;
    assert(p * under <= amount * 95) by (nonlinear_arith)
        requires
            p * under * 10000 <= amount * 95 * 10000,
    ;
}

/// The rake is 4% of an EGLD stake and 2% of a ROAR stake, rounded down.
pub proof fn law_rake_rates(amount: int)
    requires
        amount >= 0,
    ensures
        spec_rake(amount, spec_rake_bps(false) as int) == amount * 4 / 100,
        spec_rake(amount, spec_rake_bps(true) as int) == amount * 2 / 100,
{
    lemma_div_multiples_vanish_quotient(100, amount * 4, 100);
    lemma_div_multiples_vanish_quotient(100, amount * 2, 100);
    assert(100 * (amount * 4) == amount * 400) by (nonlinear_arith);
    assert(100 * (amount * 2) == amount * 200) by (nonlinear_arith);
}

/// The dynamic bet limit lies between the minimum bet and the cap, and when
/// it is above the minimum it is at most 2% of the free bankroll, so no
/// single bet can drain the bankroll.
pub proof fn law_dynamic_max_bounds(free: int, min: int, cap: int)
    requires
        0 <= free,
        0 < min <= cap,
    ensures
        min <= spec_dynamic_max(free, min, cap) <= cap,
        spec_dynamic_max(free, min, cap) > min ==> spec_dynamic_max(free, min, cap) * 50 <= free,
{
    let fb = free * 200 / 10000;
    lemma_div_multiples_vanish_quotient(200, free, 50);
    assert(200 * free == free * 200) by (nonlinear_arith);
    assert(fb == free / 50);
    lemma_fundamental_div_mod(free, 50);
}

/// A skim only ever sends the surplus above twice the minimum bankroll, and
/// at most half of it plus the accrued rake. Once the treasury has been paid,
/// each free bankroll is still at least its former value or the buffer,
/// whichever is smaller.
pub proof fn law_skim_keeps_buffer(s: CasinoView, b: Balances, is_roar: bool)
    requires
        s.inv(),
        skim_error(s) == None::<CasinoError>,
    ensures
        ({
            let sent = skim_sent(s, is_roar, b);
            let free = s.free(is_roar, b);
            let buffer = s.min_bankroll(is_roar) * 2;
            let after = after_skim(s, b);
            let balance_after = balance_of(b, is_roar) - sent;
            &&& free <= buffer ==> sent == 0
            &&& free > buffer ==> 0 <= sent <= free - buffer
            &&& free > buffer ==> sent <= (free - buffer) / 2 + s.rake_accrued(is_roar)
            &&& balance_after >= 0
            &&& spec_free(balance_after, after.reserved(is_roar)) >= (if free <= buffer {
                free
            } else {
                buffer
            })
        }),
{
    let sent = skim_sent(s, is_roar, b);
    let after = after_skim(s, b);
    assert(after.reserved(is_roar) == s.reserved(is_roar) - s.rake_accrued(is_roar)
        + rake_after_skim(s.rake_accrued(is_roar), sent));
}

/// The set-aside winnings always equal the sum of what players can claim, in
/// each token, so no player's claim exceeds them. Every operation keeps this
/// (each one ensures the invariant `inv` of the state it leaves).
pub proof fn law_claims_match_total(s: CasinoView, player: Address)
    requires
        s.inv(),
    ensures
        s.total_claimable_egld == claims_sum(s.claimable_egld),
        s.total_claimable_roar == claims_sum(s.claimable_roar),
        claim_of(s.claimable_egld, player) <= s.total_claimable_egld,
        claim_of(s.claimable_roar, player) <= s.total_claimable_roar,
{
    lemma_claim_le_sum(s.claimable_egld, player);
    lemma_claim_le_sum(s.claimable_roar, player);
}

/// A claim pays out everything: right after it the player can claim nothing
/// more, in either token, and every other player's claims are unchanged.
pub proof fn law_claim_empties(s: CasinoView, player: Address, other: Address)
    requires
        s.inv(),
    ensures
        claim_of(after_claim(s, player).claimable_egld, player) == 0,
        claim_of(after_claim(s, player).claimable_roar, player) == 0,
        other != player ==> claim_of(after_claim(s, player).claimable_egld, other) == claim_of(
            s.claimable_egld,
            other,
        ),
        other != player ==> claim_of(after_claim(s, player).claimable_roar, other) == claim_of(
            s.claimable_roar,
            other,
        ),
        after_claim(s, player).inv(),
{
    lemma_remove_player(s.claimable_egld, player);
    lemma_remove_player(s.claimable_roar, player);
    lemma_claim_le_sum(s.claimable_egld, player);
    lemma_claim_le_sum(s.claimable_roar, player);
}

/// Crediting the first `n` bets: the entries stay well formed, the sum grows
/// by the round's winnings, and each player's claim grows by their own.
proof fn lemma_credit_round(
    entries: Seq<crate::ledger::ClaimEntry>,
    bets: Seq<Bet>,
    seed: u64,
    is_roar: bool,
    player: Address,
    n: int,
    total: int,
)
    requires
        0 <= n <= total,
        total <= bets.len(),
        entries_wf(entries),
        forall|j: int| 0 <= j < bets.len() ==> #[trigger] bets[j].under > 0,
        claims_sum(entries) + round_winnings(bets, seed, is_roar, total) <= u128::MAX,
    ensures
        entries_wf(credit_round(entries, bets, seed, is_roar, n)),
        claims_sum(credit_round(entries, bets, seed, is_roar, n)) == claims_sum(entries)
            + round_winnings(bets, seed, is_roar, n),
        claim_of(credit_round(entries, bets, seed, is_roar, n), player) == claim_of(entries, player)
            + player_winnings(bets, seed, is_roar, player, n),
    decreases n,
{
    if n > 0 {
        lemma_credit_round(entries, bets, seed, is_roar, player, n - 1, total);
        lemma_winnings_bounds(bets, seed, is_roar, n, total);
        lemma_winnings_bounds(bets, seed, is_roar, n - 1, n);
        let b = bets[n - 1];
        lemma_payout_nonneg(b.amount as int, b.under as int);
        let prev = credit_round(entries, bets, seed, is_roar, n - 1);
        lemma_credit(prev, b.player, bet_winnings(b, seed, n, is_roar));
    }
}

/// A resolve makes every winning bet's payout claimable by its player, in the
/// bet's token, on top of what they could already claim.
pub proof fn law_resolve_credits_players(
    s: CasinoView,
    random: u64,
    b: Balances,
    player: Address,
)
    requires
        s.inv(),
    ensures
        ({
            let seed = resolve_seed(s, random);
            let n = s.bets.len() as int;
            let after = after_resolve(s, random, b);
            &&& claim_of(after.claimable_egld, player) == claim_of(s.claimable_egld, player)
                + player_winnings(s.bets, seed, false, player, n)
            &&& claim_of(after.claimable_roar, player) == claim_of(s.claimable_roar, player)
                + player_winnings(s.bets, seed, true, player, n)
        }),
{
    let seed = resolve_seed(s, random);
    let n = s.bets.len() as int;
    lemma_winnings_bounds(s.bets, seed, false, n, n);
    lemma_winnings_bounds(s.bets, seed, true, n, n);
    assert forall|j: int| 0 <= j < s.bets.len() implies #[trigger] s.bets[j].under > 0 by {
        assert(MIN_UNDER <= s.bets[j].under);
    }
    lemma_credit_round(s.claimable_egld, s.bets, seed, false, player, n, n);
    lemma_credit_round(s.claimable_roar, s.bets, seed, true, player, n, n);
}

/// Payouts were reserved when the bets were taken: a resolve never sets aside
/// more than before, so it never shrinks a free bankroll. It settles every
/// bet, each winning exactly when its roll is under its `under`, and leaves no
/// seed behind, so the next round is not held up.
pub proof fn law_resolve_within_reserve(s: CasinoView, random: u64, b: Balances, is_roar: bool)
    requires
        s.inv(),
    ensures
        ({
            let after = after_resolve(s, random, b);
            &&& after.reserved(is_roar) <= s.reserved(is_roar)
            &&& after.free(is_roar, b) >= s.free(is_roar, b)
            &&& after.all_settled()
            &&& !after.has_unsettled()
            &&& forall|i: int|
                0 <= i < after.bets.len() ==> #[trigger] after.bets[i].won == (after.bets[i].roll
                    < after.bets[i].under) && after.bets[i].roll < ROLL_MOD
        }),
{
    let seed = resolve_seed(s, random);
    let n = s.bets.len() as int;
    assert forall|j: int| 0 <= j < s.bets.len() implies #[trigger] s.bets[j].under > 0 by {
        assert(MIN_UNDER <= s.bets[j].under);
    }
    lemma_winnings_bounds(s.bets, seed, is_roar, n, n);
    let after = after_resolve(s, random, b);
    assert forall|i: int| 0 <= i < after.bets.len() implies #[trigger] after.bets[i].won == (
    after.bets[i].roll < after.bets[i].under) && after.bets[i].roll < ROLL_MOD by {
        if !s.bets[i].settled {
            law_roll_is_die_face(seed, (i + 1) as u64);
        }
    }
}

/// A bet is accepted only within the limits: game not paused, `under` in
/// 2..=96, stake between the minimum bet and both the cap and the dynamic
/// limit. Its payout is reserved at once, and the contract then still holds
/// every reserved payout plus the minimum bankroll.
pub proof fn law_accepted_bet_is_covered(
    s: CasinoView,
    player: Address,
    under: u64,
    token: TokenIdView,
    nonce: u64,
    amount: u128,
    block_nonce: u64,
    b: Balances,
)
    requires
        s.inv(),
        place_bet_error(s, under, token, nonce, amount, block_nonce, b) == None::<CasinoError>,
    ensures
        ({
            let is_roar = !(token is Egld);
            let after = after_place_bet(s, player, under, is_roar, amount);
            &&& !s.is_paused
            &&& MIN_UNDER <= under <= MAX_UNDER
            &&& s.min_bet(is_roar) <= amount <= s.cap_max(is_roar)
            &&& amount <= s.dynamic_max(is_roar, b)
            &&& after.liability(is_roar) == s.liability(is_roar) + stake_payout(amount, under, is_roar)
            &&& balance_of(b, is_roar) >= s.reserved(is_roar) + stake_payout(amount, under, is_roar)
                + s.min_bankroll(is_roar)
            &&& after.inv()
        }),
{
    law_bet_books_stake(s, player, under, token, amount);
    let is_roar = !(token is Egld);
    let after = after_place_bet(s, player, under, is_roar, amount);
    let rake = crate::model::stake_rake(amount, is_roar);
    crate::model::lemma_stake_rake_bounds(amount, is_roar);
    let bet = Bet {
        player,
        amount: (amount - rake) as u128,
        under,
        is_roar,
        settled: false,
        won: false,
        roll: 0,
    };
    crate::model::lemma_unsettled_push(s.bets, bet, false, s.bets.len() as int);
    crate::model::lemma_unsettled_push(s.bets, bet, true, s.bets.len() as int);
    assert(s.bets.push(bet)[s.bets.len() as int] == bet);
    assert forall|i: int| 0 <= i < after.bets.len() implies MIN_UNDER <= #[trigger] after.bets[i].under
        <= MAX_UNDER by {
        if i < s.bets.len() {
            assert(after.bets[i] == s.bets[i]);
        }
    }
    assert forall|i: int|
        0 <= i < after.bets.len() && #[trigger] after.bets[i].settled implies after.bets[i].won == (
        after.bets[i].roll < after.bets[i].under) && after.bets[i].roll < ROLL_MOD by {
        if i < s.bets.len() {
            assert(after.bets[i] == s.bets[i]);
        }
    }
    assert(after.bets.len() <= crate::math::MAX_BETS_PER_RESOLVE);
}

/// While paused, no round starts and no bet is taken.
pub proof fn law_paused_refuses(
    s: CasinoView,
    under: u64,
    token: TokenIdView,
    nonce: u64,
    amount: u128,
    block_nonce: u64,
    b: Balances,
)
    requires
        s.is_paused,
    ensures
        start_round_error(s, block_nonce, b) == Some(CasinoError::Paused),
        place_bet_error(s, under, token, nonce, amount, block_nonce, b) == Some(
            CasinoError::Paused,
        ),
{
}

/// Each new round gets the next id, starts empty with nothing reserved, and
/// takes bets for `round_blocks` blocks.
pub proof fn law_round_ids_increase(s: CasinoView, block_nonce: u64, b: Balances)
    requires
        s.inv(),
        start_round_error(s, block_nonce, b) == None::<CasinoError>,
    ensures
        after_start_round(s, block_nonce).round_id == s.round_id + 1,
        after_start_round(s, block_nonce).round_end_block == block_nonce + s.round_blocks,
        after_start_round(s, block_nonce).bets.len() == 0,
        after_start_round(s, block_nonce).reserved(false) == s.total_claimable_egld
            + s.rake_accrued_egld,
        after_start_round(s, block_nonce).reserved(true) == s.total_claimable_roar
            + s.rake_accrued_roar,
        after_start_round(s, block_nonce).inv(),
{
}

/// A resolve pauses the game exactly when it was paused already or both free
/// bankrolls end below their minimum; one thin bankroll alone does not pause.
pub proof fn law_auto_pause(s: CasinoView, random: u64, b: Balances)
    ensures
        ({
            let after = after_resolve(s, random, b);
            after.is_paused == (s.is_paused || (after.free(false, b) < after.min_bankroll_egld
                && after.free(true, b) < after.min_bankroll_roar))
        }),
{
}

/// Winnings are paid in the token of the bet, and only to an unsettled bet
/// whose roll is under its `under`.
pub proof fn law_payout_same_token(bet: Bet, seed: u64, index: int, is_roar: bool)
    requires
        bet.under > 0,
    ensures
        bet_winnings(bet, seed, index, is_roar) >= 0,
        bet_winnings(bet, seed, index, is_roar) > 0 ==> bet.is_roar == is_roar && !bet.settled
            && spec_roll(seed, index as u64) < bet.under,
{
    lemma_payout_nonneg(bet.amount as int, bet.under as int);
}

/// A resolve finishes the round: right after it, another resolve is refused
/// as having nothing to resolve, whatever the block, so no bet is rolled
/// twice and no winnings are credited twice.
pub proof fn law_second_resolve_refused(s: CasinoView, random: u64, b: Balances, block_nonce: u64)
    requires
        s.inv(),
    ensures
        resolve_error(after_resolve(s, random, b), block_nonce) == Some(
            CasinoError::NothingToResolve,
        ),
{
}

/// What one bet wins at a resolve, from its own fields: an unsettled bet in
/// the credited token whose roll `((seed * 1_000_003 + index) mod 2^64) mod 100`
/// is under its `under` wins its full payout `(amount * 100 / under) * 9500 /
/// 10000`; every other bet wins nothing in that token.
pub proof fn law_bet_winnings_exact(bet: Bet, seed: u64, index: u64, is_roar: bool)
    ensures
        ({
            let roll = ((seed as int * 1_000_003 + index as int) % 0x1_0000_0000_0000_0000) % 100;
            let payout = (bet.amount as int * 100 / bet.under as int) * 9500 / 10000;
            &&& (!bet.settled && bet.is_roar == is_roar && roll < bet.under) ==> bet_winnings(
                bet,
                seed,
                index as int,
                is_roar,
            ) == payout
            &&& !(!bet.settled && bet.is_roar == is_roar && roll < bet.under) ==> bet_winnings(
                bet,
                seed,
                index as int,
                is_roar,
            ) == 0
        }),
{
}

/// A player's winnings over the first `n` bets include those of each of
/// their bets among them.
proof fn lemma_player_winnings_includes(
    bets: Seq<Bet>,
    seed: u64,
    is_roar: bool,
    player: Address,
    i: int,
    n: int,
)
    requires
        0 <= i < n <= bets.len(),
        forall|j: int| 0 <= j < bets.len() ==> #[trigger] bets[j].under > 0,
        bets[i].player == player,
    ensures
        player_winnings(bets, seed, is_roar, player, n) >= bet_winnings(
            bets[i],
            seed,
            i + 1,
            is_roar,
        ),
        player_winnings(bets, seed, is_roar, player, n) >= 0,
    decreases n,
{
    let b = bets[n - 1];
    lemma_payout_nonneg(b.amount as int, b.under as int);
    lemma_player_winnings_nonneg(bets, seed, is_roar, player, n - 1);
    if i < n - 1 {
        lemma_player_winnings_includes(bets, seed, is_roar, player, i, n - 1);
    }
}

/// A player's winnings are never negative.
proof fn lemma_player_winnings_nonneg(
    bets: Seq<Bet>,
    seed: u64,
    is_roar: bool,
    player: Address,
    n: int,
)
    requires
        0 <= n <= bets.len(),
        forall|j: int| 0 <= j < bets.len() ==> #[trigger] bets[j].under > 0,
    ensures
        player_winnings(bets, seed, is_roar, player, n) >= 0,
    decreases n,
{
    if n > 0 {
        let b = bets[n - 1];
        lemma_payout_nonneg(b.amount as int, b.under as int);
        lemma_player_winnings_nonneg(bets, seed, is_roar, player, n - 1);
    }
}

/// Every winning bet is paid: after a resolve, the player of each unsettled
/// bet whose roll is under its `under` can claim, in the bet's token, at
/// least what they could before plus the bet's full payout
/// `(net stake * 100 / under) * 9500 / 10000`.
pub proof fn law_resolve_pays_each_winner(s: CasinoView, random: u64, b: Balances, i: int)
    requires
        s.inv(),
        0 <= i < s.bets.len(),
        !s.bets[i].settled,
        ((resolve_seed(s, random) as int * 1_000_003 + (i + 1)) % 0x1_0000_0000_0000_0000) % 100
            < s.bets[i].under,
    ensures
        ({
            let bet = s.bets[i];
            let after = after_resolve(s, random, b);
            claim_of(after.claimable(bet.is_roar), bet.player) >= claim_of(
                s.claimable(bet.is_roar),
                bet.player,
            ) + (bet.amount as int * 100 / bet.under as int) * 9500 / 10000
        }),
{
    let seed = resolve_seed(s, random);
    let n = s.bets.len() as int;
    let bet = s.bets[i];
    law_resolve_credits_players(s, random, b, bet.player);
    assert forall|j: int| 0 <= j < s.bets.len() implies #[trigger] s.bets[j].under > 0 by {
        assert(MIN_UNDER <= s.bets[j].under);
    }
    lemma_player_winnings_includes(s.bets, seed, bet.is_roar, bet.player, i, n);
    law_bet_winnings_exact(bet, seed, (i + 1) as u64, bet.is_roar);
}

/// A bet is judged on its own token alone: with the same state and the same
/// balance of the bet's token, the answer does not depend on the other
/// token's balance.
pub proof fn law_bet_ignores_other_bankroll(
    s: CasinoView,
    under: u64,
    token: TokenIdView,
    nonce: u64,
    amount: u128,
    block_nonce: u64,
    b1: Balances,
    b2: Balances,
)
    requires
        balance_of(b1, !(token is Egld)) == balance_of(b2, !(token is Egld)),
    ensures
        place_bet_error(s, under, token, nonce, amount, block_nonce, b1) == place_bet_error(
            s,
            under,
            token,
            nonce,
            amount,
            block_nonce,
            b2,
        ),
{
}

/// A bet whose conditions all hold is accepted: game not paused, round open
/// and still taking bets, `under` in 2..=96, room in the round, an accepted
/// token (EGLD, or fungible ROAR), a stake between the minimum and both the
/// cap and 2% of the token's free bankroll (balance less funds set aside,
/// clamped to the minimum and the cap), and a balance that still covers what
/// is set aside, the new payout and the minimum bankroll of that token.
pub proof fn law_valid_bet_accepted(
    s: CasinoView,
    under: u64,
    token: TokenIdView,
    nonce: u64,
    amount: u128,
    block_nonce: u64,
    b: Balances,
)
    requires
        ({
            let is_roar = !(token is Egld);
            let bal = if is_roar { b.roar as int } else { b.egld as int };
            let reserved = if is_roar {
                s.total_claimable_roar + s.round_liability_roar + s.rake_accrued_roar
            } else {
                s.total_claimable_egld + s.round_liability_egld + s.rake_accrued_egld
            };
            let min = if is_roar { s.min_bet_roar as int } else { s.min_bet_egld as int };
            let cap = if is_roar { s.cap_max_roar as int } else { s.cap_max_egld as int };
            let min_bankroll = if is_roar {
                s.min_bankroll_roar as int
            } else {
                s.min_bankroll_egld as int
            };
            let free = if bal > reserved { bal - reserved } else { 0 };
            let from_bank = free * 200 / 10000;
            let limit = if from_bank < min { min } else if from_bank < cap { from_bank } else { cap };
            let rake = amount as int * (if is_roar { 200int } else { 400int }) / 10000;
            let payout = ((amount - rake) * 100 / under as int) * 9500 / 10000;
            &&& !s.is_paused
            &&& s.round_open
            &&& block_nonce < s.round_end_block
            &&& 2 <= under <= 96
            &&& s.bets.len() < 50
            &&& is_roar ==> token == TokenIdView::Esdt(s.roar_token) && nonce == 0
            &&& min <= amount <= cap
            &&& amount <= limit
            &&& bal >= reserved + payout + min_bankroll
            &&& reserved + payout + rake <= u128::MAX
        }),
    ensures
        place_bet_error(s, under, token, nonce, amount, block_nonce, b) == None::<CasinoError>,
{
    crate::model::lemma_stake_rake_bounds(amount, !(token is Egld));
}

/// What a skim sends in one token: nothing while the free bankroll (balance
/// less funds set aside) is at most twice the minimum bankroll; above it,
/// exactly the smaller of the surplus and half the surplus plus the accrued
/// rake.
pub proof fn law_skim_amount_exact(s: CasinoView, b: Balances, is_roar: bool)
    ensures
        ({
            let bal = if is_roar { b.roar as int } else { b.egld as int };
            let accrued = if is_roar {
                s.rake_accrued_roar as int
            } else {
                s.rake_accrued_egld as int
            };
            let reserved = if is_roar {
                s.total_claimable_roar + s.round_liability_roar + s.rake_accrued_roar
            } else {
                s.total_claimable_egld + s.round_liability_egld + s.rake_accrued_egld
            };
            let free = if bal > reserved { bal - reserved } else { 0 };
            let buffer = 2 * (if is_roar {
                s.min_bankroll_roar as int
            } else {
                s.min_bankroll_egld as int
            });
            let surplus = free - buffer;
            let sent = skim_sent(s, is_roar, b);
            &&& free <= buffer ==> sent == 0
            &&& free > buffer && surplus <= surplus / 2 + accrued ==> sent == surplus
            &&& free > buffer && surplus > surplus / 2 + accrued ==> sent == surplus / 2 + accrued
        }),
{
}

/// The bet limit follows the free bankroll (balance less funds set aside), not
/// the balance: it is the minimum bet when 2% of the free bankroll is below
/// it, and otherwise 2% of the free bankroll capped at the hard cap.
pub proof fn law_dynamic_max_of_free_bankroll(s: CasinoView, b: Balances, is_roar: bool)
    requires
        s.inv(),
    ensures
        ({
            let bal = if is_roar { b.roar as int } else { b.egld as int };
            let reserved = if is_roar {
                s.total_claimable_roar + s.round_liability_roar + s.rake_accrued_roar
            } else {
                s.total_claimable_egld + s.round_liability_egld + s.rake_accrued_egld
            };
            let free = if bal > reserved { bal - reserved } else { 0 };
            let min = if is_roar { s.min_bet_roar as int } else { s.min_bet_egld as int };
            let cap = if is_roar { s.cap_max_roar as int } else { s.cap_max_egld as int };
            let limit = s.dynamic_max(is_roar, b);
            &&& free / 50 < min ==> limit == min
            &&& min <= free / 50 <= cap ==> limit == free / 50
            &&& cap < free / 50 ==> limit == cap
            &&& limit > min ==> limit * 50 <= free
        }),
{
    let bal = if is_roar { b.roar as int } else { b.egld as int };
    let free = s.free(is_roar, b);
    assert(free >= 0);
    lemma_div_multiples_vanish_quotient(200, free, 50);
    assert(200 * free == free * 200) by (nonlinear_arith);
    lemma_fundamental_div_mod(free, 50);
}

/// A round starts when nothing stands in its way: not paused, no round open,
/// nothing left unsettled, room in the counters, and at least one of the two
/// free bankrolls (balance less funds set aside) at or above its minimum. It
/// is refused as thin only when both are below their minimum.
pub proof fn law_round_starts_with_one_bankroll(s: CasinoView, block_nonce: u64, b: Balances)
    requires
        !s.is_paused,
        !s.round_open,
        !s.has_unsettled(),
        s.round_id < u64::MAX,
        block_nonce + s.round_blocks <= u64::MAX,
    ensures
        ({
            let res_e = s.total_claimable_egld + s.round_liability_egld + s.rake_accrued_egld;
            let res_r = s.total_claimable_roar + s.round_liability_roar + s.rake_accrued_roar;
            let free_e = if b.egld > res_e { b.egld - res_e } else { 0 };
            let free_r = if b.roar > res_r { b.roar - res_r } else { 0 };
            &&& (free_e >= s.min_bankroll_egld || free_r >= s.min_bankroll_roar)
                ==> start_round_error(s, block_nonce, b) == None::<CasinoError>
            &&& (free_e < s.min_bankroll_egld && free_r < s.min_bankroll_roar)
                ==> start_round_error(s, block_nonce, b) == Some(CasinoError::BankrollThin)
        }),
{
}

/// What an accepted bet books, from its stake: the rake (4% of an EGLD
/// stake, 2% of a ROAR one, rounded down) accrues; the payout
/// `((stake - rake) * 100 / under) * 9500 / 10000` is added to the round's
/// reservation of that token (for any `under` above zero; other values are
/// refused before); the bet joins the round, unsettled, with the
/// stake net of rake; nothing of the other token changes.
pub proof fn law_bet_books_stake(
    s: CasinoView,
    player: Address,
    under: u64,
    token: TokenIdView,
    amount: u128,
)
    requires
        under > 0,
    ensures
        ({
            let is_roar = !(token is Egld);
            let rake = amount as int * (if is_roar { 200int } else { 400int }) / 10000;
            let payout = ((amount - rake) * 100 / under as int) * 9500 / 10000;
            let after = after_place_bet(s, player, under, is_roar, amount);
            let bet = after.bets.last();
            &&& after.bets.len() == s.bets.len() + 1
            &&& after.bets.drop_last() == s.bets
            &&& bet.player == player && bet.under == under && bet.is_roar == is_roar
            &&& bet.amount == amount - rake && !bet.settled
            &&& is_roar ==> after.rake_accrued_roar == s.rake_accrued_roar + rake
                && after.round_liability_roar == s.round_liability_roar + payout
                && after.rake_accrued_egld == s.rake_accrued_egld
                && after.round_liability_egld == s.round_liability_egld
            &&& !is_roar ==> after.rake_accrued_egld == s.rake_accrued_egld + rake
                && after.round_liability_egld == s.round_liability_egld + payout
                && after.rake_accrued_roar == s.rake_accrued_roar
                && after.round_liability_roar == s.round_liability_roar
            &&& after.total_claimable_egld == s.total_claimable_egld
            &&& after.total_claimable_roar == s.total_claimable_roar
        }) || ({
            // a stake whose rake, payout or reservation does not fit a u128
            // is refused before it is booked
            let is_roar = !(token is Egld);
            let rake = amount as int * (if is_roar { 200int } else { 400int }) / 10000;
            let payout = ((amount - rake) * 100 / under as int) * 9500 / 10000;
            s.reserved(is_roar) + payout + rake > u128::MAX
        }),
{
    let is_roar = !(token is Egld);
    crate::model::lemma_stake_rake_bounds(amount, is_roar);
    let after = after_place_bet(s, player, under, is_roar, amount);
    assert(after.bets.drop_last() =~= s.bets);
    let rake = amount as int * (if is_roar { 200int } else { 400int }) / 10000;
    let payout = ((amount - rake) * 100 / under as int) * 9500 / 10000;
    assert(rake == crate::model::stake_rake(amount, is_roar));
    assert(payout == stake_payout(amount, under, is_roar));
    if s.reserved(is_roar) + payout + rake <= u128::MAX {
        assert(payout >= 0) by (nonlinear_arith)
            requires
                payout == ((amount - rake) * 100 / under as int) * 9500 / 10000,
                amount - rake >= 0,
                under > 0,
        ;
    }
}

/// A skim is paid out of the accrued rake first: the rake left is the rake
/// less what was sent, or zero when the skim took more than the rake.
pub proof fn law_skim_takes_rake_first(s: CasinoView, b: Balances)
    ensures
        ({
            let after = after_skim(s, b);
            let sent_e = skim_sent(s, false, b);
            let sent_r = skim_sent(s, true, b);
            &&& after.rake_accrued_egld == (if s.rake_accrued_egld > sent_e {
                s.rake_accrued_egld - sent_e
            } else {
                0
            })
            &&& after.rake_accrued_roar == (if s.rake_accrued_roar > sent_r {
                s.rake_accrued_roar - sent_r
            } else {
                0
            })
            &&& after.total_claimable_egld == s.total_claimable_egld
            &&& after.round_liability_egld == s.round_liability_egld
            &&& after.total_claimable_roar == s.total_claimable_roar
            &&& after.round_liability_roar == s.round_liability_roar
        }),
{
}

} // verus!
