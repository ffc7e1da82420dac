//! The casino's numbers: rake, payout, dice roll, bankroll limits and skim.
use vstd::arithmetic::div_mod::{
    lemma_div_multiples_vanish_quotient, lemma_fundamental_div_mod,
    lemma_fundamental_div_mod_converse,
};
use vstd::prelude::*;

verus! {

/// House edge on payouts, in basis points (5%).
pub const HOUSE_EDGE_BPS: u64 = 500;

/// Rake taken on a ROAR bet, in basis points (2%).
pub const RAKE_ROAR_BPS: u64 = 200;

/// Rake taken on an EGLD bet, in basis points (4%).
pub const RAKE_EGLD_BPS: u64 = 400;

/// One whole, in basis points.
pub const BPS_DENOM: u64 = 10_000;

/// Smallest accepted `under`.
pub const MIN_UNDER: u64 = 2;

/// Largest accepted `under`.
pub const MAX_UNDER: u64 = 96;

/// The dice has this many faces: rolls are 0 to 99.
pub const ROLL_MOD: u64 = 100;

/// Most bets a round takes, and most bets one resolve call settles.
pub const MAX_BETS_PER_RESOLVE: usize = 50;

/// The dynamic bet limit, as basis points of the free bankroll (2%).
pub const MAX_BET_FREE_BPS: u64 = 200;

/// Skimming starts above this multiple of the minimum bankroll.
pub const SKIM_BUFFER_MULT: u32 = 2;

/// Multiplier of the per-bet roll derivation.
pub const ROLL_SEED_MULT: u64 = 1_000_003;

/// The rake, in basis points, for a bet in ROAR (`true`) or in EGLD (`false`).
pub open spec fn spec_rake_bps(is_roar: bool) -> u64 {
    if is_roar {
        RAKE_ROAR_BPS
    } else {
        RAKE_EGLD_BPS
    }
}

/// The rake on `amount` at `bps` basis points, rounded down.
pub open spec fn spec_rake(amount: int, bps: int) -> int {
    amount * bps / (BPS_DENOM as int)
}

/// The payout of a winning bet of `amount` at `under`: the fair multiple
/// `100 / under`, less the house edge, each division rounded down as the
/// chain's integer arithmetic does.
pub open spec fn spec_payout(amount: int, under: int) -> int {
    (amount * (ROLL_MOD as int) / under) * ((BPS_DENOM - HOUSE_EDGE_BPS) as int) / (BPS_DENOM as int)
}

/// The roll of the bet at (1-based) `index` under the round seed `seed`:
/// `(seed * 1_000_003 + index) mod 2^64`, then `mod 100`.
pub open spec fn spec_roll(seed: u64, index: u64) -> int {
    ((seed as int * ROLL_SEED_MULT as int + index as int) % 0x1_0000_0000_0000_0000) % (ROLL_MOD as int)
}

/// What is left of `balance` once `reserved` is set aside (never below zero).
pub open spec fn spec_free(balance: int, reserved: int) -> int {
    if balance > reserved {
        balance - reserved
    } else {
        0
    }
}

/// The largest bet accepted: 2% of the free bankroll, but at least `min`
/// and at most `cap` (the lower bound wins when they cross).
pub open spec fn spec_dynamic_max(free: int, min: int, cap: int) -> int {
    let from_bank = free * (MAX_BET_FREE_BPS as int) / (BPS_DENOM as int);
    if from_bank < min {
        min
    } else if from_bank < cap {
        from_bank
    } else {
        cap
    }
}

/// What one skim sends to the treasury: nothing while the free bankroll is
/// at most `buffer`; above it, half of the surplus plus the accrued rake,
/// but never more than the surplus.
pub open spec fn spec_skim(free: int, buffer: int, accrued: int) -> int {
    if free <= buffer {
        0
    } else {
        let extra = free - buffer;
        if extra > accrued {
            if extra / 2 + accrued > extra {
                extra
            } else {
                extra / 2 + accrued
            }
        } else {
            extra
        }
    }
}

/// `(a * b) / c` splits over the quotient and remainder of `a` by `c`.
proof fn lemma_mul_div_split(a: int, b: int, c: int)
    requires
        0 <= a,
        0 <= b,
        0 < c,
    ensures
        a * b / c == (a / c) * b + ((a % c) * b) / c,
        0 <= (a % c) * b,
        (a % c) * b < c * b || b == 0,
{
    let q = a / c;
    let r = a % c;
    lemma_fundamental_div_mod(a, c);
    assert(0 <= r < c);
    assert(a * b == (q * b) * c + r * b) by (nonlinear_arith)
        requires
            a == c * q + r,
    ;
    assert(0 <= r * b) by (nonlinear_arith)
        requires
            0 <= r,
            0 <= b,
    ;
    assert((a % c) * b < c * b || b == 0) by (nonlinear_arith)
        requires
            0 <= r < c,
            0 <= b,
            r == a % c,
    ;
    let q2 = (r * b) / c;
    let r2 = (r * b) % c;
    lemma_fundamental_div_mod(r * b, c);
    assert(a * b == (q * b + q2) * c + r2) by (nonlinear_arith)
        requires
            a * b == (q * b) * c + r * b,
            r * b == c * q2 + r2,
    ;
    lemma_fundamental_div_mod_converse(a * b, c, q * b + q2, r2);
}

/// The rake on `amount` at `bps` basis points, computed without overflow.
pub fn rake_of(amount: u128, bps: u64) -> (r: u128)
    requires
        bps <= BPS_DENOM,
    ensures
        r == spec_rake(amount as int, bps as int),
        r <= amount,
{
    let d: u128 = 10_000;
    let q = amount / d;
    let m = amount % d;
    proof {
        lemma_mul_div_split(amount as int, bps as int, 10_000);
        assert(q * bps <= amount) by (nonlinear_arith)
            requires
                q == amount / 10_000,
                bps <= 10_000,
                amount >= 0,
        ;
        assert(m * bps < 100_000_000) by (nonlinear_arith)
            requires
                m < 10_000,
                bps <= 10_000,
        ;
        assert(amount * bps / 10_000 <= amount) by (nonlinear_arith)
            requires
                bps <= 10_000,
                amount >= 0,
        ;
    }
    let hi = q * (bps as u128);
    let lo = (m * (bps as u128)) / d;
    hi + lo
}

/// The rake on a bet of `amount`, for a ROAR (`true`) or EGLD (`false`) bet.
pub fn rake_for(amount: u128, is_roar: bool) -> (r: u128)
    ensures
        r == spec_rake(amount as int, spec_rake_bps(is_roar) as int),
        r <= amount,
{
    let bps = if is_roar {
        RAKE_ROAR_BPS
    } else {
        RAKE_EGLD_BPS
    };
    rake_of(amount, bps)
}

/// The payout of a winning bet of `amount` at `under`, or `None` exactly when
/// it does not fit in a `u128` (no balance could then cover it).
pub fn potential_payout(amount: u128, under: u64) -> (r: Option<u128>)
    requires
        under > 0,
    ensures
        match r {
            Some(p) => p == spec_payout(amount as int, under as int),
            None => spec_payout(amount as int, under as int) > u128::MAX,
        },
{
    let u = under as u128;
    let q = amount / u;
    let m = amount % u;
    let l = (m * 100) / u;
    proof {
        lemma_mul_div_split(amount as int, 100, under as int);
        assert(m * 100 < u * 100);
        assert((m * 100) as int / (u as int) < 100) by (nonlinear_arith)
            requires
                m * 100 < u * 100,
                u > 0,
                m >= 0,
        ;
        let x = amount as int * 100 / under as int;
        assert(x == q * 100 + l);
        // x * 9500 / 10000 == x * 19 / 20
        lemma_div_multiples_vanish_quotient(500, x * 19, 20);
        assert(500 * (x * 19) == x * 9500) by (nonlinear_arith);
        assert(500 * 20 == 10000int);
        assert(spec_payout(amount as int, under as int) == x * 19 / 20);
        // x * 19 == 20 * (95 q) + 19 l
        let k = (l * 19) as int / 20;
        let rr = (l * 19) as int % 20;
        lemma_fundamental_div_mod((l * 19) as int, 20);
        assert(x * 19 == (95 * q + k) * 20 + rr) by (nonlinear_arith)
            requires
                x == q * 100 + l,
                l * 19 == 20 * k + rr,
        ;
        lemma_fundamental_div_mod_converse(x * 19, 20, 95 * q + k, rr);
        assert(spec_payout(amount as int, under as int) == 95 * q + k);
        assert(k >= 0) by (nonlinear_arith)
            requires
                k == (l * 19) as int / 20,
                l >= 0,
        ;
    }
    let hi = match q.checked_mul(95) {
        Some(h) => h,
        None => {
            return None;
        },
    };
    let lo = (l * 19) / 20;
    match hi.checked_add(lo) {
        Some(p) => Some(p),
        None => None,
    }
}

/// The dice roll of the bet at (1-based) `index` under round seed `seed`.
pub fn roll_for(seed: u64, index: u64) -> (r: u64)
    ensures
        r == spec_roll(seed, index),
        r < ROLL_MOD,
{
    let mixed = seed.wrapping_mul(ROLL_SEED_MULT).wrapping_add(index);
    proof {
        let w = 0x1_0000_0000_0000_0000int;
        let a = (seed as int * ROLL_SEED_MULT as int) % w;
        assert(seed.wrapping_mul(ROLL_SEED_MULT) == a);
        assert((a + index) % w == (seed as int * ROLL_SEED_MULT as int + index as int) % w) by {
            lemma_fundamental_div_mod(seed as int * ROLL_SEED_MULT as int, w);
            let k = (seed as int * ROLL_SEED_MULT as int) / w;
            assert(seed as int * ROLL_SEED_MULT as int + index as int == w * k + (a + index));
            lemma_fundamental_div_mod(a + index, w);
            let k2 = (a + index) / w;
            let r2 = (a + index) % w;
            assert(seed as int * ROLL_SEED_MULT as int + index as int == (k + k2) * w + r2)
                by (nonlinear_arith)
                requires
                    seed as int * ROLL_SEED_MULT as int + index as int == w * k + (a + index),
                    a + index == w * k2 + r2,
            ;
            lemma_fundamental_div_mod_converse(
                seed as int * ROLL_SEED_MULT as int + index as int,
                w,
                k + k2,
                r2,
            );
        }
        assert(0 <= a < w);
        assert(mixed == (a + index) % w);
    }
    mixed % ROLL_MOD
}

/// The largest bet accepted, from the free bankroll `free`, the minimum bet
/// `min` and the hard cap `cap`.
pub fn dynamic_max_bet(free: u128, min: u128, cap: u128) -> (r: u128)
    ensures
        r == spec_dynamic_max(free as int, min as int, cap as int),
{
    let from_bank = free / 50;
    proof {
        lemma_div_multiples_vanish_quotient(200, free as int, 50);
        assert(200 * free == free * 200) by (nonlinear_arith);
    }
    if from_bank < min {
        min
    } else if from_bank < cap {
        from_bank
    } else {
        cap
    }
}

/// What one skim sends, from the free bankroll `free`, the buffer to keep and
/// the accrued rake.
pub fn skim_amount(free: u128, buffer: u128, accrued: u128) -> (r: u128)
    ensures
        r == spec_skim(free as int, buffer as int, accrued as int),
{
    if free <= buffer {
        return 0;
    }
    let extra = free - buffer;
    let mut send_amount = accrued;
    if extra > send_amount {
        let half = extra / 2;
        if send_amount > extra - half {
            send_amount = extra;
        } else {
            send_amount = half + send_amount;
        }
    } else if send_amount > extra {
        send_amount = extra;
    }
    send_amount
}

} // verus!
