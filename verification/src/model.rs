//! The casino's state as plain values, and what each operation makes of it.
use crate::ledger::{claim_of, claims_sum, credit, entries_wf, remove_player, ClaimEntry};
use crate::math::{
    spec_dynamic_max, spec_free, spec_payout, spec_rake, spec_rake_bps, spec_roll, spec_skim,
    MAX_BETS_PER_RESOLVE, MAX_UNDER, MIN_UNDER, ROLL_MOD,
};
use crate::token::{spec_is_zero_address, spec_valid_esdt_identifier, Address, TokenIdView};
use vstd::prelude::*;

verus! {

/// One bet of the current round. `amount` is the stake net of rake.
#[derive(Clone, Copy, Debug)]
pub struct Bet {
    pub player: Address,
    pub amount: u128,
    pub under: u64,
    pub is_roar: bool,
    pub settled: bool,
    pub won: bool,
    pub roll: u64,
}

/// Why an operation was refused. Each one leaves the state as it was.
#[derive(Clone, Copy, Debug, PartialEq, Eq, Structural)]
pub enum CasinoError {
    /// The caller is not the contract's owner.
    OnlyOwner,
    /// The treasury address is all zeros.
    TreasuryRequired,
    /// The ROAR identifier is not a valid ESDT identifier.
    BadRoarToken,
    /// EGLD minimum bet is zero or above the EGLD cap.
    BadEgldBets,
    /// ROAR minimum bet is zero or above the ROAR cap.
    BadRoarBets,
    /// A round must last at least two blocks.
    RoundTooShort,
    /// A minimum bankroll is zero.
    MinBankroll,
    /// A payment of zero.
    Zero,
    /// A payment in a token other than EGLD or ROAR.
    TokenNotAccepted,
    /// The ROAR token cannot change while ROAR winnings are unclaimed.
    RoarClaimsPending,
    /// The game is paused.
    Paused,
    /// A round is already open.
    AlreadyOpen,
    /// The previous round is still being resolved.
    FinishPreviousResolve,
    /// Neither bankroll is above its minimum.
    BankrollThin,
    /// No round is open.
    NoOpenRound,
    /// The round no longer takes bets.
    BettingClosed,
    /// `under` is outside 2..=96.
    UnderOutOfRange,
    /// The round already holds the most bets it takes.
    RoundFull,
    /// A ROAR payment with a non-zero token nonce.
    RoarMustBeFungible,
    /// The stake is below the minimum bet.
    BelowMin,
    /// The stake is above the hard cap.
    AboveCap,
    /// The stake is above the dynamic limit.
    AboveDynamicMax,
    /// Reserving this bet's payout would leave the ROAR bankroll below its minimum.
    RoarBankrollThin,
    /// Reserving this bet's payout would leave the EGLD bankroll below its minimum.
    EgldBankrollThin,
    /// No round is open or being resolved.
    NothingToResolve,
    /// The round's betting period has not ended.
    TooEarly,
    /// The caller has nothing to claim.
    NothingToClaim,
    /// A round is open.
    RoundOpen,
    /// A round is being resolved.
    ResolveInProgress,
    /// A counter or a set-aside total would not fit its integer width.
    Overflow,
}

/// The contract's own balances, as the chain reports them during a call.
#[derive(Clone, Copy, Debug)]
pub struct Balances {
    pub egld: u128,
    pub roar: u128,
}

/// The balance of one of the two tokens.
pub open spec fn balance_of(b: Balances, is_roar: bool) -> u128 {
    if is_roar {
        b.roar
    } else {
        b.egld
    }
}

/// The whole state of the casino, as plain values. `round_seed == 0` stands
/// for "no seed drawn" (the chain stores a zero as nothing).
pub struct CasinoView {
    pub treasury: Address,
    pub roar_token: Seq<u8>,
    pub min_bet_egld: u128,
    pub cap_max_egld: u128,
    pub min_bet_roar: u128,
    pub cap_max_roar: u128,
    pub round_blocks: u64,
    pub min_bankroll_egld: u128,
    pub min_bankroll_roar: u128,
    pub is_paused: bool,
    pub round_id: u64,
    pub round_open: bool,
    pub round_end_block: u64,
    pub round_seed: u64,
    pub round_liability_egld: u128,
    pub round_liability_roar: u128,
    pub rake_accrued_egld: u128,
    pub rake_accrued_roar: u128,
    pub bets: Seq<Bet>,
    pub claimable_egld: Seq<ClaimEntry>,
    pub claimable_roar: Seq<ClaimEntry>,
    pub total_claimable_egld: u128,
    pub total_claimable_roar: u128,
}

/// The payout a bet is owed if it wins.
pub open spec fn bet_payout(b: Bet) -> int {
    spec_payout(b.amount as int, b.under as int)
}

/// The payouts of the unsettled bets in token `is_roar` among the first `n` bets.
pub open spec fn unsettled_payouts(bets: Seq<Bet>, is_roar: bool, n: int) -> int
    decreases n,
{
    if n <= 0 {
        0
    } else {
        unsettled_payouts(bets, is_roar, n - 1) + (if !bets[n - 1].settled && bets[n - 1].is_roar
            == is_roar {
            bet_payout(bets[n - 1])
        } else {
            0
        })
    }
}

/// A bet after the round is resolved with `seed`; `index` is its 1-based place.
pub open spec fn settle_bet(b: Bet, seed: u64, index: int) -> Bet {
    if b.settled {
        b
    } else {
        let roll = spec_roll(seed, index as u64) as u64;
        Bet { roll, won: roll < b.under, settled: true, ..b }
    }
}

/// All bets after the round is resolved with `seed`.
pub open spec fn settle_all(bets: Seq<Bet>, seed: u64) -> Seq<Bet> {
    Seq::new(bets.len(), |i: int| settle_bet(bets[i], seed, i + 1))
}

/// What the bet at 1-based place `index` wins in token `is_roar` when the round
/// is resolved with `seed`: its payout if it was unsettled, is in that token and
/// rolls below `under`; otherwise nothing.
pub open spec fn bet_winnings(b: Bet, seed: u64, index: int, is_roar: bool) -> int {
    if !b.settled && b.is_roar == is_roar && spec_roll(seed, index as u64) < b.under {
        bet_payout(b)
    } else {
        0
    }
}

/// What the first `n` bets win in token `is_roar`.
pub open spec fn round_winnings(bets: Seq<Bet>, seed: u64, is_roar: bool, n: int) -> int
    decreases n,
{
    if n <= 0 {
        0
    } else {
        round_winnings(bets, seed, is_roar, n - 1) + bet_winnings(bets[n - 1], seed, n, is_roar)
    }
}

/// The claim entries after the first `n` bets' winnings in token `is_roar` are credited.
pub open spec fn credit_round(
    entries: Seq<ClaimEntry>,
    bets: Seq<Bet>,
    seed: u64,
    is_roar: bool,
    n: int,
) -> Seq<ClaimEntry>
    decreases n,
{
    if n <= 0 {
        entries
    } else {
        credit(
            credit_round(entries, bets, seed, is_roar, n - 1),
            bets[n - 1].player,
            bet_winnings(bets[n - 1], seed, n, is_roar),
        )
    }
}

/// What the first `n` bets of `player` win in token `is_roar`.
pub open spec fn player_winnings(
    bets: Seq<Bet>,
    seed: u64,
    is_roar: bool,
    player: Address,
    n: int,
) -> int
    decreases n,
{
    if n <= 0 {
        0
    } else {
        player_winnings(bets, seed, is_roar, player, n - 1) + (if bets[n - 1].player == player {
            bet_winnings(bets[n - 1], seed, n, is_roar)
        } else {
            0
        })
    }
}

impl CasinoView {
    pub open spec fn min_bet(self, is_roar: bool) -> u128 {
        if is_roar {
            self.min_bet_roar
        } else {
            self.min_bet_egld
        }
    }

    pub open spec fn cap_max(self, is_roar: bool) -> u128 {
        if is_roar {
            self.cap_max_roar
        } else {
            self.cap_max_egld
        }
    }

    pub open spec fn min_bankroll(self, is_roar: bool) -> u128 {
        if is_roar {
            self.min_bankroll_roar
        } else {
            self.min_bankroll_egld
        }
    }

    pub open spec fn liability(self, is_roar: bool) -> u128 {
        if is_roar {
            self.round_liability_roar
        } else {
            self.round_liability_egld
        }
    }

    pub open spec fn rake_accrued(self, is_roar: bool) -> u128 {
        if is_roar {
            self.rake_accrued_roar
        } else {
            self.rake_accrued_egld
        }
    }

    pub open spec fn total_claimable(self, is_roar: bool) -> u128 {
        if is_roar {
            self.total_claimable_roar
        } else {
            self.total_claimable_egld
        }
    }

    pub open spec fn claimable(self, is_roar: bool) -> Seq<ClaimEntry> {
        if is_roar {
            self.claimable_roar
        } else {
            self.claimable_egld
        }
    }

    /// Funds of one token that are owed or kept: unclaimed winnings, the
    /// payouts reserved for the open round, and the accrued rake.
    pub open spec fn reserved(self, is_roar: bool) -> int {
        self.total_claimable(is_roar) + self.liability(is_roar) + self.rake_accrued(is_roar)
    }

    /// The free bankroll of one token, for the contract's balances `b`.
    pub open spec fn free(self, is_roar: bool, b: Balances) -> int {
        spec_free(balance_of(b, is_roar) as int, self.reserved(is_roar))
    }

    /// The largest bet accepted in one token.
    pub open spec fn dynamic_max(self, is_roar: bool, b: Balances) -> int {
        spec_dynamic_max(
            self.free(is_roar, b),
            self.min_bet(is_roar) as int,
            self.cap_max(is_roar) as int,
        )
    }

    /// Every bet of the round is settled.
    pub open spec fn all_settled(self) -> bool {
        forall|i: int| 0 <= i < self.bets.len() ==> #[trigger] self.bets[i].settled
    }

    /// A resolve has drawn its seed but left bets unsettled.
    pub open spec fn has_unsettled(self) -> bool {
        self.round_seed != 0 && !self.all_settled()
    }

    /// What holds of every state the casino is ever in.
    pub open spec fn inv(self) -> bool {
        &&& !spec_is_zero_address(self.treasury)
        &&& spec_valid_esdt_identifier(self.roar_token)
        &&& 0 < self.min_bet_egld <= self.cap_max_egld
        &&& 0 < self.min_bet_roar <= self.cap_max_roar
        &&& self.round_blocks >= 2
        &&& self.round_seed != 0 ==> !self.round_open
        &&& self.min_bankroll_egld > 0
        &&& self.min_bankroll_roar > 0
        &&& self.bets.len() <= MAX_BETS_PER_RESOLVE
        &&& forall|i: int|
            0 <= i < self.bets.len() ==> MIN_UNDER <= #[trigger] self.bets[i].under <= MAX_UNDER
        &&& forall|i: int|
            0 <= i < self.bets.len() && #[trigger] self.bets[i].settled ==> self.bets[i].won == (
            self.bets[i].roll < self.bets[i].under) && self.bets[i].roll < ROLL_MOD
        &&& entries_wf(self.claimable_egld)
        &&& entries_wf(self.claimable_roar)
        &&& self.total_claimable_egld == claims_sum(self.claimable_egld)
        &&& self.total_claimable_roar == claims_sum(self.claimable_roar)
        &&& self.round_liability_egld == unsettled_payouts(self.bets, false, self.bets.len() as int)
        &&& self.round_liability_roar == unsettled_payouts(self.bets, true, self.bets.len() as int)
        &&& self.reserved(false) <= u128::MAX
        &&& self.reserved(true) <= u128::MAX
    }
}

/// Why `init` refuses its arguments, if it does.
pub open spec fn init_error(
    treasury: Address,
    roar_token: Seq<u8>,
    min_bet_egld: u128,
    cap_max_egld: u128,
    min_bet_roar: u128,
    cap_max_roar: u128,
    round_blocks: u64,
    min_bankroll_egld: u128,
    min_bankroll_roar: u128,
) -> Option<CasinoError> {
    if spec_is_zero_address(treasury) {
        Some(CasinoError::TreasuryRequired)
    } else if !spec_valid_esdt_identifier(roar_token) {
        Some(CasinoError::BadRoarToken)
    } else if !(min_bet_egld > 0 && cap_max_egld >= min_bet_egld) {
        Some(CasinoError::BadEgldBets)
    } else if !(min_bet_roar > 0 && cap_max_roar >= min_bet_roar) {
        Some(CasinoError::BadRoarBets)
    } else if round_blocks < 2 {
        Some(CasinoError::RoundTooShort)
    } else if !(min_bankroll_egld > 0 && min_bankroll_roar > 0) {
        Some(CasinoError::MinBankroll)
    } else {
        None
    }
}

/// The state right after a successful `init`.
pub open spec fn initial_view(
    treasury: Address,
    roar_token: Seq<u8>,
    min_bet_egld: u128,
    cap_max_egld: u128,
    min_bet_roar: u128,
    cap_max_roar: u128,
    round_blocks: u64,
    min_bankroll_egld: u128,
    min_bankroll_roar: u128,
) -> CasinoView {
    CasinoView {
        treasury,
        roar_token,
        min_bet_egld,
        cap_max_egld,
        min_bet_roar,
        cap_max_roar,
        round_blocks,
        min_bankroll_egld,
        min_bankroll_roar,
        is_paused: false,
        round_id: 0,
        round_open: false,
        round_end_block: 0,
        round_seed: 0,
        round_liability_egld: 0,
        round_liability_roar: 0,
        rake_accrued_egld: 0,
        rake_accrued_roar: 0,
        bets: Seq::empty(),
        claimable_egld: Seq::empty(),
        claimable_roar: Seq::empty(),
        total_claimable_egld: 0,
        total_claimable_roar: 0,
    }
}

/// Why a funding payment is refused, if it is.
pub open spec fn fund_error(
    s: CasinoView,
    caller: Address,
    owner: Address,
    token: TokenIdView,
    amount: u128,
) -> Option<CasinoError> {
    if caller != owner {
        Some(CasinoError::OnlyOwner)
    } else if amount == 0 {
        Some(CasinoError::Zero)
    } else if !(token is Egld) && token != TokenIdView::Esdt(s.roar_token) {
        Some(CasinoError::TokenNotAccepted)
    } else {
        None
    }
}

/// Why a new ROAR identifier is refused, if it is.
pub open spec fn set_roar_token_error(
    s: CasinoView,
    caller: Address,
    owner: Address,
    roar_token: Seq<u8>,
) -> Option<CasinoError> {
    if caller != owner {
        Some(CasinoError::OnlyOwner)
    } else if !spec_valid_esdt_identifier(roar_token) {
        Some(CasinoError::BadRoarToken)
    } else if s.total_claimable_roar != 0 {
        Some(CasinoError::RoarClaimsPending)
    } else {
        None
    }
}

/// Why a new treasury is refused, if it is.
pub open spec fn set_treasury_error(caller: Address, owner: Address, treasury: Address) -> Option<
    CasinoError,
> {
    if caller != owner {
        Some(CasinoError::OnlyOwner)
    } else if spec_is_zero_address(treasury) {
        Some(CasinoError::TreasuryRequired)
    } else {
        None
    }
}

/// Why a new round cannot start, if it cannot.
pub open spec fn start_round_error(s: CasinoView, block_nonce: u64, b: Balances) -> Option<
    CasinoError,
> {
    if s.is_paused {
        Some(CasinoError::Paused)
    } else if s.round_open {
        Some(CasinoError::AlreadyOpen)
    } else if s.has_unsettled() {
        Some(CasinoError::FinishPreviousResolve)
    } else if !(s.free(false, b) >= s.min_bankroll_egld || s.free(true, b) >= s.min_bankroll_roar) {
        Some(CasinoError::BankrollThin)
    } else if s.round_id + 1 > u64::MAX || block_nonce + s.round_blocks > u64::MAX {
        Some(CasinoError::Overflow)
    } else {
        None
    }
}

/// The state after a new round starts at block `block_nonce`.
pub open spec fn after_start_round(s: CasinoView, block_nonce: u64) -> CasinoView {
    CasinoView {
        round_id: (s.round_id + 1) as u64,
        round_open: true,
        round_end_block: (block_nonce + s.round_blocks) as u64,
        round_liability_egld: 0,
        round_liability_roar: 0,
        round_seed: 0,
        bets: Seq::empty(),
        ..s
    }
}

/// The rake on a stake.
pub open spec fn stake_rake(amount: u128, is_roar: bool) -> int {
    spec_rake(amount as int, spec_rake_bps(is_roar) as int)
}

/// The payout owed if a stake of `amount` at `under` wins (on the stake net of rake).
pub open spec fn stake_payout(amount: u128, under: u64, is_roar: bool) -> int {
    spec_payout(amount - stake_rake(amount, is_roar), under as int)
}

/// The free bankroll once a new bet's payout is reserved.
pub open spec fn free_after_bet(
    s: CasinoView,
    is_roar: bool,
    under: u64,
    amount: u128,
    b: Balances,
) -> int {
    spec_free(
        balance_of(b, is_roar) as int,
        s.reserved(is_roar) + stake_payout(amount, under, is_roar),
    )
}

/// Why a bet is refused, if it is.
pub open spec fn place_bet_error(
    s: CasinoView,
    under: u64,
    token: TokenIdView,
    nonce: u64,
    amount: u128,
    block_nonce: u64,
    b: Balances,
) -> Option<CasinoError> {
    let is_roar = !(token is Egld);
    if s.is_paused {
        Some(CasinoError::Paused)
    } else if !s.round_open {
        Some(CasinoError::NoOpenRound)
    } else if block_nonce >= s.round_end_block {
        Some(CasinoError::BettingClosed)
    } else if under < MIN_UNDER || under > MAX_UNDER {
        Some(CasinoError::UnderOutOfRange)
    } else if s.bets.len() >= MAX_BETS_PER_RESOLVE {
        Some(CasinoError::RoundFull)
    } else if is_roar && token != TokenIdView::Esdt(s.roar_token) {
        Some(CasinoError::TokenNotAccepted)
    } else if is_roar && nonce != 0 {
        Some(CasinoError::RoarMustBeFungible)
    } else if amount < s.min_bet(is_roar) {
        Some(CasinoError::BelowMin)
    } else if amount > s.cap_max(is_roar) {
        Some(CasinoError::AboveCap)
    } else if amount > s.dynamic_max(is_roar, b) {
        Some(CasinoError::AboveDynamicMax)
    } else if free_after_bet(s, is_roar, under, amount, b) < s.min_bankroll(is_roar) {
        if is_roar {
            Some(CasinoError::RoarBankrollThin)
        } else {
            Some(CasinoError::EgldBankrollThin)
        }
    } else if s.reserved(is_roar) + stake_payout(amount, under, is_roar) + stake_rake(
        amount,
        is_roar,
    ) > u128::MAX {
        Some(CasinoError::Overflow)
    } else {
        None
    }
}

/// The state after `player` bets `amount` at `under` in token `is_roar`: the
/// payout is reserved, the rake accrues, and the bet joins the round with its
/// stake net of rake.
pub open spec fn after_place_bet(
    s: CasinoView,
    player: Address,
    under: u64,
    is_roar: bool,
    amount: u128,
) -> CasinoView {
    let rake = stake_rake(amount, is_roar);
    let payout = stake_payout(amount, under, is_roar);
    let bet = Bet {
        player,
        amount: (amount - rake) as u128,
        under,
        is_roar,
        settled: false,
        won: false,
        roll: 0,
    };
    if is_roar {
        CasinoView {
            round_liability_roar: (s.round_liability_roar + payout) as u128,
            rake_accrued_roar: (s.rake_accrued_roar + rake) as u128,
            bets: s.bets.push(bet),
            ..s
        }
    } else {
        CasinoView {
            round_liability_egld: (s.round_liability_egld + payout) as u128,
            rake_accrued_egld: (s.rake_accrued_egld + rake) as u128,
            bets: s.bets.push(bet),
            ..s
        }
    }
}

/// Why a resolve is refused, if it is.
pub open spec fn resolve_error(s: CasinoView, block_nonce: u64) -> Option<CasinoError> {
    if !(s.round_open || s.round_seed != 0) {
        Some(CasinoError::NothingToResolve)
    } else if block_nonce <= s.round_end_block {
        Some(CasinoError::TooEarly)
    } else {
        None
    }
}

/// The seed a resolve uses: the stored one, or a fresh draw `random` mixed
/// with the round id.
pub open spec fn resolve_seed(s: CasinoView, random: u64) -> u64 {
    if s.round_seed == 0 {
        random ^ s.round_id
    } else {
        s.round_seed
    }
}

/// The state after a resolve: every bet is settled with its roll, winnings
/// become claimable in the bet's token, the round's reservations and seed are
/// cleared, and the game pauses when both free bankrolls end below their minimum.
pub open spec fn after_resolve(s: CasinoView, random: u64, b: Balances) -> CasinoView {
    let seed = resolve_seed(s, random);
    let n = s.bets.len() as int;
    let settled = CasinoView {
        round_open: if s.round_seed == 0 {
            false
        } else {
            s.round_open
        },
        round_seed: 0,
        bets: settle_all(s.bets, seed),
        claimable_egld: credit_round(s.claimable_egld, s.bets, seed, false, n),
        claimable_roar: credit_round(s.claimable_roar, s.bets, seed, true, n),
        total_claimable_egld: (s.total_claimable_egld + round_winnings(s.bets, seed, false, n)) as u128,
        total_claimable_roar: (s.total_claimable_roar + round_winnings(s.bets, seed, true, n)) as u128,
        round_liability_egld: 0,
        round_liability_roar: 0,
        ..s
    };
    CasinoView {
        is_paused: settled.is_paused || (settled.free(false, b) < settled.min_bankroll_egld
            && settled.free(true, b) < settled.min_bankroll_roar),
        ..settled
    }
}

/// The state after `player` claims everything owed to them.
pub open spec fn after_claim(s: CasinoView, player: Address) -> CasinoView {
    CasinoView {
        claimable_egld: remove_player(s.claimable_egld, player),
        claimable_roar: remove_player(s.claimable_roar, player),
        total_claimable_egld: (s.total_claimable_egld - claim_of(s.claimable_egld, player)) as u128,
        total_claimable_roar: (s.total_claimable_roar - claim_of(s.claimable_roar, player)) as u128,
        ..s
    }
}

/// Why a skim is refused, if it is.
pub open spec fn skim_error(s: CasinoView) -> Option<CasinoError> {
    if s.round_open {
        Some(CasinoError::RoundOpen)
    } else if s.round_seed != 0 {
        Some(CasinoError::ResolveInProgress)
    } else {
        None
    }
}

/// What a skim sends to the treasury in one token.
pub open spec fn skim_sent(s: CasinoView, is_roar: bool, b: Balances) -> int {
    spec_skim(
        s.free(is_roar, b),
        s.min_bankroll(is_roar) * 2,
        s.rake_accrued(is_roar) as int,
    )
}

/// The accrued rake once `sent` has gone to the treasury: the skim is paid out
/// of the rake first.
pub open spec fn rake_after_skim(accrued: u128, sent: int) -> u128 {
    if accrued <= sent {
        0
    } else {
        (accrued - sent) as u128
    }
}

/// The state after a skim.
pub open spec fn after_skim(s: CasinoView, b: Balances) -> CasinoView {
    CasinoView {
        rake_accrued_egld: rake_after_skim(s.rake_accrued_egld, skim_sent(s, false, b)),
        rake_accrued_roar: rake_after_skim(s.rake_accrued_roar, skim_sent(s, true, b)),
        ..s
    }
}


/// A payout is never negative.
pub proof fn lemma_payout_nonneg(amount: int, under: int)
    requires
        amount >= 0,
        under > 0,
    ensures
        spec_payout(amount, under) >= 0,
{
    let x = amount * 100 / under;
    assert(x >= 0) by (nonlinear_arith)
        requires
            amount >= 0,
            under > 0,
            x == amount * 100 / under,
    ;
    assert(x * 9500 / 10000 >= 0) by (nonlinear_arith)
        requires
            x >= 0,
    ;
}

/// Appending a bet leaves the sums over the earlier bets unchanged.
pub proof fn lemma_unsettled_push(bets: Seq<Bet>, b: Bet, is_roar: bool, n: int)
    requires
        0 <= n <= bets.len(),
    ensures
        unsettled_payouts(bets.push(b), is_roar, n) == unsettled_payouts(bets, is_roar, n),
    decreases n,
{
    if n > 0 {
        lemma_unsettled_push(bets, b, is_roar, n - 1);
        assert(bets.push(b)[n - 1] == bets[n - 1]);
    }
}

/// Once every bet is settled nothing is left unsettled.
pub proof fn lemma_unsettled_of_settled(bets: Seq<Bet>, seed: u64, is_roar: bool, n: int)
    requires
        0 <= n <= bets.len(),
    ensures
        unsettled_payouts(settle_all(bets, seed), is_roar, n) == 0,
    decreases n,
{
    if n > 0 {
        lemma_unsettled_of_settled(bets, seed, is_roar, n - 1);
    }
}

/// Winnings over a prefix of the bets are never negative, grow with the
/// prefix, and never exceed the payouts reserved for the unsettled bets.
pub proof fn lemma_winnings_bounds(bets: Seq<Bet>, seed: u64, is_roar: bool, i: int, n: int)
    requires
        0 <= i <= n <= bets.len(),
        forall|j: int| 0 <= j < bets.len() ==> #[trigger] bets[j].under > 0,
    ensures
        0 <= round_winnings(bets, seed, is_roar, i),
        round_winnings(bets, seed, is_roar, i) <= round_winnings(bets, seed, is_roar, n),
        round_winnings(bets, seed, is_roar, n) <= unsettled_payouts(bets, is_roar, n),
    decreases n,
{
    if n > 0 {
        let b = bets[n - 1];
        lemma_payout_nonneg(b.amount as int, b.under as int);
        if i < n {
            lemma_winnings_bounds(bets, seed, is_roar, i, n - 1);
        } else {
            lemma_winnings_bounds(bets, seed, is_roar, n - 1, n - 1);
        }
    }
}

/// The rake is never negative and never more than the stake.
pub proof fn lemma_stake_rake_bounds(amount: u128, is_roar: bool)
    ensures
        0 <= stake_rake(amount, is_roar) <= amount,
{
    let bps = spec_rake_bps(is_roar) as int;
    assert(0 <= amount * bps / 10000 <= amount) by (nonlinear_arith)
        requires
            0 <= bps <= 10000,
            amount >= 0,
    ;
}

/// Unsettled payouts over a prefix are never negative and grow with the prefix.
pub proof fn lemma_unsettled_bounds(bets: Seq<Bet>, is_roar: bool, i: int, n: int)
    requires
        0 <= i <= n <= bets.len(),
        forall|j: int| 0 <= j < bets.len() ==> #[trigger] bets[j].under > 0,
    ensures
        0 <= unsettled_payouts(bets, is_roar, i) <= unsettled_payouts(bets, is_roar, n),
    decreases n,
{
    if n > 0 {
        let b = bets[n - 1];
        lemma_payout_nonneg(b.amount as int, b.under as int);
        if i < n {
            lemma_unsettled_bounds(bets, is_roar, i, n - 1);
        } else {
            lemma_unsettled_bounds(bets, is_roar, n - 1, n - 1);
        }
    }
}

} // verus!
