//! The casino contract's state and endpoints. Each endpoint takes what the
//! chain reports (caller, owner, payment, block nonce, balances, a random draw)
//! as plain values, and returns what the chain must do (transfers, events).
use crate::ledger::{
    claim_of, claims_sum, entries_wf, lemma_claim_le_sum, lemma_credit, lemma_remove_player,
    ClaimEntry, Ledger,
};
use crate::math::{
    dynamic_max_bet, potential_payout, rake_for, roll_for, skim_amount, MAX_BETS_PER_RESOLVE,
    MAX_UNDER, MIN_UNDER, RAKE_EGLD_BPS, ROLL_MOD, RAKE_ROAR_BPS, SKIM_BUFFER_MULT,
};
use crate::model::{
    after_claim, after_place_bet, after_resolve, after_skim, after_start_round, bet_payout,
    bet_winnings, credit_round, fund_error, init_error, initial_view, lemma_payout_nonneg,
    lemma_unsettled_bounds, lemma_unsettled_of_settled, lemma_unsettled_push, lemma_winnings_bounds,
    place_bet_error, rake_after_skim, resolve_error, resolve_seed, round_winnings,
    set_roar_token_error, set_treasury_error, settle_all, settle_bet, skim_error, skim_sent,
    stake_payout, start_round_error, unsettled_payouts, Balances, Bet, CasinoError, CasinoView,
};
use crate::token::{is_valid_esdt_identifier, Address, Payment, TokenId, TokenIdView};
use vstd::prelude::*;

verus! {

/// What `claim` pays out: the caller's EGLD and ROAR winnings.
#[derive(Clone, Copy, Debug)]
pub struct Claimed {
    pub egld: u128,
    pub roar: u128,
}

/// What `skim_to_treasury` sends to the treasury in each token (0: nothing sent).
#[derive(Clone, Copy, Debug)]
pub struct Skimmed {
    pub egld: u128,
    pub roar: u128,
}

/// The round that `start_round` opened and the block at which betting closes.
#[derive(Clone, Copy, Debug)]
pub struct RoundStarted {
    pub round_id: u64,
    pub end_block: u64,
}

/// The ROAR dice casino: configuration, the current round and its bets, and
/// what players can claim.
pub struct PridevaultCasino {
    treasury: Address,
    roar_token: Vec<u8>,
    min_bet_egld: u128,
    cap_max_egld: u128,
    min_bet_roar: u128,
    cap_max_roar: u128,
    round_blocks: u64,
    min_bankroll_egld: u128,
    min_bankroll_roar: u128,
    is_paused: bool,
    round_id: u64,
    round_open: bool,
    round_end_block: u64,
    round_seed: u64,
    round_liability_egld: u128,
    round_liability_roar: u128,
    rake_accrued_egld: u128,
    rake_accrued_roar: u128,
    bets: Vec<Bet>,
    claimable_egld: Ledger,
    claimable_roar: Ledger,
    total_claimable_egld: u128,
    total_claimable_roar: u128,
}

impl View for PridevaultCasino {
    type V = CasinoView;

    closed spec fn view(&self) -> CasinoView {
        CasinoView {
            treasury: self.treasury,
            roar_token: self.roar_token@,
            min_bet_egld: self.min_bet_egld,
            cap_max_egld: self.cap_max_egld,
            min_bet_roar: self.min_bet_roar,
            cap_max_roar: self.cap_max_roar,
            round_blocks: self.round_blocks,
            min_bankroll_egld: self.min_bankroll_egld,
            min_bankroll_roar: self.min_bankroll_roar,
            is_paused: self.is_paused,
            round_id: self.round_id,
            round_open: self.round_open,
            round_end_block: self.round_end_block,
            round_seed: self.round_seed,
            round_liability_egld: self.round_liability_egld,
            round_liability_roar: self.round_liability_roar,
            rake_accrued_egld: self.rake_accrued_egld,
            rake_accrued_roar: self.rake_accrued_roar,
            bets: self.bets@,
            claimable_egld: self.claimable_egld@,
            claimable_roar: self.claimable_roar@,
            total_claimable_egld: self.total_claimable_egld,
            total_claimable_roar: self.total_claimable_roar,
        }
    }
}

/// Every field of the casino as plain public values, to persist it and
/// restore it.
pub struct CasinoState {
    pub treasury: Address,
    pub roar_token: Vec<u8>,
    pub min_bet_egld: u128,
    pub cap_max_egld: u128,
    pub min_bet_roar: u128,
    pub cap_max_roar: u128,
    pub round_blocks: u64,
    pub min_bankroll_egld: u128,
    pub min_bankroll_roar: u128,
    pub is_paused: bool,
    pub round_id: u64,
    pub round_open: bool,
    pub round_end_block: u64,
    pub round_seed: u64,
    pub round_liability_egld: u128,
    pub round_liability_roar: u128,
    pub rake_accrued_egld: u128,
    pub rake_accrued_roar: u128,
    pub bets: Vec<Bet>,
    pub claimable_egld: Vec<ClaimEntry>,
    pub claimable_roar: Vec<ClaimEntry>,
    pub total_claimable_egld: u128,
    pub total_claimable_roar: u128,
}

impl View for CasinoState {
    type V = CasinoView;

    open spec fn view(&self) -> CasinoView {
        CasinoView {
            treasury: self.treasury,
            roar_token: self.roar_token@,
            min_bet_egld: self.min_bet_egld,
            cap_max_egld: self.cap_max_egld,
            min_bet_roar: self.min_bet_roar,
            cap_max_roar: self.cap_max_roar,
            round_blocks: self.round_blocks,
            min_bankroll_egld: self.min_bankroll_egld,
            min_bankroll_roar: self.min_bankroll_roar,
            is_paused: self.is_paused,
            round_id: self.round_id,
            round_open: self.round_open,
            round_end_block: self.round_end_block,
            round_seed: self.round_seed,
            round_liability_egld: self.round_liability_egld,
            round_liability_roar: self.round_liability_roar,
            rake_accrued_egld: self.rake_accrued_egld,
            rake_accrued_roar: self.rake_accrued_roar,
            bets: self.bets@,
            claimable_egld: self.claimable_egld@,
            claimable_roar: self.claimable_roar@,
            total_claimable_egld: self.total_claimable_egld,
            total_claimable_roar: self.total_claimable_roar,
        }
    }
}

/// A copy of a byte string.
fn copy_bytes(v: &Vec<u8>) -> (r: Vec<u8>)
    ensures
        r@ == v@,
{
    let r = v.clone();
    proof {
        assert(r@ =~= v@);
    }
    r
}

impl PridevaultCasino {
    /// The casino's invariant holds.
    pub open spec fn wf(&self) -> bool {
        self@.inv()
    }

    /// Deploys the casino: checks the configuration, then starts paused-free
    /// with no round, no bets and nothing owed.
    pub fn init(
        treasury: Address,
        roar_token: Vec<u8>,
        min_bet_egld: u128,
        cap_max_egld: u128,
        min_bet_roar: u128,
        cap_max_roar: u128,
        round_blocks: u64,
        min_bankroll_egld: u128,
        min_bankroll_roar: u128,
    ) -> (r: Result<PridevaultCasino, CasinoError>)
        ensures
            match r {
                Ok(c) => {
                    &&& init_error(
                        treasury,
                        roar_token@,
                        min_bet_egld,
                        cap_max_egld,
                        min_bet_roar,
                        cap_max_roar,
                        round_blocks,
                        min_bankroll_egld,
                        min_bankroll_roar,
                    ) == None::<CasinoError>
                    &&& c@ == initial_view(
                        treasury,
                        roar_token@,
                        min_bet_egld,
                        cap_max_egld,
                        min_bet_roar,
                        cap_max_roar,
                        round_blocks,
                        min_bankroll_egld,
                        min_bankroll_roar,
                    )
                    &&& c.wf()
                },
                Err(e) => init_error(
                    treasury,
                    roar_token@,
                    min_bet_egld,
                    cap_max_egld,
                    min_bet_roar,
                    cap_max_roar,
                    round_blocks,
                    min_bankroll_egld,
                    min_bankroll_roar,
                ) == Some(e),
            },
    {
        if treasury.is_zero() {
            return Err(CasinoError::TreasuryRequired);
        }
        if !is_valid_esdt_identifier(&roar_token) {
            return Err(CasinoError::BadRoarToken);
        }
        if !(min_bet_egld > 0 && cap_max_egld >= min_bet_egld) {
            return Err(CasinoError::BadEgldBets);
        }
        if !(min_bet_roar > 0 && cap_max_roar >= min_bet_roar) {
            return Err(CasinoError::BadRoarBets);
        }
        if round_blocks < 2 {
            return Err(CasinoError::RoundTooShort);
        }
        if !(min_bankroll_egld > 0 && min_bankroll_roar > 0) {
            return Err(CasinoError::MinBankroll);
        }
        let c = PridevaultCasino {
            treasury,
            roar_token,
            min_bet_egld,
            cap_max_egld,
            min_bet_roar,
            cap_max_roar,
            round_blocks,
            min_bankroll_egld,
            min_bankroll_roar,
            is_paused: false,
            round_id: 0,
            round_open: false,
            round_end_block: 0,
            round_seed: 0,
            round_liability_egld: 0,
            round_liability_roar: 0,
            rake_accrued_egld: 0,
            rake_accrued_roar: 0,
            bets: Vec::new(),
            claimable_egld: Ledger::new(),
            claimable_roar: Ledger::new(),
            total_claimable_egld: 0,
            total_claimable_roar: 0,
        };
        proof {
            assert(c@.bets =~= Seq::<Bet>::empty());
        }
        Ok(c)
    }

    /// The owner funds the bankroll with an EGLD or ROAR payment. The funds
    /// simply stay in the contract; the result is the amount, for the event.
    pub fn fund_bankroll(&self, caller: &Address, owner: &Address, payment: &Payment) -> (r: Result<
        u128,
        CasinoError,
    >)
        ensures
            match r {
                Ok(a) => fund_error(self@, *caller, *owner, payment.token@, payment.amount)
                    == None::<CasinoError> && a == payment.amount,
                Err(e) => fund_error(self@, *caller, *owner, payment.token@, payment.amount) == Some(
                    e,
                ),
            },
    {
        if !(*caller == *owner) {
            return Err(CasinoError::OnlyOwner);
        }
        if payment.amount == 0 {
            return Err(CasinoError::Zero);
        }
        if !payment.token.is_egld() {
            if !payment.token.is_esdt(&self.roar_token) {
                return Err(CasinoError::TokenNotAccepted);
            }
        }
        Ok(payment.amount)
    }

    /// The ROAR token, as a token.
    pub fn roar_id_or(&self) -> (r: TokenId)
        ensures
            r@ == TokenIdView::Esdt(self@.roar_token),
    {
        TokenId::Esdt(copy_bytes(&self.roar_token))
    }

    /// Refuses while the game is paused.
    fn require_not_paused(&self) -> (r: Result<(), CasinoError>)
        ensures
            r is Ok <==> !self@.is_paused,
            r matches Err(e) ==> e == CasinoError::Paused,
    {
        if self.is_paused {
            Err(CasinoError::Paused)
        } else {
            Ok(())
        }
    }

    /// The owner changes the ROAR token, while no ROAR winnings are unclaimed.
    pub fn set_roar_token(&mut self, caller: &Address, owner: &Address, roar_token: Vec<u8>) -> (r:
        Result<(), CasinoError>)
        requires
            old(self).wf(),
        ensures
            final(self).wf(),
            match r {
                Ok(_) => set_roar_token_error(old(self)@, *caller, *owner, roar_token@) == None::<
                    CasinoError,
                > && final(self)@ == (CasinoView { roar_token: roar_token@, ..old(self)@ }),
                Err(e) => set_roar_token_error(old(self)@, *caller, *owner, roar_token@) == Some(e)
                    && final(self)@ == old(self)@,
            },
    {
        if !(*caller == *owner) {
            return Err(CasinoError::OnlyOwner);
        }
        if !is_valid_esdt_identifier(&roar_token) {
            return Err(CasinoError::BadRoarToken);
        }
        if self.total_claimable_roar != 0 {
            return Err(CasinoError::RoarClaimsPending);
        }
        self.roar_token = roar_token;
        Ok(())
    }

    /// The owner changes the treasury address.
    pub fn set_treasury(&mut self, caller: &Address, owner: &Address, treasury: Address) -> (r:
        Result<(), CasinoError>)
        requires
            old(self).wf(),
        ensures
            final(self).wf(),
            match r {
                Ok(_) => set_treasury_error(*caller, *owner, treasury) == None::<CasinoError>
                    && final(self)@ == (CasinoView { treasury, ..old(self)@ }),
                Err(e) => set_treasury_error(*caller, *owner, treasury) == Some(e) && final(self)@
                    == old(self)@,
            },
    {
        if !(*caller == *owner) {
            return Err(CasinoError::OnlyOwner);
        }
        if treasury.is_zero() {
            return Err(CasinoError::TreasuryRequired);
        }
        self.treasury = treasury;
        Ok(())
    }

    /// The owner pauses the game.
    pub fn pause(&mut self, caller: &Address, owner: &Address) -> (r: Result<(), CasinoError>)
        requires
            old(self).wf(),
        ensures
            final(self).wf(),
            match r {
                Ok(_) => *caller == *owner && final(self)@ == (CasinoView {
                    is_paused: true,
                    ..old(self)@
                }),
                Err(e) => *caller != *owner && e == CasinoError::OnlyOwner && final(self)@ == old(self)@,
            },
    {
        if !(*caller == *owner) {
            return Err(CasinoError::OnlyOwner);
        }
        self.is_paused = true;
        Ok(())
    }

    /// The owner lifts the pause.
    pub fn unpause(&mut self, caller: &Address, owner: &Address) -> (r: Result<(), CasinoError>)
        requires
            old(self).wf(),
        ensures
            final(self).wf(),
            match r {
                Ok(_) => *caller == *owner && final(self)@ == (CasinoView {
                    is_paused: false,
                    ..old(self)@
                }),
                Err(e) => *caller != *owner && e == CasinoError::OnlyOwner && final(self)@ == old(self)@,
            },
    {
        if !(*caller == *owner) {
            return Err(CasinoError::OnlyOwner);
        }
        self.is_paused = false;
        Ok(())
    }

    /// Funds of one token that are owed or kept.
    pub fn reserved(&self, is_roar: bool) -> (r: u128)
        requires
            self@.reserved(is_roar) <= u128::MAX,
        ensures
            r == self@.reserved(is_roar),
    {
        if is_roar {
            self.total_claimable_roar + self.round_liability_roar + self.rake_accrued_roar
        } else {
            self.total_claimable_egld + self.round_liability_egld + self.rake_accrued_egld
        }
    }

    /// The free bankroll of one token: its balance less what is reserved.
    fn free_bankroll(&self, is_roar: bool, balances: Balances) -> (r: u128)
        requires
            self@.reserved(is_roar) <= u128::MAX,
        ensures
            r == self@.free(is_roar, balances),
    {
        let bal = if is_roar {
            balances.roar
        } else {
            balances.egld
        };
        let res = self.reserved(is_roar);
        if bal > res {
            bal - res
        } else {
            0
        }
    }

    /// The free EGLD bankroll.
    pub fn free_bankroll_egld(&self, balances: Balances) -> (r: u128)
        requires
            self.wf(),
        ensures
            r == self@.free(false, balances),
    {
        self.free_bankroll(false, balances)
    }

    /// The free ROAR bankroll.
    pub fn free_bankroll_roar(&self, balances: Balances) -> (r: u128)
        requires
            self.wf(),
        ensures
            r == self@.free(true, balances),
    {
        self.free_bankroll(true, balances)
    }

    /// The largest bet accepted in one token.
    fn dynamic_max_bet(&self, is_roar: bool, balances: Balances) -> (r: u128)
        requires
            self.wf(),
        ensures
            r == self@.dynamic_max(is_roar, balances),
    {
        let free = self.free_bankroll(is_roar, balances);
        let cap = if is_roar {
            self.cap_max_roar
        } else {
            self.cap_max_egld
        };
        let min = if is_roar {
            self.min_bet_roar
        } else {
            self.min_bet_egld
        };
        dynamic_max_bet(free, min, cap)
    }

    /// The largest EGLD bet accepted.
    pub fn dynamic_max_bet_egld(&self, balances: Balances) -> (r: u128)
        requires
            self.wf(),
        ensures
            r == self@.dynamic_max(false, balances),
    {
        self.dynamic_max_bet(false, balances)
    }

    /// The largest ROAR bet accepted.
    pub fn dynamic_max_bet_roar(&self, balances: Balances) -> (r: u128)
        requires
            self.wf(),
        ensures
            r == self@.dynamic_max(true, balances),
    {
        self.dynamic_max_bet(true, balances)
    }

    /// Whether every bet of the round is settled.
    pub fn all_bets_settled(&self) -> (r: bool)
        ensures
            r == self@.all_settled(),
    {
        let len = self.bets.len();
        let mut i: usize = 0;
        while i < len
            invariant
                len == self.bets@.len(),
                i <= len,
                forall|j: int| 0 <= j < i ==> #[trigger] self.bets@[j].settled,
            decreases len - i,
        {
            if !self.bets[i].settled {
                assert(!self@.bets[i as int].settled);
                return false;
            }
            i = i + 1;
        }
        true
    }

    /// Whether a resolve has drawn its seed but left bets unsettled.
    pub fn has_unsettled_bets(&self) -> (r: bool)
        ensures
            r == self@.has_unsettled(),
    {
        self.round_seed != 0 && !self.all_bets_settled()
    }

    /// Opens the next round at block `block_nonce`: betting stays open for
    /// `round_blocks` blocks. Refused while paused, while a round is open or
    /// unresolved, and when neither bankroll is above its minimum.
    pub fn start_round(&mut self, block_nonce: u64, balances: Balances) -> (r: Result<
        RoundStarted,
        CasinoError,
    >)
        requires
            old(self).wf(),
        ensures
            final(self).wf(),
            match r {
                Ok(started) => {
                    &&& start_round_error(old(self)@, block_nonce, balances) == None::<CasinoError>
                    &&& final(self)@ == after_start_round(old(self)@, block_nonce)
                    &&& started.round_id == final(self)@.round_id
                    &&& started.end_block == final(self)@.round_end_block
                },
                Err(e) => start_round_error(old(self)@, block_nonce, balances) == Some(e) && final(self)@ == old(self)@,
            },
    {
        if self.require_not_paused().is_err() {
            return Err(CasinoError::Paused);
        }
        if self.round_open {
            return Err(CasinoError::AlreadyOpen);
        }
        if self.has_unsettled_bets() {
            return Err(CasinoError::FinishPreviousResolve);
        }
        if !(self.free_bankroll(false, balances) >= self.min_bankroll_egld || self.free_bankroll(
            true,
            balances,
        ) >= self.min_bankroll_roar) {
            return Err(CasinoError::BankrollThin);
        }
        let next_id = match self.round_id.checked_add(1) {
            Some(id) => id,
            None => {
                return Err(CasinoError::Overflow);
            },
        };
        let end = match block_nonce.checked_add(self.round_blocks) {
            Some(e) => e,
            None => {
                return Err(CasinoError::Overflow);
            },
        };
        self.round_id = next_id;
        self.round_open = true;
        self.round_end_block = end;
        self.round_liability_egld = 0;
        self.round_liability_roar = 0;
        self.round_seed = 0;
        self.bets = Vec::new();
        proof {
            assert(self@.bets =~= Seq::<Bet>::empty());
        }
        Ok(RoundStarted { round_id: next_id, end_block: end })
    }

    /// `caller` bets `payment` (EGLD or ROAR) that the roll comes under `under`.
    /// The rake (EGLD 4%, ROAR 2%) is kept, and the payout the net stake would
    /// win is reserved at once. Refused when the game is paused, no round takes
    /// bets, `under` is outside 2..=96, the round is full, the token is not
    /// accepted, the stake is outside the limits, or the reservation would
    /// leave the bankroll below its minimum. The result is the round id.
    pub fn place_bet(
        &mut self,
        caller: &Address,
        under: u64,
        payment: &Payment,
        block_nonce: u64,
        balances: Balances,
    ) -> (r: Result<u64, CasinoError>)
        requires
            old(self).wf(),
        ensures
            final(self).wf(),
            match r {
                Ok(id) => {
                    &&& place_bet_error(
                        old(self)@,
                        under,
                        payment.token@,
                        payment.nonce,
                        payment.amount,
                        block_nonce,
                        balances,
                    ) == None::<CasinoError>
                    &&& final(self)@ == after_place_bet(
                        old(self)@,
                        *caller,
                        under,
                        !(payment.token@ is Egld),
                        payment.amount,
                    )
                    &&& id == old(self)@.round_id
                },
                Err(e) => place_bet_error(
                    old(self)@,
                    under,
                    payment.token@,
                    payment.nonce,
                    payment.amount,
                    block_nonce,
                    balances,
                ) == Some(e) && final(self)@ == old(self)@,
            },
    {
        if self.require_not_paused().is_err() {
            return Err(CasinoError::Paused);
        }
        if !self.round_open {
            return Err(CasinoError::NoOpenRound);
        }
        if !(block_nonce < self.round_end_block) {
            return Err(CasinoError::BettingClosed);
        }
        if !(under >= MIN_UNDER && under <= MAX_UNDER) {
            return Err(CasinoError::UnderOutOfRange);
        }
        if !(self.bets.len() < MAX_BETS_PER_RESOLVE) {
            return Err(CasinoError::RoundFull);
        }
        let is_roar = !payment.token.is_egld();
        if is_roar {
            if !payment.token.is_esdt(&self.roar_token) {
                return Err(CasinoError::TokenNotAccepted);
            }
            if payment.nonce != 0 {
                return Err(CasinoError::RoarMustBeFungible);
            }
        }
        let amount = payment.amount;
        let min = if is_roar {
            self.min_bet_roar
        } else {
            self.min_bet_egld
        };
        let cap = if is_roar {
            self.cap_max_roar
        } else {
            self.cap_max_egld
        };
        if amount < min {
            return Err(CasinoError::BelowMin);
        }
        if amount > cap {
            return Err(CasinoError::AboveCap);
        }
        if amount > self.dynamic_max_bet(is_roar, balances) {
            return Err(CasinoError::AboveDynamicMax);
        }
        let rake = rake_for(amount, is_roar);
        let net = amount - rake;
        let thin = if is_roar {
            CasinoError::RoarBankrollThin
        } else {
            CasinoError::EgldBankrollThin
        };
        let ghost s = self@;
        let bal = if is_roar {
            balances.roar
        } else {
            balances.egld
        };
        let min_bankroll = if is_roar {
            self.min_bankroll_roar
        } else {
            self.min_bankroll_egld
        };
        // A payout or a reservation beyond u128 exceeds every balance: the
        // free bankroll would be zero, below the (positive) minimum.
        let payout = match potential_payout(net, under) {
            Some(p) => p,
            None => {
                return Err(thin);
            },
        };
        let reserved_after = match self.reserved(is_roar).checked_add(payout) {
            Some(x) => x,
            None => {
                return Err(thin);
            },
        };
        let free_after = if bal > reserved_after {
            bal - reserved_after
        } else {
            0
        };
        if free_after < min_bankroll {
            return Err(thin);
        }
        if reserved_after.checked_add(rake).is_none() {
            return Err(CasinoError::Overflow);
        }
        let bet = Bet {
            player: *caller,
            amount: net,
            under,
            is_roar,
            settled: false,
            won: false,
            roll: 0,
        };
        proof {
            assert(payout == stake_payout(amount, under, is_roar));
            assert(bet_payout(bet) == payout);
            lemma_unsettled_push(s.bets, bet, false, s.bets.len() as int);
            lemma_unsettled_push(s.bets, bet, true, s.bets.len() as int);
            assert(s.bets.push(bet)[s.bets.len() as int] == bet);
        }
        if is_roar {
            self.round_liability_roar = self.round_liability_roar + payout;
            if rake > 0 {
                self.rake_accrued_roar = self.rake_accrued_roar + rake;
            }
        } else {
            self.round_liability_egld = self.round_liability_egld + payout;
            if rake > 0 {
                self.rake_accrued_egld = self.rake_accrued_egld + rake;
            }
        }
        self.bets.push(bet);
        proof {
            assert forall|i: int| 0 <= i < self@.bets.len() implies MIN_UNDER
                <= #[trigger] self@.bets[i].under <= MAX_UNDER by {
                if i < s.bets.len() {
                    assert(self@.bets[i] == s.bets[i]);
                }
            }
        }
        Ok(self.round_id)
    }

    /// Resolves the round once betting has closed. The first call draws the
    /// seed (`random` mixed with the round id) and closes the round; every
    /// unsettled bet then gets its roll, wins when the roll is under its
    /// `under`, and a winning bet's payout becomes claimable by its player in
    /// the bet's token. The round's reservations and seed are then cleared, and
    /// the game pauses when both free bankrolls are below their minimum. The
    /// result is the seed when this call drew it, for the event.
    pub fn resolve_round(&mut self, block_nonce: u64, random: u64, balances: Balances) -> (r:
        Result<Option<u64>, CasinoError>)
        requires
            old(self).wf(),
        ensures
            final(self).wf(),
            match r {
                Ok(drawn) => {
                    &&& resolve_error(old(self)@, block_nonce) == None::<CasinoError>
                    &&& final(self)@ == after_resolve(old(self)@, random, balances)
                    &&& drawn == (if old(self)@.round_seed == 0 {
                        Some(resolve_seed(old(self)@, random))
                    } else {
                        None
                    })
                },
                Err(e) => resolve_error(old(self)@, block_nonce) == Some(e) && final(self)@ == old(self)@,
            },
    {
        let open = self.round_open;
        let resolving = self.round_seed != 0;
        if !(open || resolving) {
            return Err(CasinoError::NothingToResolve);
        }
        if !(block_nonce > self.round_end_block) {
            return Err(CasinoError::TooEarly);
        }
        let ghost s0 = self@;
        let mut drawn: Option<u64> = None;
        if self.round_seed == 0 {
            let seed = random ^ self.round_id;
            // A zero seed is stored as "no seed", as the chain stores zero.
            self.round_seed = seed;
            self.round_open = false;
            drawn = Some(seed);
        }
        let seed = self.round_seed;
        let ghost pre = self@;
        let len = self.bets.len();
        proof {
            lemma_winnings_bounds(pre.bets, seed, false, 0, len as int);
            lemma_winnings_bounds(pre.bets, seed, true, 0, len as int);
        }
        let mut processed: usize = 0;
        let mut i: usize = 0;
        while i < len
            invariant
                s0.inv(),
                pre == (CasinoView { round_seed: pre.round_seed, round_open: pre.round_open, ..s0 }),
                seed == resolve_seed(s0, random),
                len == pre.bets.len(),
                len <= MAX_BETS_PER_RESOLVE,
                i <= len,
                processed <= i,
                self.bets@.len() == len,
                forall|j: int| 0 <= j < i ==> #[trigger] self.bets@[j] == settle_bet(pre.bets[j], seed, j + 1),
                forall|j: int| i <= j < len ==> #[trigger] self.bets@[j] == pre.bets[j],
                forall|j: int| 0 <= j < len ==> #[trigger] pre.bets[j].under >= MIN_UNDER,
                self.claimable_egld@ == credit_round(pre.claimable_egld, pre.bets, seed, false, i as int),
                self.claimable_roar@ == credit_round(pre.claimable_roar, pre.bets, seed, true, i as int),
                self.total_claimable_egld == pre.total_claimable_egld + round_winnings(pre.bets, seed, false, i as int),
                self.total_claimable_roar == pre.total_claimable_roar + round_winnings(pre.bets, seed, true, i as int),
                entries_wf(self.claimable_egld@),
                entries_wf(self.claimable_roar@),
                claims_sum(self.claimable_egld@) == self.total_claimable_egld,
                claims_sum(self.claimable_roar@) == self.total_claimable_roar,
                pre.total_claimable_egld + round_winnings(pre.bets, seed, false, len as int) <= u128::MAX,
                pre.total_claimable_roar + round_winnings(pre.bets, seed, true, len as int) <= u128::MAX,
                self@ == (CasinoView {
                    bets: self@.bets,
                    claimable_egld: self@.claimable_egld,
                    claimable_roar: self@.claimable_roar,
                    total_claimable_egld: self@.total_claimable_egld,
                    total_claimable_roar: self@.total_claimable_roar,
                    ..pre
                }),
            ensures
                i == len,
            decreases len - i,
        {
            if processed >= MAX_BETS_PER_RESOLVE {
                break;
            }
            let ghost before = self@;
            let mut bet = self.bets[i];
            proof {
                assert(bet == pre.bets[i as int]);
                lemma_winnings_bounds(pre.bets, seed, false, i as int + 1, len as int);
                lemma_winnings_bounds(pre.bets, seed, true, i as int + 1, len as int);
                lemma_winnings_bounds(pre.bets, seed, false, i as int, i as int + 1);
                lemma_winnings_bounds(pre.bets, seed, true, i as int, i as int + 1);
                lemma_payout_nonneg(bet.amount as int, bet.under as int);
            }
            if !bet.settled {
                let roll = roll_for(seed, (i + 1) as u64);
                bet.roll = roll;
                bet.won = roll < bet.under;
                bet.settled = true;
                self.bets.set(i, bet);
                if bet.won {
                    let payout = match potential_payout(bet.amount, bet.under) {
                        Some(p) => p,
                        None => {
                            proof {
                                assert(bet_winnings(pre.bets[i as int], seed, i + 1, bet.is_roar)
                                    == bet_payout(pre.bets[i as int]));
                            }
                            0
                        },
                    };
                    proof {
                        assert(bet_winnings(pre.bets[i as int], seed, i + 1, bet.is_roar) == payout);
                        lemma_credit(
                            before.claimable(bet.is_roar),
                            bet.player,
                            payout as int,
                        );
                    }
                    if bet.is_roar {
                        self.claimable_roar.credit(&bet.player, payout);
                        self.total_claimable_roar = self.total_claimable_roar + payout;
                    } else {
                        self.claimable_egld.credit(&bet.player, payout);
                        self.total_claimable_egld = self.total_claimable_egld + payout;
                    }
                }
                processed = processed + 1;
            }
            proof {
                assert(bet_winnings(pre.bets[i as int], seed, i + 1, !bet.is_roar) == 0);
                if !bet.won || pre.bets[i as int].settled {
                    assert(bet_winnings(pre.bets[i as int], seed, i + 1, bet.is_roar) == 0);
                }
                assert(self.bets@[i as int] == settle_bet(pre.bets[i as int], seed, i + 1));
            }
            i = i + 1;
        }
        proof {
            assert(i == len);
            assert(self.bets@ =~= settle_all(pre.bets, seed));
            assert(settle_all(pre.bets, seed) == settle_all(s0.bets, seed));
        }
        if self.all_bets_settled() {
            self.round_liability_egld = 0;
            self.round_liability_roar = 0;
            self.round_seed = 0;
            proof {
                lemma_winnings_bounds(s0.bets, seed, false, len as int, len as int);
                lemma_winnings_bounds(s0.bets, seed, true, len as int, len as int);
            }
            if self.free_bankroll(false, balances) < self.min_bankroll_egld && self.free_bankroll(
                true,
                balances,
            ) < self.min_bankroll_roar {
                self.is_paused = true;
            }
        }
        proof {
            assert(self@.all_settled());
            lemma_unsettled_of_settled(s0.bets, seed, false, len as int);
            lemma_unsettled_of_settled(s0.bets, seed, true, len as int);
            assert forall|j: int| 0 <= j < self@.bets.len() implies MIN_UNDER
                <= #[trigger] self@.bets[j].under <= MAX_UNDER by {
                assert(self@.bets[j] == settle_bet(s0.bets[j], seed, j + 1));
            }
        }
        Ok(drawn)
    }

    /// `caller` collects all of their EGLD and ROAR winnings. Refused when
    /// there is nothing to collect. The result says what to transfer.
    pub fn claim(&mut self, caller: &Address) -> (r: Result<Claimed, CasinoError>)
        requires
            old(self).wf(),
        ensures
            final(self).wf(),
            match r {
                Ok(c) => {
                    &&& c.egld == claim_of(old(self)@.claimable_egld, *caller)
                    &&& c.roar == claim_of(old(self)@.claimable_roar, *caller)
                    &&& (c.egld > 0 || c.roar > 0)
                    &&& final(self)@ == after_claim(old(self)@, *caller)
                },
                Err(e) => {
                    &&& e == CasinoError::NothingToClaim
                    &&& claim_of(old(self)@.claimable_egld, *caller) == 0
                    &&& claim_of(old(self)@.claimable_roar, *caller) == 0
                    &&& final(self)@ == old(self)@
                },
            },
    {
        proof {
            lemma_claim_le_sum(self@.claimable_egld, *caller);
            lemma_claim_le_sum(self@.claimable_roar, *caller);
            lemma_remove_player(self@.claimable_egld, *caller);
            lemma_remove_player(self@.claimable_roar, *caller);
        }
        let egld_amt = self.claimable_egld.get(caller);
        let roar_amt = self.claimable_roar.get(caller);
        if !(egld_amt > 0 || roar_amt > 0) {
            return Err(CasinoError::NothingToClaim);
        }
        let egld_taken = self.claimable_egld.take(caller);
        let roar_taken = self.claimable_roar.take(caller);
        if egld_taken > 0 {
            self.total_claimable_egld = self.total_claimable_egld - egld_taken;
        }
        if roar_taken > 0 {
            self.total_claimable_roar = self.total_claimable_roar - roar_taken;
        }
        Ok(Claimed { egld: egld_taken, roar: roar_taken })
    }

    /// Skims one token: above a buffer of twice the minimum bankroll, sends
    /// half the surplus plus the accrued rake (at most the surplus), taken out
    /// of the rake first.
    fn skim_one(&mut self, is_roar: bool, balances: Balances) -> (sent: u128)
        requires
            old(self).wf(),
        ensures
            final(self).wf(),
            sent == skim_sent(old(self)@, is_roar, balances),
            final(self)@ == (if is_roar {
                CasinoView {
                    rake_accrued_roar: rake_after_skim(old(self)@.rake_accrued_roar, sent as int),
                    ..old(self)@
                }
            } else {
                CasinoView {
                    rake_accrued_egld: rake_after_skim(old(self)@.rake_accrued_egld, sent as int),
                    ..old(self)@
                }
            }),
    {
        let min = if is_roar {
            self.min_bankroll_roar
        } else {
            self.min_bankroll_egld
        };
        // A buffer beyond u128 is above every free bankroll: nothing to skim.
        let buffer = match min.checked_mul(SKIM_BUFFER_MULT as u128) {
            Some(b) => b,
            None => {
                return 0;
            },
        };
        let free = self.free_bankroll(is_roar, balances);
        if free <= buffer {
            return 0;
        }
        let accrued = if is_roar {
            self.rake_accrued_roar
        } else {
            self.rake_accrued_egld
        };
        let send_amount = skim_amount(free, buffer, accrued);
        if send_amount == 0 {
            return 0;
        }
        let rake_left = if accrued <= send_amount {
            0
        } else {
            accrued - send_amount
        };
        if is_roar {
            self.rake_accrued_roar = rake_left;
        } else {
            self.rake_accrued_egld = rake_left;
        }
        send_amount
    }

    /// Sends the surplus of each bankroll to the treasury, when no round is
    /// open or being resolved. The result says what to send (zero: nothing).
    pub fn skim_to_treasury(&mut self, balances: Balances) -> (r: Result<Skimmed, CasinoError>)
        requires
            old(self).wf(),
        ensures
            final(self).wf(),
            match r {
                Ok(sk) => {
                    &&& skim_error(old(self)@) == None::<CasinoError>
                    &&& sk.egld == skim_sent(old(self)@, false, balances)
                    &&& sk.roar == skim_sent(old(self)@, true, balances)
                    &&& final(self)@ == after_skim(old(self)@, balances)
                },
                Err(e) => skim_error(old(self)@) == Some(e) && final(self)@ == old(self)@,
            },
    {
        if self.round_open {
            return Err(CasinoError::RoundOpen);
        }
        if self.round_seed != 0 {
            return Err(CasinoError::ResolveInProgress);
        }
        let ghost s0 = self@;
        let egld = self.skim_one(false, balances);
        let roar = self.skim_one(true, balances);
        proof {
            assert(skim_sent(s0, true, balances) == skim_sent(
                CasinoView { rake_accrued_egld: rake_after_skim(s0.rake_accrued_egld, egld as int), ..s0 },
                true,
                balances,
            ));
        }
        Ok(Skimmed { egld, roar })
    }

    /// The treasury address.
    pub fn treasury(&self) -> (r: Address)
        ensures
            r == self@.treasury,
    {
        self.treasury
    }

    /// The ROAR token identifier.
    pub fn roar_token(&self) -> (r: Vec<u8>)
        ensures
            r@ == self@.roar_token,
    {
        copy_bytes(&self.roar_token)
    }

    /// The smallest EGLD bet.
    pub fn min_bet_egld(&self) -> (r: u128)
        ensures
            r == self@.min_bet_egld,
    {
        self.min_bet_egld
    }

    /// The hard cap on EGLD bets.
    pub fn cap_max_egld(&self) -> (r: u128)
        ensures
            r == self@.cap_max_egld,
    {
        self.cap_max_egld
    }

    /// The smallest ROAR bet.
    pub fn min_bet_roar(&self) -> (r: u128)
        ensures
            r == self@.min_bet_roar,
    {
        self.min_bet_roar
    }

    /// The hard cap on ROAR bets.
    pub fn cap_max_roar(&self) -> (r: u128)
        ensures
            r == self@.cap_max_roar,
    {
        self.cap_max_roar
    }

    /// How many blocks a round takes bets.
    pub fn round_blocks(&self) -> (r: u64)
        ensures
            r == self@.round_blocks,
    {
        self.round_blocks
    }

    /// The minimum free EGLD bankroll.
    pub fn min_bankroll_egld(&self) -> (r: u128)
        ensures
            r == self@.min_bankroll_egld,
    {
        self.min_bankroll_egld
    }

    /// The minimum free ROAR bankroll.
    pub fn min_bankroll_roar(&self) -> (r: u128)
        ensures
            r == self@.min_bankroll_roar,
    {
        self.min_bankroll_roar
    }

    /// Whether the game is paused.
    pub fn is_paused(&self) -> (r: bool)
        ensures
            r == self@.is_paused,
    {
        self.is_paused
    }

    /// The id of the latest round.
    pub fn round_id(&self) -> (r: u64)
        ensures
            r == self@.round_id,
    {
        self.round_id
    }

    /// Whether a round takes bets.
    pub fn round_open(&self) -> (r: bool)
        ensures
            r == self@.round_open,
    {
        self.round_open
    }

    /// The block at which betting closes.
    pub fn round_end_block(&self) -> (r: u64)
        ensures
            r == self@.round_end_block,
    {
        self.round_end_block
    }

    /// The seed of the round being resolved (0: none).
    pub fn round_seed(&self) -> (r: u64)
        ensures
            r == self@.round_seed,
    {
        self.round_seed
    }

    /// The EGLD payouts reserved for the round.
    pub fn round_liability_egld(&self) -> (r: u128)
        ensures
            r == self@.round_liability_egld,
    {
        self.round_liability_egld
    }

    /// The ROAR payouts reserved for the round.
    pub fn round_liability_roar(&self) -> (r: u128)
        ensures
            r == self@.round_liability_roar,
    {
        self.round_liability_roar
    }

    /// The EGLD rake kept and not yet skimmed.
    pub fn rake_accrued_egld(&self) -> (r: u128)
        ensures
            r == self@.rake_accrued_egld,
    {
        self.rake_accrued_egld
    }

    /// The ROAR rake kept and not yet skimmed.
    pub fn rake_accrued_roar(&self) -> (r: u128)
        ensures
            r == self@.rake_accrued_roar,
    {
        self.rake_accrued_roar
    }

    /// What `user` can claim in EGLD.
    pub fn claimable_egld(&self, user: &Address) -> (r: u128)
        requires
            self.wf(),
        ensures
            r == claim_of(self@.claimable_egld, *user),
    {
        self.claimable_egld.get(user)
    }

    /// What `user` can claim in ROAR.
    pub fn claimable_roar(&self, user: &Address) -> (r: u128)
        requires
            self.wf(),
        ensures
            r == claim_of(self@.claimable_roar, *user),
    {
        self.claimable_roar.get(user)
    }

    /// All unclaimed EGLD winnings.
    pub fn total_claimable_egld(&self) -> (r: u128)
        ensures
            r == self@.total_claimable_egld,
    {
        self.total_claimable_egld
    }

    /// All unclaimed ROAR winnings.
    pub fn total_claimable_roar(&self) -> (r: u128)
        ensures
            r == self@.total_claimable_roar,
    {
        self.total_claimable_roar
    }

    /// How many bets the round holds.
    pub fn get_bet_count(&self) -> (r: usize)
        ensures
            r == self@.bets.len(),
    {
        self.bets.len()
    }

    /// The bet at (0-based) position `index` of the round.
    pub fn bet(&self, index: usize) -> (r: Option<Bet>)
        ensures
            r == (if index < self@.bets.len() {
                Some(self@.bets[index as int])
            } else {
                None
            }),
    {
        if index < self.bets.len() {
            Some(self.bets[index])
        } else {
            None
        }
    }

    /// The rakes, in basis points: EGLD first, then ROAR.
    pub fn get_rake_bps(&self) -> (r: (u64, u64))
        ensures
            r == (RAKE_EGLD_BPS, RAKE_ROAR_BPS),
    {
        (RAKE_EGLD_BPS, RAKE_ROAR_BPS)
    }

    /// Every field, as plain values.
    pub fn to_state(&self) -> (r: CasinoState)
        ensures
            r@ == self@,
    {
        let mut bets: Vec<Bet> = Vec::new();
        let mut i: usize = 0;
        while i < self.bets.len()
            invariant
                i <= self.bets@.len(),
                bets@ == self.bets@.subrange(0, i as int),
            decreases self.bets@.len() - i,
        {
            bets.push(self.bets[i]);
            i = i + 1;
            proof {
                assert(bets@ =~= self.bets@.subrange(0, i as int));
            }
        }
        proof {
            assert(bets@ =~= self.bets@);
        }
        CasinoState {
            treasury: self.treasury,
            roar_token: copy_bytes(&self.roar_token),
            min_bet_egld: self.min_bet_egld,
            cap_max_egld: self.cap_max_egld,
            min_bet_roar: self.min_bet_roar,
            cap_max_roar: self.cap_max_roar,
            round_blocks: self.round_blocks,
            min_bankroll_egld: self.min_bankroll_egld,
            min_bankroll_roar: self.min_bankroll_roar,
            is_paused: self.is_paused,
            round_id: self.round_id,
            round_open: self.round_open,
            round_end_block: self.round_end_block,
            round_seed: self.round_seed,
            round_liability_egld: self.round_liability_egld,
            round_liability_roar: self.round_liability_roar,
            rake_accrued_egld: self.rake_accrued_egld,
            rake_accrued_roar: self.rake_accrued_roar,
            bets,
            claimable_egld: self.claimable_egld.entries(),
            claimable_roar: self.claimable_roar.entries(),
            total_claimable_egld: self.total_claimable_egld,
            total_claimable_roar: self.total_claimable_roar,
        }
    }

    /// Restores a casino from its fields, refusing any that break the
    /// casino's invariant (such as a stored state that was tampered with).
    pub fn from_state(st: CasinoState) -> (r: Option<PridevaultCasino>)
        ensures
            r is Some <==> st@.inv(),
            r matches Some(c) ==> c@ == st@ && c.wf(),
    {
        if st.treasury.is_zero() {
            return None;
        }
        if !is_valid_esdt_identifier(&st.roar_token) {
            return None;
        }
        if !(st.min_bet_egld > 0 && st.min_bet_egld <= st.cap_max_egld) {
            return None;
        }
        if !(st.min_bet_roar > 0 && st.min_bet_roar <= st.cap_max_roar) {
            return None;
        }
        if st.round_blocks < 2 || st.min_bankroll_egld == 0 || st.min_bankroll_roar == 0 {
            return None;
        }
        if st.round_seed != 0 && st.round_open {
            return None;
        }
        if st.bets.len() > MAX_BETS_PER_RESOLVE {
            return None;
        }
        let n = st.bets.len();
        let mut up_egld: u128 = 0;
        let mut up_roar: u128 = 0;
        let mut i: usize = 0;
        while i < n
            invariant
                n == st.bets@.len(),
                i <= n,
                forall|j: int| 0 <= j < i ==> MIN_UNDER <= #[trigger] st.bets@[j].under <= MAX_UNDER,
                forall|j: int|
                    0 <= j < i && #[trigger] st.bets@[j].settled ==> st.bets@[j].won == (
                    st.bets@[j].roll < st.bets@[j].under) && st.bets@[j].roll < ROLL_MOD,
                up_egld == unsettled_payouts(st.bets@, false, i as int),
                up_roar == unsettled_payouts(st.bets@, true, i as int),
            decreases n - i,
        {
            let b = st.bets[i];
            if !(b.under >= MIN_UNDER && b.under <= MAX_UNDER) {
                return None;
            }
            if b.settled && !(b.won == (b.roll < b.under) && b.roll < ROLL_MOD) {
                return None;
            }
            if !b.settled {
                let p = match potential_payout(b.amount, b.under) {
                    Some(p) => p,
                    None => {
                        proof {
                            if st@.inv() {
                                lemma_unsettled_bounds(st.bets@, b.is_roar, i as int + 1, n as int);
                            }
                        }
                        return None;
                    },
                };
                if b.is_roar {
                    up_roar = match up_roar.checked_add(p) {
                        Some(x) => x,
                        None => {
                            proof {
                                if st@.inv() {
                                    lemma_unsettled_bounds(st.bets@, true, i as int + 1, n as int);
                                }
                            }
                            return None;
                        },
                    };
                } else {
                    up_egld = match up_egld.checked_add(p) {
                        Some(x) => x,
                        None => {
                            proof {
                                if st@.inv() {
                                    lemma_unsettled_bounds(st.bets@, false, i as int + 1, n as int);
                                }
                            }
                            return None;
                        },
                    };
                }
            }
            i = i + 1;
        }
        if up_egld != st.round_liability_egld || up_roar != st.round_liability_roar {
            return None;
        }
        let reserved_egld = match st.total_claimable_egld.checked_add(st.round_liability_egld) {
            Some(x) => x,
            None => {
                return None;
            },
        };
        let reserved_roar = match st.total_claimable_roar.checked_add(st.round_liability_roar) {
            Some(x) => x,
            None => {
                return None;
            },
        };
        if reserved_egld.checked_add(st.rake_accrued_egld).is_none() || reserved_roar.checked_add(
            st.rake_accrued_roar,
        ).is_none() {
            return None;
        }
        let claimable_egld = match Ledger::from_entries(st.claimable_egld) {
            Some(l) => l,
            None => {
                return None;
            },
        };
        let claimable_roar = match Ledger::from_entries(st.claimable_roar) {
            Some(l) => l,
            None => {
                return None;
            },
        };
        match claimable_egld.sum() {
            Some(x) => {
                if x != st.total_claimable_egld {
                    return None;
                }
            },
            None => {
                return None;
            },
        }
        match claimable_roar.sum() {
            Some(x) => {
                if x != st.total_claimable_roar {
                    return None;
                }
            },
            None => {
                return None;
            },
        }
        Some(
            PridevaultCasino {
                treasury: st.treasury,
                roar_token: st.roar_token,
                min_bet_egld: st.min_bet_egld,
                cap_max_egld: st.cap_max_egld,
                min_bet_roar: st.min_bet_roar,
                cap_max_roar: st.cap_max_roar,
                round_blocks: st.round_blocks,
                min_bankroll_egld: st.min_bankroll_egld,
                min_bankroll_roar: st.min_bankroll_roar,
                is_paused: st.is_paused,
                round_id: st.round_id,
                round_open: st.round_open,
                round_end_block: st.round_end_block,
                round_seed: st.round_seed,
                round_liability_egld: st.round_liability_egld,
                round_liability_roar: st.round_liability_roar,
                rake_accrued_egld: st.rake_accrued_egld,
                rake_accrued_roar: st.rake_accrued_roar,
                bets: st.bets,
                claimable_egld,
                claimable_roar,
                total_claimable_egld: st.total_claimable_egld,
                total_claimable_roar: st.total_claimable_roar,
            },
        )
    }
}

} // verus!
