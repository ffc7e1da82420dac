//! Verified core of the ROAR dice casino: a round-based dice game on EGLD and
//! the ROAR token, with a rake, a house edge, a bankroll-bound bet limit,
//! claimable winnings and a skim of the surplus to a treasury.

pub mod casino;
pub mod laws;
pub mod ledger;
pub mod math;
pub mod model;
pub mod token;

pub use casino::{CasinoState, Claimed, PridevaultCasino, RoundStarted, Skimmed};
pub use ledger::ClaimEntry;
pub use math::{potential_payout, rake_for, roll_for};
pub use model::{Balances, Bet, CasinoError};
pub use token::{is_valid_esdt_identifier, Address, Payment, TokenId};
