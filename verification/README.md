# ROAR dice casino, verified core

A round-based dice game paid in EGLD or the ROAR token: players bet that a
0–99 roll comes under a number between 2 and 96; the house keeps a rake
(EGLD 4%, ROAR 2%) and a 5% edge on payouts; the largest bet is 2% of the free
bankroll, between the minimum bet and a hard cap; winnings wait to be claimed;
the surplus above twice the minimum bankroll is skimmed to a treasury.

- `src/` is the library, with its proofs:
  - `token.rs`: addresses, tokens, payments, the ESDT identifier check;
  - `math.rs`: rake, payout, roll, bet limit and skim arithmetic;
  - `ledger.rs`: per-player claimable winnings;
  - `model.rs`: the state as plain values and what each operation makes of it;
  - `casino.rs`: the casino and its endpoints;
  - `laws.rs`: properties that hold across operations.
- `app/` is the MultiversX contract that stores the state, reads the chain and
  carries out transfers and events.
- `tests/` runs the library on concrete values.
