use pridevault_casino::{
    is_valid_esdt_identifier, potential_payout, rake_for, roll_for, Address, Balances, Bet,
    CasinoError, CasinoState, ClaimEntry, Payment, PridevaultCasino, TokenId,
};

const EGLD: u128 = 1_000_000_000_000_000_000;

fn treasury() -> Address {
    Address([9u8; 32])
}

fn owner() -> Address {
    Address([7u8; 32])
}

fn player(n: u8) -> Address {
    Address([n; 32])
}

fn roar_id() -> Vec<u8> {
    b"ROAR-e5185d".to_vec()
}

fn egld(amount: u128) -> Payment {
    Payment { token: TokenId::Egld, nonce: 0, amount }
}

fn roar(amount: u128) -> Payment {
    Payment { token: TokenId::Esdt(roar_id()), nonce: 0, amount }
}

/// The configuration the README recommends for a small launch.
fn casino() -> PridevaultCasino {
    PridevaultCasino::init(
        treasury(),
        roar_id(),
        EGLD / 20,
        EGLD / 5,
        EGLD,
        500 * EGLD,
        10,
        5 * EGLD,
        2_500 * EGLD,
    )
    .unwrap()
}

fn bank() -> Balances {
    Balances { egld: 10 * EGLD, roar: 5_000 * EGLD }
}

fn expected_payout(amount: u128, under: u64) -> u128 {
    amount * 100 / under as u128 * 9_500 / 10_000
}

fn expected_roll(seed: u64, index: u64) -> u64 {
    (((seed as u128 * 1_000_003 + index as u128) % (1u128 << 64)) % 100) as u64
}

#[test]
fn readme_payout_example_on_net_stake() {
    // 1 ROAR at under 50: net 0.98 after the 2% rake, payout about 1.86.
    let rake = rake_for(EGLD, true);
    assert_eq!(rake, EGLD / 50);
    let net = EGLD - rake;
    assert_eq!(net, 980_000_000_000_000_000);
    assert_eq!(potential_payout(net, 50), Some(1_862_000_000_000_000_000));
}

#[test]
fn egld_rake_is_four_percent() {
    assert_eq!(rake_for(EGLD, false), 40_000_000_000_000_000);
    assert_eq!(rake_for(99, false), 3);
    assert_eq!(rake_for(u128::MAX, false), u128::MAX / 10_000 * 400 + (u128::MAX % 10_000) * 400 / 10_000);
}

#[test]
fn payout_formula_rounds_down() {
    assert_eq!(potential_payout(98, 50), Some(186));
    assert_eq!(potential_payout(7, 3), Some(221));
    assert_eq!(potential_payout(7, 3), Some(expected_payout(7, 3)));
    assert_eq!(potential_payout(1, 96), Some(0));
    assert_eq!(potential_payout(u128::MAX, 2), None);
    assert_eq!(potential_payout(u128::MAX / 10_000, 96), Some(expected_payout(u128::MAX / 10_000, 96)));
    // 50 * amount fits, 47.5 * amount too
    let big = u128::MAX / 50;
    assert_eq!(potential_payout(big, 2), Some(big / 20 * 950 + (big % 20) * 950 / 20));
}

#[test]
fn house_edge_on_concrete_values() {
    for under in 2u64..=96 {
        for amount in [1u128, 17, 1_000, 987_654_321, EGLD] {
            let p = potential_payout(amount, under).unwrap();
            assert!(p * under as u128 <= amount * 95);
        }
    }
}

#[test]
fn rolls_are_die_faces() {
    for seed in [0u64, 1, 42, u64::MAX, 0x1234_5678_9abc_def0] {
        for index in 1u64..=50 {
            let r = roll_for(seed, index);
            assert!(r < 100);
            assert_eq!(r, expected_roll(seed, index));
        }
    }
}

#[test]
fn esdt_identifier_format() {
    assert!(is_valid_esdt_identifier(&roar_id()));
    assert!(is_valid_esdt_identifier(&b"ABC-123456".to_vec()));
    assert!(is_valid_esdt_identifier(&b"ABCDEFGHIJ-abcdef".to_vec()));
    assert!(!is_valid_esdt_identifier(&b"roar-e5185d".to_vec()));
    assert!(!is_valid_esdt_identifier(&b"ROAR-E5185D".to_vec()));
    assert!(!is_valid_esdt_identifier(&b"AB-123456".to_vec()));
    assert!(!is_valid_esdt_identifier(&b"ABCDEFGHIJK-abcdef".to_vec()));
    assert!(!is_valid_esdt_identifier(&b"ROAR_e5185d".to_vec()));
    assert!(!is_valid_esdt_identifier(&Vec::new()));
}

#[test]
fn init_refusals() {
    let init = |t: Address, id: &[u8], mbe: u128, cme: u128, mbr: u128, cmr: u128, rb: u64, mke: u128, mkr: u128| {
        PridevaultCasino::init(t, id.to_vec(), mbe, cme, mbr, cmr, rb, mke, mkr).err()
    };
    assert_eq!(init(Address([0; 32]), b"ROAR-e5185d", 1, 2, 1, 2, 2, 1, 1), Some(CasinoError::TreasuryRequired));
    assert_eq!(init(treasury(), b"ROAR", 1, 2, 1, 2, 2, 1, 1), Some(CasinoError::BadRoarToken));
    assert_eq!(init(treasury(), b"ROAR-e5185d", 0, 2, 1, 2, 2, 1, 1), Some(CasinoError::BadEgldBets));
    assert_eq!(init(treasury(), b"ROAR-e5185d", 3, 2, 1, 2, 2, 1, 1), Some(CasinoError::BadEgldBets));
    assert_eq!(init(treasury(), b"ROAR-e5185d", 1, 2, 0, 2, 2, 1, 1), Some(CasinoError::BadRoarBets));
    assert_eq!(init(treasury(), b"ROAR-e5185d", 1, 2, 5, 2, 2, 1, 1), Some(CasinoError::BadRoarBets));
    assert_eq!(init(treasury(), b"ROAR-e5185d", 1, 2, 1, 2, 1, 1, 1), Some(CasinoError::RoundTooShort));
    assert_eq!(init(treasury(), b"ROAR-e5185d", 1, 2, 1, 2, 2, 0, 1), Some(CasinoError::MinBankroll));
    assert_eq!(init(treasury(), b"ROAR-e5185d", 1, 2, 1, 2, 2, 1, 0), Some(CasinoError::MinBankroll));
    assert_eq!(init(treasury(), b"ROAR-e5185d", 1, 1, 1, 1, 2, 1, 1), None);
}

#[test]
fn init_state() {
    let c = casino();
    assert_eq!(c.treasury(), treasury());
    assert_eq!(c.roar_token(), roar_id());
    assert_eq!(c.min_bet_egld(), EGLD / 20);
    assert_eq!(c.cap_max_egld(), EGLD / 5);
    assert_eq!(c.min_bet_roar(), EGLD);
    assert_eq!(c.cap_max_roar(), 500 * EGLD);
    assert_eq!(c.round_blocks(), 10);
    assert_eq!(c.min_bankroll_egld(), 5 * EGLD);
    assert_eq!(c.min_bankroll_roar(), 2_500 * EGLD);
    assert!(!c.is_paused());
    assert_eq!(c.round_id(), 0);
    assert!(!c.round_open());
    assert_eq!(c.round_seed(), 0);
    assert_eq!(c.get_bet_count(), 0);
    assert_eq!(c.get_rake_bps(), (400, 200));
    assert_eq!(c.free_bankroll_egld(bank()), 10 * EGLD);
    assert_eq!(c.free_bankroll_roar(bank()), 5_000 * EGLD);
}

#[test]
fn fund_bankroll_checks() {
    let c = casino();
    assert_eq!(c.fund_bankroll(&player(1), &owner(), &egld(EGLD)), Err(CasinoError::OnlyOwner));
    assert_eq!(c.fund_bankroll(&owner(), &owner(), &egld(0)), Err(CasinoError::Zero));
    let other = Payment { token: TokenId::Esdt(b"USDC-c76f1f".to_vec()), nonce: 0, amount: 5 };
    assert_eq!(c.fund_bankroll(&owner(), &owner(), &other), Err(CasinoError::TokenNotAccepted));
    assert_eq!(c.fund_bankroll(&owner(), &owner(), &egld(10 * EGLD)), Ok(10 * EGLD));
    assert_eq!(c.fund_bankroll(&owner(), &owner(), &roar(5_000 * EGLD)), Ok(5_000 * EGLD));
}

#[test]
fn owner_settings() {
    let mut c = casino();
    assert_eq!(c.pause(&player(1), &owner()), Err(CasinoError::OnlyOwner));
    assert_eq!(c.pause(&owner(), &owner()), Ok(()));
    assert!(c.is_paused());
    assert_eq!(c.unpause(&player(1), &owner()), Err(CasinoError::OnlyOwner));
    assert_eq!(c.unpause(&owner(), &owner()), Ok(()));
    assert!(!c.is_paused());
    assert_eq!(c.set_treasury(&owner(), &owner(), Address([0; 32])), Err(CasinoError::TreasuryRequired));
    assert_eq!(c.set_treasury(&player(2), &owner(), player(3)), Err(CasinoError::OnlyOwner));
    assert_eq!(c.set_treasury(&owner(), &owner(), player(3)), Ok(()));
    assert_eq!(c.treasury(), player(3));
    assert_eq!(c.set_roar_token(&owner(), &owner(), b"bad".to_vec()), Err(CasinoError::BadRoarToken));
    assert_eq!(c.set_roar_token(&owner(), &owner(), b"TROAR-123abc".to_vec()), Ok(()));
    assert_eq!(c.roar_token(), b"TROAR-123abc".to_vec());
}

#[test]
fn paused_game_refuses_rounds_and_bets() {
    let mut c = casino();
    c.pause(&owner(), &owner()).unwrap();
    assert_eq!(c.start_round(100, bank()).err(), Some(CasinoError::Paused));
    c.unpause(&owner(), &owner()).unwrap();
    c.start_round(100, bank()).unwrap();
    c.pause(&owner(), &owner()).unwrap();
    assert_eq!(c.place_bet(&player(1), 50, &egld(EGLD / 10), 101, bank()), Err(CasinoError::Paused));
}

#[test]
fn start_round_checks() {
    let mut c = casino();
    let thin = Balances { egld: 5 * EGLD - 1, roar: 2_500 * EGLD - 1 };
    assert_eq!(c.start_round(100, thin).err(), Some(CasinoError::BankrollThin));
    // one healthy bankroll is enough
    let one = Balances { egld: 5 * EGLD, roar: 0 };
    let started = c.start_round(100, one).unwrap();
    assert_eq!(started.round_id, 1);
    assert_eq!(started.end_block, 110);
    assert!(c.round_open());
    assert_eq!(c.round_end_block(), 110);
    assert_eq!(c.start_round(100, bank()).err(), Some(CasinoError::AlreadyOpen));
    let mut d = casino();
    assert_eq!(d.start_round(u64::MAX - 5, bank()).err(), Some(CasinoError::Overflow));
}

#[test]
fn bet_refusals() {
    let mut c = casino();
    assert_eq!(c.place_bet(&player(1), 50, &egld(EGLD / 10), 101, bank()), Err(CasinoError::NoOpenRound));
    c.start_round(100, bank()).unwrap();
    assert_eq!(c.place_bet(&player(1), 50, &egld(EGLD / 10), 110, bank()), Err(CasinoError::BettingClosed));
    assert_eq!(c.place_bet(&player(1), 1, &egld(EGLD / 10), 101, bank()), Err(CasinoError::UnderOutOfRange));
    assert_eq!(c.place_bet(&player(1), 97, &egld(EGLD / 10), 101, bank()), Err(CasinoError::UnderOutOfRange));
    let other = Payment { token: TokenId::Esdt(b"USDC-c76f1f".to_vec()), nonce: 0, amount: EGLD };
    assert_eq!(c.place_bet(&player(1), 50, &other, 101, bank()), Err(CasinoError::TokenNotAccepted));
    let sft = Payment { token: TokenId::Esdt(roar_id()), nonce: 3, amount: 10 * EGLD };
    assert_eq!(c.place_bet(&player(1), 50, &sft, 101, bank()), Err(CasinoError::RoarMustBeFungible));
    assert_eq!(c.place_bet(&player(1), 50, &egld(EGLD / 20 - 1), 101, bank()), Err(CasinoError::BelowMin));
    assert_eq!(c.place_bet(&player(1), 50, &egld(EGLD / 5 + 1), 101, bank()), Err(CasinoError::AboveCap));
    // 2% of a 6 EGLD free bankroll is 0.12 EGLD
    let six = Balances { egld: 6 * EGLD, roar: 5_000 * EGLD };
    assert_eq!(c.dynamic_max_bet_egld(six), 12 * EGLD / 100);
    assert_eq!(c.place_bet(&player(1), 50, &egld(13 * EGLD / 100), 101, six), Err(CasinoError::AboveDynamicMax));
    // the payout of 0.12 EGLD at under 2 is about 5.47 EGLD: 6 - 5.47 < 5
    assert_eq!(c.place_bet(&player(1), 2, &egld(12 * EGLD / 100), 101, six), Err(CasinoError::EgldBankrollThin));
    let thin_roar = Balances { egld: 10 * EGLD, roar: 2_600 * EGLD };
    assert_eq!(c.place_bet(&player(1), 2, &roar(50 * EGLD), 101, thin_roar), Err(CasinoError::RoarBankrollThin));
    // nothing changed
    assert_eq!(c.get_bet_count(), 0);
    assert_eq!(c.round_liability_egld(), 0);
    assert_eq!(c.rake_accrued_egld(), 0);
}

#[test]
fn accepted_bet_reserves_payout_and_keeps_rake() {
    let mut c = casino();
    c.start_round(100, bank()).unwrap();
    let b = Balances { egld: 10 * EGLD + EGLD / 10, roar: 5_000 * EGLD };
    assert_eq!(c.place_bet(&player(1), 50, &egld(EGLD / 10), 101, b), Ok(1));
    let rake = EGLD / 10 * 400 / 10_000;
    let net = EGLD / 10 - rake;
    assert_eq!(c.rake_accrued_egld(), rake);
    assert_eq!(c.round_liability_egld(), expected_payout(net, 50));
    assert_eq!(c.round_liability_egld(), 182_400_000_000_000_000);
    assert_eq!(c.get_bet_count(), 1);
    let bet: Bet = c.bet(0).unwrap();
    assert_eq!(bet.player, player(1));
    assert_eq!(bet.amount, net);
    assert_eq!(bet.under, 50);
    assert!(!bet.is_roar && !bet.settled && !bet.won);
    assert_eq!(
        c.free_bankroll_egld(b),
        b.egld - rake - expected_payout(net, 50)
    );
    assert!(c.free_bankroll_egld(b) >= c.min_bankroll_egld());
}

#[test]
fn round_holds_at_most_fifty_bets() {
    let mut c = casino();
    let rich = Balances { egld: 1_000 * EGLD, roar: 5_000 * EGLD };
    c.start_round(100, rich).unwrap();
    for i in 0..50u8 {
        assert_eq!(c.place_bet(&player(i), 50, &egld(EGLD / 20), 101, rich), Ok(1));
    }
    assert_eq!(c.place_bet(&player(60), 50, &egld(EGLD / 20), 101, rich), Err(CasinoError::RoundFull));
}

#[test]
fn resolve_refusals() {
    let mut c = casino();
    assert_eq!(c.resolve_round(200, 7, bank()), Err(CasinoError::NothingToResolve));
    c.start_round(100, bank()).unwrap();
    assert_eq!(c.resolve_round(110, 7, bank()), Err(CasinoError::TooEarly));
    assert!(c.round_open());
}

#[test]
fn full_round_pays_winners_in_their_token() {
    let mut c = casino();
    c.start_round(100, bank()).unwrap();
    let b = Balances { egld: 11 * EGLD, roar: 5_100 * EGLD };
    let bets = [
        (player(1), 50u64, egld(EGLD / 10)),
        (player(2), 90, roar(10 * EGLD)),
        (player(1), 10, roar(2 * EGLD)),
        (player(3), 96, egld(EGLD / 5)),
    ];
    for (p, under, pay) in bets.iter() {
        c.place_bet(p, *under, pay, 105, b).unwrap();
    }
    let random = 0xdead_beef_u64;
    let seed = random ^ 1;
    let drawn = c.resolve_round(111, random, b).unwrap();
    assert_eq!(drawn, Some(seed));
    assert!(!c.round_open());
    assert_eq!(c.round_seed(), 0);
    assert_eq!(c.round_liability_egld(), 0);
    assert_eq!(c.round_liability_roar(), 0);

    let mut want_egld = [0u128; 4];
    let mut want_roar = [0u128; 4];
    for (i, (p, under, pay)) in bets.iter().enumerate() {
        let is_roar = matches!(pay.token, TokenId::Esdt(_));
        let net = pay.amount - rake_for(pay.amount, is_roar);
        let roll = expected_roll(seed, i as u64 + 1);
        let bet = c.bet(i).unwrap();
        assert!(bet.settled);
        assert_eq!(bet.roll, roll);
        assert_eq!(bet.won, roll < *under);
        if roll < *under {
            let who = p.0[0] as usize;
            if is_roar {
                want_roar[who] += expected_payout(net, *under);
            } else {
                want_egld[who] += expected_payout(net, *under);
            }
        }
    }
    for who in 1..4u8 {
        assert_eq!(c.claimable_egld(&player(who)), want_egld[who as usize]);
        assert_eq!(c.claimable_roar(&player(who)), want_roar[who as usize]);
    }
    assert_eq!(c.total_claimable_egld(), want_egld.iter().sum::<u128>());
    assert_eq!(c.total_claimable_roar(), want_roar.iter().sum::<u128>());

    // claims pay everything once
    for who in 1..4u8 {
        let e = want_egld[who as usize];
        let r = want_roar[who as usize];
        if e == 0 && r == 0 {
            assert_eq!(c.claim(&player(who)).err(), Some(CasinoError::NothingToClaim));
        } else {
            let got = c.claim(&player(who)).unwrap();
            assert_eq!((got.egld, got.roar), (e, r));
            assert_eq!(c.claim(&player(who)).err(), Some(CasinoError::NothingToClaim));
        }
    }
    assert_eq!(c.total_claimable_egld(), 0);
    assert_eq!(c.total_claimable_roar(), 0);
    assert_eq!(c.resolve_round(112, 1, b), Err(CasinoError::NothingToResolve));
    // the next round starts
    assert_eq!(c.start_round(120, b).unwrap().round_id, 2);
    assert_eq!(c.get_bet_count(), 0);
}

#[test]
fn sure_win_is_claimable_and_blocks_roar_token_change() {
    let mut c = casino();
    c.start_round(100, bank()).unwrap();
    // find a draw whose first roll is below 96
    let mut random = 0u64;
    while expected_roll(random ^ 1, 1) >= 96 {
        random += 1;
    }
    c.place_bet(&player(4), 96, &roar(10 * EGLD), 101, bank()).unwrap();
    c.resolve_round(111, random, bank()).unwrap();
    let net = 10 * EGLD - 10 * EGLD / 50;
    assert_eq!(c.claimable_roar(&player(4)), expected_payout(net, 96));
    assert_eq!(
        c.set_roar_token(&owner(), &owner(), b"TROAR-123abc".to_vec()),
        Err(CasinoError::RoarClaimsPending)
    );
    let got = c.claim(&player(4)).unwrap();
    assert_eq!(got.egld, 0);
    assert_eq!(got.roar, expected_payout(net, 96));
    assert_eq!(c.set_roar_token(&owner(), &owner(), b"TROAR-123abc".to_vec()), Ok(()));
}

#[test]
fn resolve_pauses_when_both_bankrolls_thin() {
    let mut c = casino();
    c.start_round(100, bank()).unwrap();
    c.place_bet(&player(1), 50, &egld(EGLD / 10), 101, bank()).unwrap();
    let thin = Balances { egld: 4 * EGLD, roar: 1_000 * EGLD };
    c.resolve_round(111, 3, thin).unwrap();
    assert!(c.is_paused());

    let mut d = casino();
    d.start_round(100, bank()).unwrap();
    let one_thin = Balances { egld: 4 * EGLD, roar: 5_000 * EGLD };
    d.resolve_round(111, 3, one_thin).unwrap();
    assert!(!d.is_paused());
}

#[test]
fn skim_keeps_twice_min_bankroll() {
    let mut c = casino();
    assert_eq!(c.start_round(100, bank()).unwrap().round_id, 1);
    assert_eq!(c.skim_to_treasury(bank()).err(), Some(CasinoError::RoundOpen));
    let b = Balances { egld: 10 * EGLD + EGLD / 10, roar: 5_000 * EGLD };
    c.place_bet(&player(1), 50, &egld(EGLD / 10), 101, b).unwrap();
    // make the bet lose
    let mut random = 0u64;
    while expected_roll(random ^ 1, 1) < 50 {
        random += 1;
    }
    c.resolve_round(111, random, b).unwrap();
    let rake = EGLD / 10 * 400 / 10_000;
    assert_eq!(c.rake_accrued_egld(), rake);
    // 12 EGLD held: free 12 - rake, buffer 10
    let held = Balances { egld: 12 * EGLD, roar: 5_000 * EGLD };
    let free = 12 * EGLD - rake;
    let extra = free - 10 * EGLD;
    let sent = c.skim_to_treasury(held).unwrap();
    assert_eq!(sent.egld, extra / 2 + rake);
    assert_eq!(sent.roar, 0);
    assert_eq!(c.rake_accrued_egld(), 0);
    let after = Balances { egld: held.egld - sent.egld, roar: held.roar };
    assert!(c.free_bankroll_egld(after) >= 10 * EGLD);
    // below the buffer nothing moves
    let again = c.skim_to_treasury(Balances { egld: 10 * EGLD, roar: 5_000 * EGLD }).unwrap();
    assert_eq!((again.egld, again.roar), (0, 0));
}

#[test]
fn skim_caps_at_surplus() {
    let mut c = casino();
    c.start_round(100, bank()).unwrap();
    let b = Balances { egld: 1_000 * EGLD, roar: 5_000 * EGLD };
    for i in 0..10u8 {
        c.place_bet(&player(i), 2, &egld(EGLD / 5), 101, b).unwrap();
    }
    let mut random = 0u64;
    loop {
        let all_lose = (1..=10u64).all(|k| expected_roll(random ^ 1, k) >= 2);
        if all_lose {
            break;
        }
        random += 1;
    }
    c.resolve_round(111, random, b).unwrap();
    let rake = c.rake_accrued_egld();
    assert_eq!(rake, 10 * (EGLD / 5 * 400 / 10_000));
    // surplus smaller than the rake: everything above the buffer goes, no more
    let held = Balances { egld: 10 * EGLD + rake + rake / 2, roar: 5_000 * EGLD };
    let sent = c.skim_to_treasury(held).unwrap();
    assert_eq!(sent.egld, rake / 2);
    assert_eq!(c.rake_accrued_egld(), rake - rake / 2);
}

#[test]
fn state_round_trip_and_tamper_check() {
    let mut c = casino();
    c.start_round(100, bank()).unwrap();
    c.place_bet(&player(1), 50, &egld(EGLD / 10), 101, bank()).unwrap();
    let st = c.to_state();
    assert_eq!(st.bets.len(), 1);
    let back = PridevaultCasino::from_state(st).unwrap();
    assert_eq!(back.round_liability_egld(), c.round_liability_egld());
    assert_eq!(back.get_bet_count(), 1);

    let mut bad: CasinoState = c.to_state();
    bad.round_liability_egld += 1;
    assert!(PridevaultCasino::from_state(bad).is_none());

    let mut bad2: CasinoState = c.to_state();
    bad2.claimable_egld.push(ClaimEntry { player: player(5), amount: 3 });
    assert!(PridevaultCasino::from_state(bad2).is_none());

    let mut ok3: CasinoState = c.to_state();
    ok3.claimable_egld.push(ClaimEntry { player: player(5), amount: 3 });
    ok3.total_claimable_egld = 3;
    assert!(PridevaultCasino::from_state(ok3).is_some());

    let mut dup: CasinoState = c.to_state();
    dup.claimable_egld.push(ClaimEntry { player: player(5), amount: 3 });
    dup.claimable_egld.push(ClaimEntry { player: player(5), amount: 4 });
    dup.total_claimable_egld = 7;
    assert!(PridevaultCasino::from_state(dup).is_none());

    let mut zero_treasury: CasinoState = c.to_state();
    zero_treasury.treasury = Address([0; 32]);
    assert!(PridevaultCasino::from_state(zero_treasury).is_none());
}

#[test]
fn unfinished_resolve_blocks_new_round_and_skim() {
    // a stored state whose resolve drew a seed but settled nothing yet
    let mut c = casino();
    c.start_round(100, bank()).unwrap();
    c.place_bet(&player(1), 50, &egld(EGLD / 10), 101, bank()).unwrap();
    let mut st = c.to_state();
    st.round_open = false;
    st.round_seed = 99;
    let mut mid = PridevaultCasino::from_state(st).unwrap();
    assert_eq!(mid.start_round(200, bank()).err(), Some(CasinoError::FinishPreviousResolve));
    assert_eq!(mid.skim_to_treasury(bank()).err(), Some(CasinoError::ResolveInProgress));
    // resolving with the stored seed settles it; no new seed is drawn
    assert_eq!(mid.resolve_round(111, 5, bank()), Ok(None));
    let bet = mid.bet(0).unwrap();
    assert_eq!(bet.roll, expected_roll(99, 1));
    assert!(mid.start_round(200, bank()).is_ok());
}

#[test]
fn roar_id_is_the_configured_token() {
    let c = casino();
    match c.roar_id_or() {
        TokenId::Esdt(id) => assert_eq!(id, roar_id()),
        TokenId::Egld => panic!("expected the ROAR token"),
    }
}

#[test]
fn dynamic_limit_between_min_and_cap() {
    let c = casino();
    // 2% of 1 EGLD is below the 0.05 minimum: the minimum wins
    assert_eq!(c.dynamic_max_bet_egld(Balances { egld: EGLD, roar: 0 }), EGLD / 20);
    // 2% of 7 EGLD is between the minimum and the cap
    assert_eq!(c.dynamic_max_bet_egld(Balances { egld: 7 * EGLD, roar: 0 }), 14 * EGLD / 100);
    // 2% of 100 EGLD is above the 0.2 cap: the cap wins
    assert_eq!(c.dynamic_max_bet_egld(Balances { egld: 100 * EGLD, roar: 0 }), EGLD / 5);
    assert_eq!(c.dynamic_max_bet_roar(Balances { egld: 0, roar: 5_000 * EGLD }), 100 * EGLD);
}

#[test]
fn resolve_never_shrinks_free_bankroll() {
    let mut c = casino();
    c.start_round(100, bank()).unwrap();
    let b = Balances { egld: 11 * EGLD, roar: 5_100 * EGLD };
    for i in 0..5u8 {
        c.place_bet(&player(i), 20 + 15 * i as u64, &egld(EGLD / 10), 101, b).unwrap();
        c.place_bet(&player(i), 90 - 15 * i as u64, &roar(20 * EGLD), 101, b).unwrap();
    }
    let before_egld = c.free_bankroll_egld(b);
    let before_roar = c.free_bankroll_roar(b);
    c.resolve_round(111, 0x5eed, b).unwrap();
    assert!(c.free_bankroll_egld(b) >= before_egld);
    assert!(c.free_bankroll_roar(b) >= before_roar);
    for i in 0..10 {
        let bet = c.bet(i).unwrap();
        assert!(bet.settled && bet.roll < 100 && bet.won == (bet.roll < bet.under));
    }
}

#[test]
fn stored_seed_with_open_round_is_refused() {
    let mut c = casino();
    c.start_round(100, bank()).unwrap();
    let mut st = c.to_state();
    st.round_seed = 42;
    assert!(PridevaultCasino::from_state(st).is_none());
    // after a resolve, a second one is refused
    c.resolve_round(111, 9, bank()).unwrap();
    assert_eq!(c.resolve_round(500, 9, bank()), Err(CasinoError::NothingToResolve));
}
