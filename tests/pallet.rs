use tictactoe::{Error, Event, Game, Ledger, Origin, Pallet};

const CUSTODY: u64 = 99;
const ENDOWMENT: u64 = 100;

/// A module over a ledger in which accounts 1 to 4 hold 100 each, with an
/// existential deposit of 1.
fn new_test_ext() -> Pallet {
    let mut ledger = Ledger::new(1);
    for who in 1..=4u64 {
        ledger.make_free_balance_be(who, ENDOWMENT);
    }
    Pallet::new(CUSTODY, ledger)
}

type Observed = (u32, u64, Vec<Option<Game>>, Vec<u64>);

fn observe(p: &Pallet) -> Observed {
    let games = (0..p.game_index() + 1).map(|i| p.games(i)).collect();
    let balances = [1u64, 2, 3, 4, 5, CUSTODY].iter().map(|who| p.free_balance(*who)).collect();
    (p.game_index(), p.safeguard_deposit(), games, balances)
}

/// Asserts that `call` fails with `expected` and changes nothing observable.
fn assert_noop(p: &mut Pallet, call: impl FnOnce(&mut Pallet) -> Result<Event, Error>, expected: Error) {
    let before = observe(p);
    assert_eq!(call(p), Err(expected));
    assert_eq!(observe(p), before);
}

#[test]
fn initial_state() {
    let p = new_test_ext();
    assert_eq!(p.free_balance(p.account_id()), 0);
    assert_eq!(p.game_index(), 0);
    assert_eq!(p.safeguard_deposit(), 0);
    assert!(p.games(0).is_none());
}

#[test]
fn set_safeguard_works() {
    let mut p = new_test_ext();
    let safeguard_deposit = 1;
    assert_eq!(
        p.set_safeguard_deposit(Origin::root(), safeguard_deposit),
        Ok(Event::SafeguardDepositSet { deposit: safeguard_deposit })
    );
    assert_eq!(p.safeguard_deposit(), safeguard_deposit);
}

#[test]
fn set_safeguarde_fails_without_root() {
    let mut p = new_test_ext();
    let safeguard_deposit = 1;
    assert!(p.set_safeguard_deposit(Origin::signed(1), safeguard_deposit).is_err());
}

#[test]
fn create_game_works() {
    let mut p = new_test_ext();
    let host = 1;
    let initial_balance = p.free_balance(host);
    let bet = 10;
    let safeguard_deposit = 1;

    assert!(p.set_safeguard_deposit(Origin::root(), safeguard_deposit).is_ok());
    assert_eq!(p.create_game(Origin::signed(host), bet), Ok(Event::GameCreated { game_index: 0 }));
    assert_eq!(p.free_balance(host), initial_balance - bet - safeguard_deposit);
    assert_eq!(p.game_index(), 1);
    assert_eq!(p.games(0).unwrap().bet, bet);
    assert_eq!(p.games(0).unwrap().payout_addresses, (Some(host), None));
    assert_eq!(p.games(0).unwrap().ended, false);
    assert_eq!(p.free_balance(p.account_id()), bet + safeguard_deposit);
}

#[test]
fn create_game_fails_with_zero_bet() {
    let mut p = new_test_ext();
    let host = 1;
    let initial_balance = p.free_balance(host);
    let bet = 0;
    assert_noop(&mut p, |p| p.create_game(Origin::signed(host), bet), Error::CantBeZero);
    assert!(p.create_game(Origin::signed(host), bet).is_err());
    assert_eq!(p.free_balance(host), initial_balance);
    assert_eq!(p.game_index(), 0);
    assert!(p.games(0).is_none());
    assert_eq!(p.free_balance(p.account_id()), 0);
}

#[test]
fn create_game_fails_insufficient_funds() {
    let mut p = new_test_ext();
    let host = 1;
    let initial_balance = p.free_balance(host);
    let bet = initial_balance + 1;
    assert!(p.create_game(Origin::signed(host), bet).is_err());
}

#[test]
fn join_a_game_works() {
    let mut p = new_test_ext();
    let host = 1;
    let joiner = 2;
    let bet = 10;
    let safeguard_deposit = 1;
    assert!(p.set_safeguard_deposit(Origin::root(), safeguard_deposit).is_ok());
    assert!(p.create_game(Origin::signed(host), bet).is_ok());

    let initial_balance = p.free_balance(joiner);
    assert_eq!(
        p.join_game(Origin::signed(joiner), 0),
        Ok(Event::PlayerJoined { game_index: 0, player: joiner })
    );
    assert_eq!(p.free_balance(joiner), initial_balance - bet - safeguard_deposit);
    assert_eq!(p.game_index(), 1);
    assert_eq!(p.games(0).unwrap().bet, bet);
    assert_eq!(p.games(0).unwrap().payout_addresses, (Some(host), Some(joiner)));
    assert_eq!(p.games(0).unwrap().ended, false);
    assert_eq!(p.free_balance(p.account_id()), (bet * 2) + (safeguard_deposit * 2));
}

#[test]
fn join_a_non_existent_game_fails() {
    let mut p = new_test_ext();
    let joiner = 2;
    assert_noop(&mut p, |p| p.join_game(Origin::signed(joiner), 0), Error::GameDoesNotExist);
    assert!(p.join_game(Origin::signed(joiner), 0).is_err());
}

#[test]
fn join_a_full_game_fails() {
    let mut p = new_test_ext();
    let host = 1;
    let joiner = 2;
    let malicious_joiner = 3;
    let bet = 10;
    assert!(p.create_game(Origin::signed(host), bet).is_ok());
    assert!(p.join_game(Origin::signed(joiner), 0).is_ok());
    assert_noop(&mut p, |p| p.join_game(Origin::signed(malicious_joiner), 0), Error::GameFull);
}

#[test]
fn join_games_without_funds_fails() {
    let mut p = new_test_ext();
    let host = 1;
    let joiner = 2;
    let joiner_balance = p.free_balance(joiner);
    let custody = p.account_id();
    assert!(p.transfer(Origin::signed(joiner), custody, joiner_balance - 5).is_ok());
    let bet = 10;
    assert!(p.create_game(Origin::signed(host), bet).is_ok());
    assert!(p.join_game(Origin::signed(joiner), 0).is_err());
}

#[test]
fn end_game_works() {
    let mut p = new_test_ext();
    let pallet_funding = 50;
    let custody = p.account_id();
    assert!(p.transfer(Origin::signed(3), custody, pallet_funding).is_ok());

    let host = 1;
    let joiner = 2;
    let bet: u64 = 10;
    let safeguard_deposit = 1;

    assert!(p.set_safeguard_deposit(Origin::root(), safeguard_deposit).is_ok());
    assert!(p.create_game(Origin::signed(host), bet).is_ok());
    assert!(p.join_game(Origin::signed(joiner), 0).is_ok());

    let host_init_balance = p.free_balance(host);
    let joiner_init_balance = p.free_balance(joiner);

    assert_eq!(p.games(0).unwrap().handshake, (None, None));

    let proposed_winner = host;

    assert_eq!(
        p.end_game(Origin::signed(host), 0, proposed_winner),
        Ok(Event::WinnerProposed { game_index: 0, winner: proposed_winner, proposer: host })
    );

    assert_eq!(
        p.end_game(Origin::signed(joiner), 0, proposed_winner),
        Ok(Event::GameEnded { game_index: 0, winner: proposed_winner, jackpot: bet * 2 })
    );

    assert_eq!(p.free_balance(host), host_init_balance + safeguard_deposit + bet * 2);
    assert_eq!(p.free_balance(joiner), joiner_init_balance + safeguard_deposit);

    assert_eq!(p.games(0).unwrap().bet, bet);
    assert_eq!(p.games(0).unwrap().payout_addresses, (Some(host), Some(joiner)));
    assert_eq!(p.games(0).unwrap().ended, true);
    assert_eq!(p.games(0).unwrap().handshake, (Some(host), Some(host)));

    assert_eq!(p.free_balance(p.account_id()), pallet_funding);

    let new_joiner = 4;
    assert_noop(&mut p, |p| p.join_game(Origin::signed(new_joiner), 0), Error::GameAlreadyEnded);
}

#[test]
fn end_a_game_with_one_player_fails() {
    let mut p = new_test_ext();
    let host = 1;
    let bet: u64 = 10;
    assert!(p.create_game(Origin::signed(host), bet).is_ok());
    assert_noop(&mut p, |p| p.end_game(Origin::signed(host), 0, host), Error::BadAddress);
}

#[test]
fn mediation_is_applied() {
    let mut p = new_test_ext();
    let pallet_funding = 50;
    let custody = p.account_id();
    assert!(p.transfer(Origin::signed(3), custody, pallet_funding).is_ok());

    let host = 1;
    let joiner = 2;
    let host_init_balance = p.free_balance(host);
    let joiner_init_balance = p.free_balance(joiner);
    let bet: u64 = 10;
    let safeguard_deposit = 1;

    assert!(p.set_safeguard_deposit(Origin::root(), safeguard_deposit).is_ok());
    assert!(p.create_game(Origin::signed(host), bet).is_ok());
    assert!(p.join_game(Origin::signed(joiner), 0).is_ok());

    let host_proposed_winner = host;
    let joiner_proposed_winner = joiner;

    assert!(p.end_game(Origin::signed(host), 0, host_proposed_winner).is_ok());
    assert_eq!(
        p.end_game(Origin::signed(joiner), 0, joiner_proposed_winner),
        Ok(Event::MediationRequested { game_index: 0, proposer: joiner })
    );

    assert_eq!(p.free_balance(host), host_init_balance - bet - safeguard_deposit);
    assert_eq!(p.free_balance(joiner), joiner_init_balance - bet - safeguard_deposit);

    assert_eq!(
        p.force_end_game(Origin::root(), 0, host_proposed_winner, host),
        Ok(Event::GameEnded { game_index: 0, winner: host_proposed_winner, jackpot: bet * 2 })
    );

    assert_eq!(p.free_balance(host), host_init_balance + bet);
    assert_eq!(p.free_balance(joiner), joiner_init_balance - bet - safeguard_deposit);
    assert_eq!(p.free_balance(p.account_id()), pallet_funding + safeguard_deposit);
}

#[test]
fn invalid_accounts_fail_to_end() {
    let mut p = new_test_ext();
    let host = 1;
    let joiner = 2;
    let invalid_account = 3;
    let bet: u64 = 10;
    assert!(p.create_game(Origin::signed(host), bet).is_ok());
    assert!(p.join_game(Origin::signed(joiner), 0).is_ok());
    assert_noop(&mut p, |p| p.end_game(Origin::signed(invalid_account), 0, host), Error::NotAPlayer);
    assert_noop(&mut p, |p| p.end_game(Origin::signed(host), 0, invalid_account), Error::NotAPlayer);
}

#[test]
fn non_sudo_cant_force_end() {
    let mut p = new_test_ext();
    let host = 1;
    let joiner = 2;
    let bet: u64 = 10;
    assert!(p.create_game(Origin::signed(host), bet).is_ok());
    assert!(p.join_game(Origin::signed(joiner), 0).is_ok());
    assert!(p.force_end_game(Origin::signed(host), 0, host, host).is_err());
}

#[test]
fn withdraw_funds_works() {
    let mut p = new_test_ext();
    let pallet_funding = 50;
    let custody = p.account_id();
    assert!(p.transfer(Origin::signed(3), custody, pallet_funding).is_ok());

    let beneficiary = 1;
    let amount: u64 = 10;

    assert_eq!(
        p.withdraw_funds(Origin::root(), amount, beneficiary),
        Ok(Event::FundsWithdrawn { amount, beneficiary })
    );
}

#[test]
fn non_sudo_cant_withdraw() {
    let mut p = new_test_ext();
    let pallet_funding = 50;
    let custody = p.account_id();
    assert!(p.transfer(Origin::signed(3), custody, pallet_funding).is_ok());
    let beneficiary = 1;
    let amount: u64 = 10;
    assert!(p.withdraw_funds(Origin::signed(beneficiary), amount, beneficiary).is_err());
}
