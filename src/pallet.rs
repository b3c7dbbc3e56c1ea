use vstd::prelude::*;

use crate::handshake::{resolve, update_handshake, Resolution};
use crate::ledger::{balance_of, transfer_outcome, Ledger};
use crate::transitions::{
    call_outcome, Call,
    create_game_outcome, end_game_outcome, follows, force_end_game_outcome, game_wf, genesis,
    has_game, join_game_outcome, new_game, set_safeguard_deposit_outcome, signer_of, state_wf,
    withdraw_funds_outcome, PalletState,
};
use crate::types::{AccountId, Balance, Error, Event, Game, GameId, Origin};

verus! {

/// The wagering module: a registry of games, the safeguard deposit, and the
/// ledger whose custody account holds every stake.
pub struct Pallet {
    game_index: GameId,
    safeguard_deposit: Balance,
    games: Vec<Game>,
    currency: Ledger,
    custody: AccountId,
}

impl View for Pallet {
    type V = PalletState;

    closed spec fn view(&self) -> PalletState {
        PalletState {
            game_index: self.game_index,
            safeguard_deposit: self.safeguard_deposit,
            games: self.games@,
            ledger: self.currency@,
            custody: self.custody,
        }
    }
}

impl Pallet {
    pub open spec fn wf(&self) -> bool {
        state_wf(self@)
    }

    /// The module at genesis: no games, a zero safeguard deposit, and `custody`
    /// as the account that holds the stakes in `currency`.
    pub fn new(custody: AccountId, currency: Ledger) -> (r: Pallet)
        ensures
            r@ == genesis(currency@, custody),
            r.wf(),
    {
        Pallet { game_index: 0, safeguard_deposit: 0, games: Vec::new(), currency, custody }
    }

    /// The next unused game id.
    pub fn game_index(&self) -> (r: GameId)
        ensures
            r == self@.game_index,
    {
        self.game_index
    }

    /// The safeguard deposit that create and join currently charge.
    pub fn safeguard_deposit(&self) -> (r: Balance)
        ensures
            r == self@.safeguard_deposit,
    {
        self.safeguard_deposit
    }

    /// Game `id`, if it exists.
    pub fn games(&self, id: GameId) -> (r: Option<Game>)
        ensures
            has_game(self@, id) ==> r == Some(self@.games[id as int]),
            !has_game(self@, id) ==> r is None,
    {
        if (id as usize) < self.games.len() {
            Some(self.games[id as usize])
        } else {
            None
        }
    }

    /// The custody account.
    pub fn account_id(&self) -> (r: AccountId)
        ensures
            r == self@.custody,
    {
        self.custody
    }

    /// The ledger.
    pub fn currency(&self) -> (r: &Ledger)
        ensures
            r@ == self@.ledger,
    {
        &self.currency
    }

    /// What `who` holds in the ledger.
    pub fn free_balance(&self, who: AccountId) -> (r: Balance)
        ensures
            r == balance_of(self@.ledger, who),
    {
        self.currency.free_balance(who)
    }

    fn ensure_signed(&self, origin: Origin) -> (r: Result<AccountId, Error>)
        ensures
            r == signer_of(self@, origin),
    {
        match origin {
            Origin::Signed(who) => if who != self.custody {
                Ok(who)
            } else {
                Err(Error::BadOrigin)
            },
            _ => Err(Error::BadOrigin),
        }
    }

    /// Create a game hosted by the caller, who pays the bet and the safeguard
    /// deposit into custody.
    pub fn create_game(&mut self, origin: Origin, bet: Balance) -> (r: Result<Event, Error>)
        requires
            old(self).wf(),
        ensures
            final(self).wf(),
            follows(create_game_outcome(old(self)@, origin, bet), r, old(self)@, final(self)@),
    {
        let caller = match self.ensure_signed(origin) {
            Ok(who) => who,
            Err(e) => return Err(e),
        };
        if bet == 0 {
            return Err(Error::CantBeZero);
        }
        if bet > u64::MAX - self.safeguard_deposit {
            return Err(Error::InsufficientFunds);
        }
        let mut currency = self.currency.snapshot();
        match currency.transfer(caller, self.custody, bet + self.safeguard_deposit) {
            Ok(_) => {},
            Err(e) => return Err(e),
        }
        if self.game_index == u32::MAX {
            return Err(Error::IndexOverflow);
        }
        let game_index = self.game_index;
        let game = Game {
            bet,
            payout_addresses: (Some(caller), None),
            ended: false,
            handshake: (None, None),
        };
        self.games.push(game);
        self.game_index = game_index + 1;
        self.currency = currency;
        proof {
            assert(self.games@ =~= old(self)@.games.push(new_game(caller, bet)));
            assert forall|i: int| 0 <= i < self@.games.len() implies #[trigger] game_wf(
                self@.games[i],
                self@.custody,
            ) by {
                if i < old(self)@.games.len() {
                    assert(game_wf(old(self)@.games[i], self@.custody));
                }
            }
        }
        Ok(Event::GameCreated { game_index })
    }

    /// Join game `game_index` as its joiner, paying the bet and the current
    /// safeguard deposit into custody.
    pub fn join_game(&mut self, origin: Origin, game_index: GameId) -> (r: Result<Event, Error>)
        requires
            old(self).wf(),
        ensures
            final(self).wf(),
            follows(join_game_outcome(old(self)@, origin, game_index), r, old(self)@, final(self)@),
    {
        let caller = match self.ensure_signed(origin) {
            Ok(who) => who,
            Err(e) => return Err(e),
        };
        if game_index >= self.game_index {
            return Err(Error::GameDoesNotExist);
        }
        let game = self.games[game_index as usize];
        if game.ended {
            return Err(Error::GameAlreadyEnded);
        }
        if game.payout_addresses.1.is_some() {
            return Err(Error::GameFull);
        }
        if game.bet > u64::MAX - self.safeguard_deposit {
            return Err(Error::InsufficientFunds);
        }
        match self.currency.transfer(caller, self.custody, game.bet + self.safeguard_deposit) {
            Ok(_) => {},
            Err(e) => return Err(e),
        }
        self.games[game_index as usize] = Game {
            payout_addresses: (game.payout_addresses.0, Some(caller)),
            ..game
        };
        proof {
            assert(game_wf(old(self)@.games[game_index as int], self@.custody));
            assert forall|i: int| 0 <= i < self@.games.len() implies #[trigger] game_wf(
                self@.games[i],
                self@.custody,
            ) by {
                if i != game_index as int {
                    assert(game_wf(old(self)@.games[i], self@.custody));
                }
            }
        }
        Ok(Event::PlayerJoined { game_index, player: caller })
    }

    /// Propose `winner` as the winner of game `game_index`. Once host and
    /// joiner agree, the game ends: each gets the safeguard deposit back and the
    /// winner gets the jackpot. Disagreement asks for mediation.
    pub fn end_game(&mut self, origin: Origin, game_index: GameId, winner: AccountId) -> (r: Result<
        Event,
        Error,
    >)
        requires
            old(self).wf(),
        ensures
            final(self).wf(),
            follows(
                end_game_outcome(old(self)@, origin, game_index, winner),
                r,
                old(self)@,
                final(self)@,
            ),
    {
        let caller = match self.ensure_signed(origin) {
            Ok(who) => who,
            Err(e) => return Err(e),
        };
        if game_index >= self.game_index {
            return Err(Error::GameDoesNotExist);
        }
        let game = self.games[game_index as usize];
        if game.ended {
            return Err(Error::GameAlreadyEnded);
        }
        let (host, joiner) = match game.payout_addresses {
            (Some(host), Some(joiner)) => (host, joiner),
            _ => return Err(Error::BadAddress),
        };
        if caller != host && caller != joiner {
            return Err(Error::NotAPlayer);
        }
        if winner != host && winner != joiner {
            return Err(Error::NotAPlayer);
        }
        let new_handshake = match update_handshake(game.handshake, caller, host, winner) {
            Ok(h) => h,
            Err(e) => return Err(e),
        };
        proof {
            assert(game_wf(old(self)@.games[game_index as int], self@.custody));
        }
        match resolve(new_handshake) {
            Resolution::Pending => {
                self.games[game_index as usize] = Game { handshake: new_handshake, ..game };
                proof {
                    self.lemma_game_update_keeps_wf(old(self)@, game_index);
                }
                Ok(Event::WinnerProposed { game_index, winner, proposer: caller })
            },
            Resolution::Disputed => {
                self.games[game_index as usize] = Game { handshake: new_handshake, ..game };
                proof {
                    self.lemma_game_update_keeps_wf(old(self)@, game_index);
                }
                Ok(Event::MediationRequested { game_index, proposer: caller })
            },
            Resolution::Agreed(_) => {
                let mut currency = self.currency.snapshot();
                let deposit = self.safeguard_deposit;
                match currency.transfer(self.custody, host, deposit) {
                    Ok(_) => {},
                    Err(e) => return Err(e),
                }
                match currency.transfer(self.custody, joiner, deposit) {
                    Ok(_) => {},
                    Err(e) => return Err(e),
                }
                if game.bet > u64::MAX / 2 {
                    return Err(Error::InsufficientFunds);
                }
                let jackpot = game.bet * 2;
                match currency.transfer(self.custody, winner, jackpot) {
                    Ok(_) => {},
                    Err(e) => return Err(e),
                }
                self.currency = currency;
                self.games[game_index as usize] = Game {
                    handshake: new_handshake,
                    ended: true,
                    ..game
                };
                proof {
                    self.lemma_game_update_keeps_wf(old(self)@, game_index);
                }
                Ok(Event::GameEnded { game_index, winner, jackpot })
            },
        }
    }

    /// Settle game `game_index` by the privileged origin: the game ends with
    /// `winner` in both handshake slots, `winner` gets the jackpot and
    /// `deposit_beneficiary` gets one safeguard deposit.
    pub fn force_end_game(
        &mut self,
        origin: Origin,
        game_index: GameId,
        winner: AccountId,
        deposit_beneficiary: AccountId,
    ) -> (r: Result<Event, Error>)
        requires
            old(self).wf(),
        ensures
            final(self).wf(),
            follows(
                force_end_game_outcome(old(self)@, origin, game_index, winner, deposit_beneficiary),
                r,
                old(self)@,
                final(self)@,
            ),
    {
        if origin != Origin::Root {
            return Err(Error::BadOrigin);
        }
        if game_index >= self.game_index {
            return Err(Error::GameDoesNotExist);
        }
        let game = self.games[game_index as usize];
        if game.ended {
            return Err(Error::GameAlreadyEnded);
        }
        let mut currency = self.currency.snapshot();
        match currency.transfer(self.custody, deposit_beneficiary, self.safeguard_deposit) {
            Ok(_) => {},
            Err(e) => return Err(e),
        }
        if game.bet > u64::MAX / 2 {
            return Err(Error::InsufficientFunds);
        }
        let jackpot = game.bet * 2;
        match currency.transfer(self.custody, winner, jackpot) {
            Ok(_) => {},
            Err(e) => return Err(e),
        }
        self.currency = currency;
        self.games[game_index as usize] = Game {
            ended: true,
            handshake: (Some(winner), Some(winner)),
            ..game
        };
        proof {
            assert(game_wf(old(self)@.games[game_index as int], self@.custody));
            self.lemma_game_update_keeps_wf(old(self)@, game_index);
        }
        Ok(Event::GameEnded { game_index, winner, jackpot })
    }

    /// Set the safeguard deposit charged by later create and join calls;
    /// privileged.
    pub fn set_safeguard_deposit(&mut self, origin: Origin, deposit: Balance) -> (r: Result<
        Event,
        Error,
    >)
        requires
            old(self).wf(),
        ensures
            final(self).wf(),
            follows(
                set_safeguard_deposit_outcome(old(self)@, origin, deposit),
                r,
                old(self)@,
                final(self)@,
            ),
    {
        if origin != Origin::Root {
            return Err(Error::BadOrigin);
        }
        self.safeguard_deposit = deposit;
        Ok(Event::SafeguardDepositSet { deposit })
    }

    /// Move `amount` from custody to `beneficiary`; privileged.
    pub fn withdraw_funds(&mut self, origin: Origin, amount: Balance, beneficiary: AccountId) -> (r:
        Result<Event, Error>)
        requires
            old(self).wf(),
        ensures
            final(self).wf(),
            follows(
                withdraw_funds_outcome(old(self)@, origin, amount, beneficiary),
                r,
                old(self)@,
                final(self)@,
            ),
    {
        if origin != Origin::Root {
            return Err(Error::BadOrigin);
        }
        match self.currency.transfer(self.custody, beneficiary, amount) {
            Ok(_) => {},
            Err(e) => return Err(e),
        }
        Ok(Event::FundsWithdrawn { amount, beneficiary })
    }

    /// Perform call `c`.
    pub fn dispatch(&mut self, c: Call) -> (r: Result<Event, Error>)
        requires
            old(self).wf(),
        ensures
            final(self).wf(),
            follows(call_outcome(old(self)@, c), r, old(self)@, final(self)@),
    {
        match c {
            Call::CreateGame { origin, bet } => self.create_game(origin, bet),
            Call::JoinGame { origin, game_index } => self.join_game(origin, game_index),
            Call::EndGame { origin, game_index, winner } => self.end_game(
                origin,
                game_index,
                winner,
            ),
            Call::ForceEndGame { origin, game_index, winner, deposit_beneficiary } =>
                self.force_end_game(origin, game_index, winner, deposit_beneficiary),
            Call::SetSafeguardDeposit { origin, deposit } => self.set_safeguard_deposit(
                origin,
                deposit,
            ),
            Call::WithdrawFunds { origin, amount, beneficiary } => self.withdraw_funds(
                origin,
                amount,
                beneficiary,
            ),
        }
    }

    /// A signed account pays `amount` to `dest` through the ledger, keeping
    /// its existential deposit.
    pub fn transfer(&mut self, origin: Origin, dest: AccountId, amount: Balance) -> (r: Result<
        (),
        Error,
    >)
        requires
            old(self).wf(),
        ensures
            final(self).wf(),
            match signer_of(old(self)@, origin) {
                Err(e) => r == Err::<(), Error>(e) && final(self)@ == old(self)@,
                Ok(who) => match transfer_outcome(old(self)@.ledger, who, dest, amount as int) {
                    Ok(l) => r is Ok && final(self)@ == (PalletState { ledger: l, ..old(self)@ }),
                    Err(e) => r == Err::<(), Error>(e) && final(self)@ == old(self)@,
                },
            },
    {
        let who = match self.ensure_signed(origin) {
            Ok(who) => who,
            Err(e) => return Err(e),
        };
        self.currency.transfer(who, dest, amount)
    }

    proof fn lemma_game_update_keeps_wf(&self, before: PalletState, id: GameId)
        requires
            state_wf(before),
            id < before.games.len(),
            self@.games.len() == before.games.len(),
            self@.game_index == before.game_index,
            self@.custody == before.custody,
            forall|i: int| 0 <= i < before.games.len() && i != id ==> self@.games[i] == before.games[i],
            game_wf(self@.games[id as int], self@.custody),
        ensures
            state_wf(self@),
    {
        assert forall|i: int| 0 <= i < self@.games.len() implies #[trigger] game_wf(
            self@.games[i],
            self@.custody,
        ) by {
            if i != id as int {
                assert(game_wf(before.games[i], before.custody));
            }
        }
    }
}

} // verus!
