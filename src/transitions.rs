use vstd::prelude::*;

use crate::handshake::{proposal_outcome, resolution_of, Resolution};
use crate::ledger::{transfer_outcome, LedgerView};
use crate::types::{AccountId, Balance, Error, Event, Game, GameId, Origin};

verus! {

/// The abstract state of the wagering module: the game counter, the current
/// safeguard deposit, the registry (game `i` is entry `i`), the ledger, and
/// the custody account that holds what is escrowed.
pub struct PalletState {
    pub game_index: GameId,
    pub safeguard_deposit: Balance,
    pub games: Seq<Game>,
    pub ledger: LedgerView,
    pub custody: AccountId,
}

/// A stored game: a positive bet, a host, and no seat held by custody.
pub open spec fn game_wf(g: Game, custody: AccountId) -> bool {
    &&& g.bet > 0
    &&& g.payout_addresses.0 is Some
    &&& g.payout_addresses.0 != Some(custody)
    &&& g.payout_addresses.1 != Some(custody)
}

/// The counter names the next unused id, and every stored game is well formed.
pub open spec fn state_wf(s: PalletState) -> bool {
    &&& s.games.len() == s.game_index
    &&& forall|i: int| 0 <= i < s.games.len() ==> #[trigger] game_wf(s.games[i], s.custody)
}

/// The module's state at genesis, over a given ledger.
pub open spec fn genesis(ledger: LedgerView, custody: AccountId) -> PalletState {
    PalletState { game_index: 0, safeguard_deposit: 0, games: Seq::empty(), ledger, custody }
}

/// Whether game `id` exists.
pub open spec fn has_game(s: PalletState, id: GameId) -> bool {
    id < s.games.len()
}

/// The account a signed origin stands for. The custody account holds no key,
/// so an origin signed by it is refused.
pub open spec fn signer_of(s: PalletState, origin: Origin) -> Result<AccountId, Error> {
    match origin {
        Origin::Signed(who) => if who != s.custody {
            Ok(who)
        } else {
            Err(Error::BadOrigin)
        },
        _ => Err(Error::BadOrigin),
    }
}

/// A payment of `amount` through the ledger. No account holds more than
/// `u64::MAX`, so a larger amount can never be paid.
pub open spec fn pay(l: LedgerView, from: AccountId, to: AccountId, amount: int) -> Result<
    LedgerView,
    Error,
> {
    if amount > u64::MAX {
        Err(Error::InsufficientFunds)
    } else {
        transfer_outcome(l, from, to, amount)
    }
}

/// The game that `host` opens with stake `bet`.
pub open spec fn new_game(host: AccountId, bet: Balance) -> Game {
    Game { bet, payout_addresses: (Some(host), None), ended: false, handshake: (None, None) }
}

/// `s` with game `id` replaced by `g`.
pub open spec fn with_game(s: PalletState, id: GameId, g: Game) -> PalletState {
    PalletState { games: s.games.update(id as int, g), ..s }
}

/// `s` with game `id` replaced by `g` and the ledger replaced by `l`.
pub open spec fn with_game_and_ledger(
    s: PalletState,
    id: GameId,
    g: Game,
    l: LedgerView,
) -> PalletState {
    PalletState { games: s.games.update(id as int, g), ledger: l, ..s }
}

/// Creating a game: a signed caller with a nonzero bet pays bet plus the
/// current safeguard deposit into custody and becomes host of game
/// `game_index`, and the counter advances.
pub open spec fn create_game_outcome(s: PalletState, origin: Origin, bet: Balance) -> Result<
    (PalletState, Event),
    Error,
> {
    match signer_of(s, origin) {
        Err(e) => Err(e),
        Ok(caller) => if bet == 0 {
            Err(Error::CantBeZero)
        } else {
            match pay(s.ledger, caller, s.custody, bet + s.safeguard_deposit) {
                Err(e) => Err(e),
                Ok(l) => if s.game_index == u32::MAX {
                    Err(Error::IndexOverflow)
                } else {
                    Ok(
                        (
                            PalletState {
                                game_index: (s.game_index + 1) as GameId,
                                games: s.games.push(new_game(caller, bet)),
                                ledger: l,
                                ..s
                            },
                            Event::GameCreated { game_index: s.game_index },
                        ),
                    )
                },
            }
        },
    }
}

/// Joining game `id`: the game must exist, be open and have a free joiner
/// seat; the caller pays bet plus the current safeguard deposit into custody
/// and takes the seat.
pub open spec fn join_game_outcome(s: PalletState, origin: Origin, id: GameId) -> Result<
    (PalletState, Event),
    Error,
> {
    match signer_of(s, origin) {
        Err(e) => Err(e),
        Ok(caller) => if !has_game(s, id) {
            Err(Error::GameDoesNotExist)
        } else {
            let g = s.games[id as int];
            if g.ended {
                Err(Error::GameAlreadyEnded)
            } else if g.payout_addresses.1 is Some {
                Err(Error::GameFull)
            } else {
                match pay(s.ledger, caller, s.custody, g.bet + s.safeguard_deposit) {
                    Err(e) => Err(e),
                    Ok(l) => Ok(
                        (
                            with_game_and_ledger(
                                s,
                                id,
                                Game {
                                    payout_addresses: (g.payout_addresses.0, Some(caller)),
                                    ..g
                                },
                                l,
                            ),
                            Event::PlayerJoined { game_index: id, player: caller },
                        ),
                    ),
                }
            }
        },
    }
}

/// Paying out an agreed game: the current safeguard deposit back to host and
/// to joiner, then twice the bet to the winner, all from custody.
pub open spec fn settle_outcome(
    s: PalletState,
    host: AccountId,
    joiner: AccountId,
    winner: AccountId,
    bet: Balance,
) -> Result<LedgerView, Error> {
    match pay(s.ledger, s.custody, host, s.safeguard_deposit as int) {
        Err(e) => Err(e),
        Ok(l1) => match pay(l1, s.custody, joiner, s.safeguard_deposit as int) {
            Err(e) => Err(e),
            Ok(l2) => pay(l2, s.custody, winner, 2 * bet),
        },
    }
}

/// Proposing a winner of game `id`. Both seats must be filled, and caller and
/// winner must be players. The caller's slot of the handshake takes the
/// proposal; once both slots agree the game ends and pays out.
pub open spec fn end_game_outcome(
    s: PalletState,
    origin: Origin,
    id: GameId,
    winner: AccountId,
) -> Result<(PalletState, Event), Error> {
    match signer_of(s, origin) {
        Err(e) => Err(e),
        Ok(caller) => if !has_game(s, id) {
            Err(Error::GameDoesNotExist)
        } else {
            let g = s.games[id as int];
            if g.ended {
                Err(Error::GameAlreadyEnded)
            } else {
                match g.payout_addresses {
                    (Some(host), Some(joiner)) => if caller != host && caller != joiner {
                        Err(Error::NotAPlayer)
                    } else if winner != host && winner != joiner {
                        Err(Error::NotAPlayer)
                    } else {
                        match proposal_outcome(g.handshake, caller, host, winner) {
                            Err(e) => Err(e),
                            Ok(h) => match resolution_of(h) {
                                Resolution::Pending => Ok(
                                    (
                                        with_game(s, id, Game { handshake: h, ..g }),
                                        Event::WinnerProposed {
                                            game_index: id,
                                            winner,
                                            proposer: caller,
                                        },
                                    ),
                                ),
                                Resolution::Disputed => Ok(
                                    (
                                        with_game(s, id, Game { handshake: h, ..g }),
                                        Event::MediationRequested {
                                            game_index: id,
                                            proposer: caller,
                                        },
                                    ),
                                ),
                                Resolution::Agreed(_) => match settle_outcome(
                                    s,
                                    host,
                                    joiner,
                                    winner,
                                    g.bet,
                                ) {
                                    Err(e) => Err(e),
                                    Ok(l) => Ok(
                                        (
                                            with_game_and_ledger(
                                                s,
                                                id,
                                                Game { handshake: h, ended: true, ..g },
                                                l,
                                            ),
                                            Event::GameEnded {
                                                game_index: id,
                                                winner,
                                                jackpot: (2 * g.bet) as Balance,
                                            },
                                        ),
                                    ),
                                },
                            },
                        }
                    },
                    _ => Err(Error::BadAddress),
                }
            }
        },
    }
}

/// Settling game `id` by the privileged origin: the game ends with handshake
/// `(winner, winner)`; custody pays the current safeguard deposit to
/// `beneficiary`, then twice the bet to `winner`.
pub open spec fn force_end_game_outcome(
    s: PalletState,
    origin: Origin,
    id: GameId,
    winner: AccountId,
    beneficiary: AccountId,
) -> Result<(PalletState, Event), Error> {
    if origin != Origin::Root {
        Err(Error::BadOrigin)
    } else if !has_game(s, id) {
        Err(Error::GameDoesNotExist)
    } else {
        let g = s.games[id as int];
        if g.ended {
            Err(Error::GameAlreadyEnded)
        } else {
            match pay(s.ledger, s.custody, beneficiary, s.safeguard_deposit as int) {
                Err(e) => Err(e),
                Ok(l1) => match pay(l1, s.custody, winner, 2 * g.bet) {
                    Err(e) => Err(e),
                    Ok(l2) => Ok(
                        (
                            with_game_and_ledger(
                                s,
                                id,
                                Game { ended: true, handshake: (Some(winner), Some(winner)), ..g },
                                l2,
                            ),
                            Event::GameEnded {
                                game_index: id,
                                winner,
                                jackpot: (2 * g.bet) as Balance,
                            },
                        ),
                    ),
                },
            }
        }
    }
}

/// Setting the safeguard deposit for later create and join calls; privileged.
pub open spec fn set_safeguard_deposit_outcome(
    s: PalletState,
    origin: Origin,
    deposit: Balance,
) -> Result<(PalletState, Event), Error> {
    if origin != Origin::Root {
        Err(Error::BadOrigin)
    } else {
        Ok(
            (
                PalletState { safeguard_deposit: deposit, ..s },
                Event::SafeguardDepositSet { deposit },
            ),
        )
    }
}

/// Moving `amount` from custody to `beneficiary`; privileged.
pub open spec fn withdraw_funds_outcome(
    s: PalletState,
    origin: Origin,
    amount: Balance,
    beneficiary: AccountId,
) -> Result<(PalletState, Event), Error> {
    if origin != Origin::Root {
        Err(Error::BadOrigin)
    } else {
        match pay(s.ledger, s.custody, beneficiary, amount as int) {
            Err(e) => Err(e),
            Ok(l) => Ok(
                (PalletState { ledger: l, ..s }, Event::FundsWithdrawn { amount, beneficiary }),
            ),
        }
    }
}

/// A call returned `r` and left `after` where it started from `before`,
/// exactly as `outcome` prescribes: on success the new state and the event,
/// on rejection the error and no change at all.
pub open spec fn follows(
    outcome: Result<(PalletState, Event), Error>,
    r: Result<Event, Error>,
    before: PalletState,
    after: PalletState,
) -> bool {
    match outcome {
        Ok((s, e)) => r == Ok::<Event, Error>(e) && after == s,
        Err(e) => r == Err::<Event, Error>(e) && after == before,
    }
}

/// One call of the module's operations, with its arguments.
#[derive(Clone, Copy, Debug, PartialEq, Eq, Structural)]
pub enum Call {
    CreateGame { origin: Origin, bet: Balance },
    JoinGame { origin: Origin, game_index: GameId },
    EndGame { origin: Origin, game_index: GameId, winner: AccountId },
    ForceEndGame {
        origin: Origin,
        game_index: GameId,
        winner: AccountId,
        deposit_beneficiary: AccountId,
    },
    SetSafeguardDeposit { origin: Origin, deposit: Balance },
    WithdrawFunds { origin: Origin, amount: Balance, beneficiary: AccountId },
}

/// What call `c` does from state `s`.
pub open spec fn call_outcome(s: PalletState, c: Call) -> Result<(PalletState, Event), Error> {
    match c {
        Call::CreateGame { origin, bet } => create_game_outcome(s, origin, bet),
        Call::JoinGame { origin, game_index } => join_game_outcome(s, origin, game_index),
        Call::EndGame { origin, game_index, winner } => end_game_outcome(
            s,
            origin,
            game_index,
            winner,
        ),
        Call::ForceEndGame { origin, game_index, winner, deposit_beneficiary } =>
            force_end_game_outcome(s, origin, game_index, winner, deposit_beneficiary),
        Call::SetSafeguardDeposit { origin, deposit } => set_safeguard_deposit_outcome(
            s,
            origin,
            deposit,
        ),
        Call::WithdrawFunds { origin, amount, beneficiary } => withdraw_funds_outcome(
            s,
            origin,
            amount,
            beneficiary,
        ),
    }
}

/// The state after call `c` from `s`; a rejected call leaves `s` as it was.
pub open spec fn after_call(s: PalletState, c: Call) -> PalletState {
    match call_outcome(s, c) {
        Ok((t, _)) => t,
        Err(_) => s,
    }
}

/// The state after the calls `cs`, in order, from `s`.
pub open spec fn after_calls(s: PalletState, cs: Seq<Call>) -> PalletState
    decreases cs.len(),
{
    if cs.len() == 0 {
        s
    } else {
        after_call(after_calls(s, cs.drop_last()), cs.last())
    }
}

} // verus!
