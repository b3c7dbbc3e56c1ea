use vstd::prelude::*;

use crate::handshake::proposal_outcome;
use crate::ledger::{balance_of, LedgerView};
use crate::transitions::{
    after_call, after_calls, call_outcome, create_game_outcome, end_game_outcome,
    force_end_game_outcome, game_wf, genesis, has_game, join_game_outcome, new_game, pay,
    signer_of, state_wf, Call, PalletState,
};
use crate::types::{AccountId, Balance, Error, Event, Game, GameId, Origin};

verus! {

/// What custody owes for `g` while it is open: bet plus deposit for each
/// seat taken.
pub open spec fn escrow_of(g: Game, deposit: Balance) -> int {
    if g.ended {
        0
    } else {
        (if g.payout_addresses.0 is Some {
            g.bet + deposit
        } else {
            0
        }) + (if g.payout_addresses.1 is Some {
            g.bet + deposit
        } else {
            0
        })
    }
}

/// What custody owes for all the games of `games`.
pub open spec fn escrow_total(games: Seq<Game>, deposit: Balance) -> int
    decreases games.len(),
{
    if games.len() == 0 {
        0
    } else {
        escrow_total(games.drop_last(), deposit) + escrow_of(games.last(), deposit)
    }
}

/// What custody holds beyond what it owes to open games.
pub open spec fn custody_surplus(s: PalletState) -> int {
    balance_of(s.ledger, s.custody) - escrow_total(s.games, s.safeguard_deposit)
}

/// Whether every game of `s` has ended.
pub open spec fn all_ended(s: PalletState) -> bool {
    forall|i: int| 0 <= i < s.games.len() ==> (#[trigger] s.games[i]).ended
}

/// The calls from `s` under which custody keeps covering what it owes: no
/// withdrawal; no change of the safeguard deposit while a game is open (the
/// deposit refunded at the end would differ from the one collected); and no
/// privileged settlement of a game without a joiner (it would pay a jackpot of
/// two bets out of one stake).
pub open spec fn keeps_escrow_terms(s: PalletState, c: Call) -> bool {
    match c {
        Call::WithdrawFunds { .. } => false,
        Call::SetSafeguardDeposit { deposit, .. } => deposit == s.safeguard_deposit || all_ended(s),
        Call::ForceEndGame { game_index, .. } => has_game(s, game_index)
            ==> s.games[game_index as int].payout_addresses.1 is Some,
        _ => true,
    }
}

proof fn lemma_escrow_total_push(games: Seq<Game>, g: Game, deposit: Balance)
    ensures
        escrow_total(games.push(g), deposit) == escrow_total(games, deposit) + escrow_of(g, deposit),
{
    assert(games.push(g).drop_last() =~= games);
}

proof fn lemma_escrow_total_update(games: Seq<Game>, i: int, g: Game, deposit: Balance)
    requires
        0 <= i < games.len(),
    ensures
        escrow_total(games.update(i, g), deposit) == escrow_total(games, deposit) - escrow_of(
            games[i],
            deposit,
        ) + escrow_of(g, deposit),
    decreases games.len(),
{
    let u = games.update(i, g);
    if i == games.len() - 1 {
        assert(u.drop_last() =~= games.drop_last());
    } else {
        assert(u.drop_last() =~= games.drop_last().update(i, g));
        lemma_escrow_total_update(games.drop_last(), i, g, deposit);
    }
}

/// A payment between two different accounts moves exactly the amount; one
/// to oneself changes nothing.
proof fn lemma_pay_balances(l: LedgerView, from: AccountId, to: AccountId, amount: int)
    requires
        0 <= amount,
        pay(l, from, to, amount) is Ok,
    ensures
        from != to ==> balance_of(pay(l, from, to, amount)->Ok_0, from) == balance_of(l, from)
            - amount,
        from != to ==> balance_of(pay(l, from, to, amount)->Ok_0, to) == balance_of(l, to) + amount,
        from == to ==> pay(l, from, to, amount)->Ok_0 == l,
{
}

proof fn lemma_escrow_total_all_ended(games: Seq<Game>, deposit: Balance)
    requires
        forall|i: int| 0 <= i < games.len() ==> (#[trigger] games[i]).ended,
    ensures
        escrow_total(games, deposit) == 0,
    decreases games.len(),
{
    if games.len() > 0 {
        assert(games.last().ended);
        lemma_escrow_total_all_ended(games.drop_last(), deposit);
    }
}

/// Every call keeps the state well formed.
pub proof fn lemma_call_keeps_wf(s: PalletState, c: Call)
    requires
        state_wf(s),
    ensures
        state_wf(after_call(s, c)),
{
    let t = after_call(s, c);
    assert forall|i: int| 0 <= i < t.games.len() implies #[trigger] game_wf(t.games[i], t.custody) by {
        if i < s.games.len() {
            assert(game_wf(s.games[i], s.custody));
        }
    }
}

/// Seats are filled only by joining: in every call, a joiner seat that was
/// taken keeps its occupant, a free seat of an existing game is taken only by
/// the signer of a successful `JoinGame` of that game, no game disappears,
/// and a new game starts with its joiner seat free.
pub proof fn lemma_joiner_seat_taken_only_by_join(s: PalletState, c: Call)
    requires
        state_wf(s),
    ensures
        after_call(s, c).games.len() >= s.games.len(),
        forall|i: int|
            0 <= i < s.games.len() && (#[trigger] s.games[i]).payout_addresses.1 is Some
                ==> after_call(s, c).games[i].payout_addresses.1 == s.games[i].payout_addresses.1,
        forall|i: int|
            0 <= i < s.games.len() && (#[trigger] s.games[i]).payout_addresses.1 is None
                && after_call(s, c).games[i].payout_addresses.1 is Some ==> {
                &&& call_outcome(s, c) is Ok
                &&& c matches Call::JoinGame { origin, game_index }
                &&& game_index == i
                &&& signer_of(s, origin) is Ok
                &&& after_call(s, c).games[i].payout_addresses.1 == Some(signer_of(s, origin)->Ok_0)
            },
        forall|i: int|
            s.games.len() <= i < after_call(s, c).games.len()
                ==> (#[trigger] after_call(s, c).games[i]).payout_addresses.1 is None,
{
}

proof fn lemma_surplus_create(s: PalletState, origin: Origin, bet: Balance)
    requires
        state_wf(s),
        create_game_outcome(s, origin, bet) is Ok,
    ensures
        custody_surplus(create_game_outcome(s, origin, bet)->Ok_0.0) == custody_surplus(s),
{
    let t = create_game_outcome(s, origin, bet)->Ok_0.0;
    let d = s.safeguard_deposit;
    let caller = signer_of(s, origin)->Ok_0;
    let g = new_game(caller, bet);
    assert(t.ledger == pay(s.ledger, caller, s.custody, bet + d)->Ok_0);
    assert(t.games == s.games.push(g));
    assert(t.safeguard_deposit == d && t.custody == s.custody);
    lemma_pay_balances(s.ledger, caller, s.custody, bet + d);
    assert(balance_of(t.ledger, s.custody) == balance_of(s.ledger, s.custody) + bet + d);
    lemma_escrow_total_push(s.games, g, d);
    assert(escrow_of(g, d) == bet + d);
}

proof fn lemma_surplus_join(s: PalletState, origin: Origin, id: GameId)
    requires
        state_wf(s),
        join_game_outcome(s, origin, id) is Ok,
    ensures
        custody_surplus(join_game_outcome(s, origin, id)->Ok_0.0) == custody_surplus(s),
{
    let t = join_game_outcome(s, origin, id)->Ok_0.0;
    let d = s.safeguard_deposit;
    let caller = signer_of(s, origin)->Ok_0;
    let g = s.games[id as int];
    let g2 = Game { payout_addresses: (g.payout_addresses.0, Some(caller)), ..g };
    assert(game_wf(g, s.custody));
    assert(t.ledger == pay(s.ledger, caller, s.custody, g.bet + d)->Ok_0);
    assert(t.games == s.games.update(id as int, g2));
    assert(t.safeguard_deposit == d && t.custody == s.custody);
    lemma_pay_balances(s.ledger, caller, s.custody, g.bet + d);
    assert(balance_of(t.ledger, s.custody) == balance_of(s.ledger, s.custody) + g.bet + d);
    lemma_escrow_total_update(s.games, id as int, g2, d);
    assert(escrow_of(g, d) == g.bet + d);
    assert(escrow_of(g2, d) == 2 * (g.bet + d));
}

proof fn lemma_surplus_end(s: PalletState, origin: Origin, id: GameId, winner: AccountId)
    requires
        state_wf(s),
        end_game_outcome(s, origin, id, winner) is Ok,
    ensures
        custody_surplus(end_game_outcome(s, origin, id, winner)->Ok_0.0) == custody_surplus(s),
{
    let t = end_game_outcome(s, origin, id, winner)->Ok_0.0;
    let d = s.safeguard_deposit;
    let g = s.games[id as int];
    let g2 = t.games[id as int];
    assert(game_wf(g, s.custody));
    assert(t.games == s.games.update(id as int, g2));
    assert(t.safeguard_deposit == d && t.custody == s.custody);
    lemma_escrow_total_update(s.games, id as int, g2, d);
    if g2.ended {
        let host = g.payout_addresses.0->Some_0;
        let joiner = g.payout_addresses.1->Some_0;
        let l1 = pay(s.ledger, s.custody, host, d as int)->Ok_0;
        let l2 = pay(l1, s.custody, joiner, d as int)->Ok_0;
        assert(winner == host || winner == joiner);
        assert(t.ledger == pay(l2, s.custody, winner, 2 * g.bet)->Ok_0);
        lemma_pay_balances(s.ledger, s.custody, host, d as int);
        lemma_pay_balances(l1, s.custody, joiner, d as int);
        lemma_pay_balances(l2, s.custody, winner, 2 * g.bet);
        assert(balance_of(t.ledger, s.custody) == balance_of(s.ledger, s.custody) - 2 * d - 2
            * g.bet);
        assert(escrow_of(g, d) == 2 * (g.bet + d));
        assert(escrow_of(g2, d) == 0);
    } else {
        assert(t.ledger == s.ledger);
        assert(escrow_of(g2, d) == escrow_of(g, d));
    }
}

proof fn lemma_surplus_force_end(
    s: PalletState,
    origin: Origin,
    id: GameId,
    winner: AccountId,
    beneficiary: AccountId,
)
    requires
        state_wf(s),
        force_end_game_outcome(s, origin, id, winner, beneficiary) is Ok,
        s.games[id as int].payout_addresses.1 is Some,
    ensures
        custody_surplus(force_end_game_outcome(s, origin, id, winner, beneficiary)->Ok_0.0)
            >= custody_surplus(s),
{
    let t = force_end_game_outcome(s, origin, id, winner, beneficiary)->Ok_0.0;
    let d = s.safeguard_deposit;
    let g = s.games[id as int];
    let g2 = t.games[id as int];
    assert(game_wf(g, s.custody));
    assert(t.games == s.games.update(id as int, g2));
    assert(t.safeguard_deposit == d && t.custody == s.custody);
    let l1 = pay(s.ledger, s.custody, beneficiary, d as int)->Ok_0;
    assert(t.ledger == pay(l1, s.custody, winner, 2 * g.bet)->Ok_0);
    lemma_pay_balances(s.ledger, s.custody, beneficiary, d as int);
    lemma_pay_balances(l1, s.custody, winner, 2 * g.bet);
    assert(balance_of(t.ledger, s.custody) >= balance_of(s.ledger, s.custody) - d - 2 * g.bet);
    lemma_escrow_total_update(s.games, id as int, g2, d);
    assert(escrow_of(g, d) == 2 * (g.bet + d));
    assert(escrow_of(g2, d) == 0);
}

/// One call from a well-formed state under the terms above never lowers what
/// custody holds beyond what it owes to open games, and only a privileged
/// settlement can raise it (the deposit it does not refund stays in custody).
pub proof fn lemma_custody_surplus_step(s: PalletState, c: Call)
    requires
        state_wf(s),
        keeps_escrow_terms(s, c),
    ensures
        custody_surplus(after_call(s, c)) >= custody_surplus(s),
        !(c is ForceEndGame) ==> custody_surplus(after_call(s, c)) == custody_surplus(s),
{
    if call_outcome(s, c) is Ok {
        match c {
            Call::CreateGame { origin, bet } => lemma_surplus_create(s, origin, bet),
            Call::JoinGame { origin, game_index } => lemma_surplus_join(s, origin, game_index),
            Call::EndGame { origin, game_index, winner } => lemma_surplus_end(
                s,
                origin,
                game_index,
                winner,
            ),
            Call::ForceEndGame { origin, game_index, winner, deposit_beneficiary } => {
                lemma_surplus_force_end(s, origin, game_index, winner, deposit_beneficiary)
            },
            Call::SetSafeguardDeposit { origin, deposit } => {
                let t = after_call(s, c);
                if deposit != s.safeguard_deposit {
                    lemma_escrow_total_all_ended(s.games, s.safeguard_deposit);
                    lemma_escrow_total_all_ended(t.games, deposit);
                }
            },
            Call::WithdrawFunds { .. } => {},
        }
    }
}

proof fn lemma_prefix_of_prefix(cs: Seq<Call>, k: int)
    requires
        0 <= k < cs.len(),
    ensures
        cs.drop_last().take(k) =~= cs.take(k),
        cs.take(cs.len() - 1) =~= cs.drop_last(),
{
}

/// Every run of calls from a well-formed state ends in a well-formed state.
pub proof fn lemma_calls_keep_wf(s: PalletState, cs: Seq<Call>)
    requires
        state_wf(s),
    ensures
        state_wf(after_calls(s, cs)),
    decreases cs.len(),
{
    if cs.len() > 0 {
        lemma_calls_keep_wf(s, cs.drop_last());
        lemma_call_keeps_wf(after_calls(s, cs.drop_last()), cs.last());
    }
}

/// Conservation over a run: when every call of the run is made under the
/// terms above, what custody holds beyond what it owes to open games (bet
/// plus safeguard deposit per seat) is never lower at the end than at the
/// start, and it is the same when no call is a privileged settlement. So a
/// custody that covered its open games keeps covering them.
pub proof fn lemma_custody_covers_escrow(s: PalletState, cs: Seq<Call>)
    requires
        state_wf(s),
        forall|k: int|
            0 <= k < cs.len() ==> keeps_escrow_terms(after_calls(s, cs.take(k)), #[trigger] cs[k]),
    ensures
        custody_surplus(after_calls(s, cs)) >= custody_surplus(s),
        (forall|k: int| 0 <= k < cs.len() ==> !(#[trigger] cs[k] is ForceEndGame)) ==> custody_surplus(
            after_calls(s, cs),
        ) == custody_surplus(s),
    decreases cs.len(),
{
    if cs.len() > 0 {
        let front = cs.drop_last();
        assert forall|k: int| 0 <= k < front.len() implies keeps_escrow_terms(
            after_calls(s, front.take(k)),
            #[trigger] front[k],
        ) by {
            lemma_prefix_of_prefix(cs, k);
            assert(front[k] == cs[k]);
        }
        lemma_custody_covers_escrow(s, front);
        lemma_calls_keep_wf(s, front);
        lemma_prefix_of_prefix(cs, 0);
        assert(keeps_escrow_terms(after_calls(s, cs.take(cs.len() - 1)), cs[cs.len() - 1]));
        lemma_custody_surplus_step(after_calls(s, front), cs.last());
        if forall|k: int| 0 <= k < cs.len() ==> !(#[trigger] cs[k] is ForceEndGame) {
            assert forall|k: int| 0 <= k < front.len() implies !(#[trigger] front[k] is ForceEndGame) by {
                assert(front[k] == cs[k]);
            }
            assert(!(cs[cs.len() - 1] is ForceEndGame));
        }
    }
}

/// Conservation from genesis: after any run whose calls are made under the
/// terms above, custody holds at least what it owes to the open games (bet
/// plus safeguard deposit per seat) on top of what it held at genesis, and
/// exactly that when no call is a privileged settlement.
pub proof fn lemma_custody_covers_escrow_from_genesis(
    ledger: LedgerView,
    custody: AccountId,
    cs: Seq<Call>,
)
    requires
        forall|k: int|
            0 <= k < cs.len() ==> keeps_escrow_terms(
                after_calls(genesis(ledger, custody), cs.take(k)),
                #[trigger] cs[k],
            ),
    ensures
        ({
            let t = after_calls(genesis(ledger, custody), cs);
            &&& balance_of(t.ledger, custody) >= escrow_total(t.games, t.safeguard_deposit)
                + balance_of(ledger, custody)
            &&& (forall|k: int| 0 <= k < cs.len() ==> !(#[trigger] cs[k] is ForceEndGame))
                ==> balance_of(t.ledger, custody) == escrow_total(t.games, t.safeguard_deposit)
                + balance_of(ledger, custody)
        }),
{
    let s = genesis(ledger, custody);
    lemma_custody_covers_escrow(s, cs);
    lemma_calls_keep_custody(s, cs);
}

proof fn lemma_calls_keep_custody(s: PalletState, cs: Seq<Call>)
    ensures
        after_calls(s, cs).custody == s.custody,
    decreases cs.len(),
{
    if cs.len() > 0 {
        lemma_calls_keep_custody(s, cs.drop_last());
    }
}

/// Seats are filled only by joining, over any run from a well-formed state: a
/// game whose joiner seat is taken at the end either had that occupant at the
/// start, or some call of the run was a successful `JoinGame` of that game
/// signed by that occupant.
pub proof fn lemma_joiner_seat_history(s: PalletState, cs: Seq<Call>, i: int)
    requires
        state_wf(s),
        0 <= i < after_calls(s, cs).games.len(),
        after_calls(s, cs).games[i].payout_addresses.1 is Some,
    ensures
        (i < s.games.len() && s.games[i].payout_addresses.1 == after_calls(
            s,
            cs,
        ).games[i].payout_addresses.1) || exists|k: int|
            0 <= k < cs.len() && #[trigger] joined_at(
                s,
                cs,
                k,
                i as GameId,
                after_calls(s, cs).games[i].payout_addresses.1->Some_0,
            ),
    decreases cs.len(),
{
    if cs.len() > 0 {
        let front = cs.drop_last();
        let mid = after_calls(s, front);
        let end = after_calls(s, cs);
        let who = end.games[i].payout_addresses.1->Some_0;
        lemma_calls_keep_wf(s, front);
        lemma_joiner_seat_taken_only_by_join(mid, cs.last());
        lemma_prefix_of_prefix(cs, 0);
        if i < mid.games.len() && mid.games[i].payout_addresses.1 is Some {
            assert(mid.games[i].payout_addresses.1 == Some(who));
            lemma_joiner_seat_history(s, front, i);
            if !(i < s.games.len() && s.games[i].payout_addresses.1 == Some(who)) {
                let k = choose|k: int| 0 <= k < front.len() && #[trigger] joined_at(s, front, k, i as GameId, who);
                lemma_prefix_of_prefix(cs, k);
                assert(front[k] == cs[k]);
                assert(joined_at(s, cs, k, i as GameId, who));
            }
        } else {
            assert(i < mid.games.len());
            assert(mid.games[i].payout_addresses.1 is None);
            assert(joined_at(s, cs, cs.len() - 1, i as GameId, who));
        }
    }
}

/// Call `k` of the run `cs` from `s` was a successful `JoinGame` of game `id`
/// signed by `who`.
pub open spec fn joined_at(s: PalletState, cs: Seq<Call>, k: int, id: GameId, who: AccountId) -> bool {
    &&& call_outcome(after_calls(s, cs.take(k)), cs[k]) is Ok
    &&& cs[k] == Call::JoinGame { origin: Origin::Signed(who), game_index: id }
}

/// A player who has proposed a winner cannot propose again while the game is
/// open: a second proposal naming a player is rejected with
/// `HandshakeAlreadySet` (one naming anyone else with `NotAPlayer`), and it
/// changes nothing.
pub proof fn lemma_second_proposal_rejected(
    s: PalletState,
    caller: AccountId,
    id: GameId,
    first: AccountId,
    second: AccountId,
)
    requires
        state_wf(s),
        end_game_outcome(s, Origin::Signed(caller), id, first) is Ok,
        !end_game_outcome(s, Origin::Signed(caller), id, first)->Ok_0.0.games[id as int].ended,
    ensures
        ({
            let t = end_game_outcome(s, Origin::Signed(caller), id, first)->Ok_0.0;
            let seats = s.games[id as int].payout_addresses;
            &&& end_game_outcome(t, Origin::Signed(caller), id, second) == Err::<
                (PalletState, Event),
                Error,
            >(
                if seats.0 == Some(second) || seats.1 == Some(second) {
                    Error::HandshakeAlreadySet
                } else {
                    Error::NotAPlayer
                },
            )
            &&& after_call(
                t,
                Call::EndGame { origin: Origin::Signed(caller), game_index: id, winner: second },
            ) == t
        }),
{
    let g = s.games[id as int];
    let t = end_game_outcome(s, Origin::Signed(caller), id, first)->Ok_0.0;
    let host = g.payout_addresses.0->Some_0;
    let joiner = g.payout_addresses.1->Some_0;
    let h = proposal_outcome(g.handshake, caller, host, first)->Ok_0;
    assert(t.games[id as int] == Game { handshake: h, ..g });
    assert(proposal_outcome(h, caller, host, second) is Err);
}

} // verus!
