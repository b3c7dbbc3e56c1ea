use vstd::prelude::*;

use crate::types::{AccountId, Error};

verus! {

/// The two proposal slots of a game: the winner the host proposed, and the
/// winner the joiner proposed.
pub type Handshake = (Option<AccountId>, Option<AccountId>);

/// Where a handshake stands.
#[derive(Clone, Copy, Debug, PartialEq, Eq, Structural)]
pub enum Resolution {
    /// At least one player has not proposed yet.
    Pending,
    /// Both players proposed the same winner.
    Agreed(AccountId),
    /// Both players proposed, and they disagree.
    Disputed,
}

pub open spec fn resolution_of(h: Handshake) -> Resolution {
    match (h.0, h.1) {
        (Some(a), Some(b)) => if a == b {
            Resolution::Agreed(a)
        } else {
            Resolution::Disputed
        },
        _ => Resolution::Pending,
    }
}

/// The handshake after `caller` proposes `winner`: the host writes the first
/// slot, anyone else the second, and a slot is written at most once.
pub open spec fn proposal_outcome(
    h: Handshake,
    caller: AccountId,
    host: AccountId,
    winner: AccountId,
) -> Result<Handshake, Error> {
    if caller == host {
        if h.0 is None {
            Ok((Some(winner), h.1))
        } else {
            Err(Error::HandshakeAlreadySet)
        }
    } else {
        if h.1 is None {
            Ok((h.0, Some(winner)))
        } else {
            Err(Error::HandshakeAlreadySet)
        }
    }
}

/// Classifies a handshake as pending, agreed or disputed.
pub fn resolve(h: Handshake) -> (r: Resolution)
    ensures
        r == resolution_of(h),
{
    match (h.0, h.1) {
        (Some(a), Some(b)) => if a == b {
            Resolution::Agreed(a)
        } else {
            Resolution::Disputed
        },
        _ => Resolution::Pending,
    }
}

/// Records `caller`'s proposal of `winner`, refusing a second proposal from
/// the same slot.
pub fn update_handshake(h: Handshake, caller: AccountId, host: AccountId, winner: AccountId) -> (r:
    Result<Handshake, Error>)
    ensures
        r == proposal_outcome(h, caller, host, winner),
{
    let mut new_handshake = h;
    if caller == host {
        if new_handshake.0.is_none() {
            new_handshake.0 = Some(winner);
        } else {
            return Err(Error::HandshakeAlreadySet);
        }
    } else {
        if new_handshake.1.is_none() {
            new_handshake.1 = Some(winner);
        } else {
            return Err(Error::HandshakeAlreadySet);
        }
    }
    Ok(new_handshake)
}

} // verus!
