//! A two-party wagering ledger: two accounts stake an equal bet, the stakes are
//! held in a custody account, and the jackpot is paid out once both players
//! agree on the winner, or once the privileged origin settles a dispute.
pub mod handshake;
pub mod laws;
pub mod ledger;
pub mod pallet;
pub mod transitions;
pub mod types;

pub use handshake::{resolve, update_handshake, Handshake, Resolution};
pub use ledger::{Ledger, LedgerView};
pub use pallet::Pallet;
pub use transitions::Call;
pub use types::{AccountId, Balance, Error, ErrorKind, Event, Game, GameId, Origin};
