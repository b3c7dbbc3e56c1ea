use vstd::prelude::*;

verus! {

/// Identity of an account of the ledger.
pub type AccountId = u64;

/// An amount of currency.
pub type Balance = u64;

/// Identifier of a game in the registry.
pub type GameId = u32;

/// Who calls an operation: a signed account, the privileged origin, or nobody.
#[derive(Clone, Copy, Debug, PartialEq, Eq, Structural)]
pub enum Origin {
    Root,
    Signed(AccountId),
    Unsigned,
}

impl Origin {
    /// The privileged origin.
    pub fn root() -> (r: Origin)
        ensures
            r == Origin::Root,
    {
        Origin::Root
    }

    /// An origin signed by `who`.
    pub fn signed(who: AccountId) -> (r: Origin)
        ensures
            r == Origin::Signed(who),
    {
        Origin::Signed(who)
    }
}

/// One wager between a host and (once seated) a joiner.
#[derive(Clone, Copy, Debug, PartialEq, Eq)]
pub struct Game {
    /// Stake each player contributes; the jackpot is twice this amount.
    pub bet: Balance,
    /// Payout addresses of the host and of the joiner.
    pub payout_addresses: (Option<AccountId>, Option<AccountId>),
    /// Whether the game has ended.
    pub ended: bool,
    /// Winner proposed by the host and winner proposed by the joiner.
    pub handshake: (Option<AccountId>, Option<AccountId>),
}

/// What a successful operation reports.
#[derive(Clone, Copy, Debug, PartialEq, Eq, Structural)]
pub enum Event {
    /// A game has been created.
    GameCreated { game_index: GameId },
    /// A player has joined a game.
    PlayerJoined { game_index: GameId, player: AccountId },
    /// A game has ended.
    GameEnded { game_index: GameId, winner: AccountId, jackpot: Balance },
    /// A safeguard deposit has been set.
    SafeguardDepositSet { deposit: Balance },
    /// A winner has been proposed.
    WinnerProposed { game_index: GameId, winner: AccountId, proposer: AccountId },
    /// Mediation has been requested.
    MediationRequested { game_index: GameId, proposer: AccountId },
    /// Funds have been withdrawn from custody.
    FundsWithdrawn { amount: Balance, beneficiary: AccountId },
}

/// Why an operation was rejected. A rejected operation changes nothing.
#[derive(Clone, Copy, Debug, PartialEq, Eq, Structural)]
pub enum Error {
    /// The origin is not the one the operation needs (signed, or privileged).
    BadOrigin,
    /// The game does not exist.
    GameDoesNotExist,
    /// The game index has overflowed.
    IndexOverflow,
    /// The game has already ended.
    GameAlreadyEnded,
    /// The bet must be greater than 0.
    CantBeZero,
    /// The account is not a player of the game.
    NotAPlayer,
    /// The game is full.
    GameFull,
    /// The game does not have both players seated.
    BadAddress,
    /// The caller has already proposed a winner.
    HandshakeAlreadySet,
    /// The payer cannot pay the amount and keep its existential deposit.
    InsufficientFunds,
    /// The payee's balance would exceed the largest representable amount.
    BalanceOverflow,
}

/// The broad classes of rejection.
#[derive(Clone, Copy, Debug, PartialEq, Eq, Structural)]
pub enum ErrorKind {
    NotFound,
    InvalidState,
    InvalidInput,
    Unauthorized,
    InsufficientFunds,
    CounterOverflow,
}

pub open spec fn kind_of(e: Error) -> ErrorKind {
    match e {
        Error::BadOrigin => ErrorKind::Unauthorized,
        Error::NotAPlayer => ErrorKind::Unauthorized,
        Error::GameDoesNotExist => ErrorKind::NotFound,
        Error::IndexOverflow => ErrorKind::CounterOverflow,
        Error::CantBeZero => ErrorKind::InvalidInput,
        Error::GameAlreadyEnded => ErrorKind::InvalidState,
        Error::GameFull => ErrorKind::InvalidState,
        Error::BadAddress => ErrorKind::InvalidState,
        Error::HandshakeAlreadySet => ErrorKind::InvalidState,
        Error::InsufficientFunds => ErrorKind::InsufficientFunds,
        Error::BalanceOverflow => ErrorKind::InsufficientFunds,
    }
}

impl Error {
    /// The class this rejection belongs to.
    pub fn kind(&self) -> (r: ErrorKind)
        ensures
            r == kind_of(*self),
    {
        match self {
            Error::BadOrigin => ErrorKind::Unauthorized,
            Error::NotAPlayer => ErrorKind::Unauthorized,
            Error::GameDoesNotExist => ErrorKind::NotFound,
            Error::IndexOverflow => ErrorKind::CounterOverflow,
            Error::CantBeZero => ErrorKind::InvalidInput,
            Error::GameAlreadyEnded => ErrorKind::InvalidState,
            Error::GameFull => ErrorKind::InvalidState,
            Error::BadAddress => ErrorKind::InvalidState,
            Error::HandshakeAlreadySet => ErrorKind::InvalidState,
            Error::InsufficientFunds => ErrorKind::InsufficientFunds,
            Error::BalanceOverflow => ErrorKind::InsufficientFunds,
        }
    }
}

} // verus!
