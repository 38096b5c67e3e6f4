use vstd::prelude::*;

verus! {

/// Why an operation on a round was refused. A refused operation leaves the
/// round as it was.
#[derive(Clone, Copy, Debug, PartialEq, Eq, Structural)]
pub enum ContractError {
    /// The caller of an administrative operation is not the owner.
    Unauthorized,
    /// A randomness callback came from another sender than the oracle.
    UnauthorizedReceive,
    /// The round has been rolled already.
    RoundEnd,
    /// The delivered randomness is not 32 bytes long.
    InvalidRandomness,
    /// The oracle address did not validate.
    InvalidProxyAddress,
    /// An address of the whitelist did not validate.
    InvalidAddress,
    /// A date-time text did not parse to an instant at or after the epoch.
    InvalidDateTime,
    /// "Game not end yet!": a roll before the end of the window.
    GameNotEnded,
    /// "Prizes are not shuffled!": a roll before the oracle shuffled the prizes.
    PrizesNotShuffled,
    /// "insufficient prize!": more attendees than prizes.
    InsufficientPrize,
    /// "Denied action!": a registration from an address off the whitelist.
    DeniedAction,
    /// "Only allowed to take the lucky number once!"
    OnlyOnce,
    /// "Game not start yet!": a registration before the window opens.
    GameNotStarted,
    /// "Game has ended!": a registration after the window closed.
    GameHasEnded,
}

} // verus!
