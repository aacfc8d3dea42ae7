use vstd::prelude::*;

verus! {

/// Reasons a payment attached to a purchase can be rejected, mirroring the
/// payment checks of the host's funds helper.
#[derive(Debug, PartialEq, Eq)]
pub enum PaymentError {
    MissingDenom(String),
    ExtraDenom(String),
    MultipleDenoms,
    NoFunds,
    NonPayable,
}

/// The closed error taxonomy of the lottery: every operation either commits
/// fully or returns one of these without mutating the round.
#[derive(Debug, PartialEq, Eq)]
pub enum ContractError {
    /// An arithmetic operation on ticket counts or costs overflowed.
    OverFlowError,
    /// The attached funds were malformed (none, several denominations, or the
    /// wrong denomination).
    PaymentError(PaymentError),
    /// A caller other than the admin invoked an admin-only operation.
    Unauthorized,
    /// The attached funds did not equal `num_tickets * ticket_unit_cost`.
    TicketBuyingIncorrectAmount,
    /// A purchase was attempted while the phase is CHOOSING or CLOSED.
    TicketBuyingNotAvailable,
    /// A draw was attempted while the phase is OPEN or CLOSED.
    LotteryNotExecutable,
    /// A claim was attempted while the phase is OPEN or CHOOSING.
    LotteryNotClaimable,
    /// The winner has already claimed the earnings of this round.
    LotteryAlreadyClaimed,
    /// A claim was attempted by an identity other than the recorded winner.
    LotteryNotClaimedByCorrectUser,
    /// A draw was attempted with zero tickets sold.
    LotteryNoParticipants,
    /// The selection scan found no range containing the drawn ticket; this is
    /// a fatal invariant violation of the tiling, never silently recovered.
    WinnerNotPossibleToFind,
    /// The house fee handed to `instantiate` was at or above the ceiling.
    ContractInstantiationInvalidFee,
}

} // verus!
