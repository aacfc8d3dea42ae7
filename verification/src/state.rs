use vstd::prelude::*;

use crate::constants::MAX_HOUSE_FEE;
use crate::expiration::Expiration;
use crate::ledger::PlayerLedger;

verus! {

/// One payment token amount: a denomination and an integer amount of its
/// base unit.
#[derive(Debug, PartialEq, Eq)]
pub struct Coin {
    pub denom: String,
    pub amount: u128,
}

/// Mathematical model of a `Coin`.
#[verifier::ext_equal]
pub struct CoinV {
    pub denom: Seq<char>,
    pub amount: u128,
}

impl View for Coin {
    type V = CoinV;

    open spec fn view(&self) -> CoinV {
        CoinV { denom: self.denom@, amount: self.amount }
    }
}

/// Immutable-after-init parameters of one lottery round.
#[derive(Debug, PartialEq, Eq)]
pub struct Config {
    /// Identity allowed to run the draw; receiver of the house fee.
    pub admin: String,
    /// House fee in basis points (10000 = 100%); strictly below
    /// `MAX_HOUSE_FEE`.
    pub house_fee: u64,
    /// The exact price of one ticket.
    pub ticket_unit_cost: Coin,
}

/// Mathematical model of a `Config`.
#[verifier::ext_equal]
pub struct ConfigV {
    pub admin: Seq<char>,
    pub house_fee: u64,
    pub ticket_unit_cost: CoinV,
}

impl View for Config {
    type V = ConfigV;

    open spec fn view(&self) -> ConfigV {
        ConfigV {
            admin: self.admin@,
            house_fee: self.house_fee,
            ticket_unit_cost: self.ticket_unit_cost@,
        }
    }
}

impl Config {
    /// The configuration invariant: the fee is under the ceiling.
    pub open spec fn wf(&self) -> bool {
        self.house_fee < MAX_HOUSE_FEE
    }
}

/// Ticket holdings of one participant.
#[derive(Debug, Clone, Copy, PartialEq, Eq, Structural)]
pub struct PlayerInfo {
    pub tickets: u64,
}

/// The three-phase lifecycle of a round. Transitions only ever move forward:
/// OPEN to CHOOSING to CLOSED, and within CLOSED `claimed` flips from false
/// to true exactly once.
#[derive(Debug, PartialEq, Eq)]
#[allow(non_camel_case_types)]
pub enum LotteryState {
    /// Accepting purchases until `expiration` elapses.
    OPEN { expiration: Expiration },
    /// Purchase window closed; awaiting the draw.
    CHOOSING,
    /// The draw picked `winner`; `claimed` records the single payout.
    CLOSED { winner: String, claimed: bool },
}

/// Mathematical model of a `LotteryState`.
#[verifier::ext_equal]
#[allow(non_camel_case_types)]
pub enum LotteryStateV {
    OPEN { expiration: Expiration },
    CHOOSING,
    CLOSED { winner: Seq<char>, claimed: bool },
}

impl View for LotteryState {
    type V = LotteryStateV;

    open spec fn view(&self) -> LotteryStateV {
        match self {
            LotteryState::OPEN { expiration } => LotteryStateV::OPEN {
                expiration: *expiration,
            },
            LotteryState::CHOOSING => LotteryStateV::CHOOSING,
            LotteryState::CLOSED { winner, claimed } => LotteryStateV::CLOSED {
                winner: winner@,
                claimed: *claimed,
            },
        }
    }
}

/// How far along its lifecycle a phase is. The lifecycle only ever moves to
/// phases of equal or higher rank.
pub open spec fn phase_rank(state: LotteryStateV) -> int {
    match state {
        LotteryStateV::OPEN { .. } => 0,
        LotteryStateV::CHOOSING => 1,
        LotteryStateV::CLOSED { claimed, .. } => if claimed {
            3
        } else {
            2
        },
    }
}

/// The forward-only order on phases: `b` is reachable from `a` by zero or
/// more operations.
pub open spec fn phase_leq(a: LotteryStateV, b: LotteryStateV) -> bool {
    phase_rank(a) <= phase_rank(b)
}

/// The phase never regresses: reachability along the lifecycle is
/// transitive, so no sequence of operations, each of which only moves the
/// phase forward, can take CHOOSING back to OPEN, or CLOSED back to CHOOSING
/// or OPEN.
pub proof fn lemma_phase_forward_only(a: LotteryStateV, b: LotteryStateV, c: LotteryStateV)
    requires
        phase_leq(a, b),
        phase_leq(b, c),
    ensures
        phase_leq(a, c),
{
}

/// One complete round of the lottery: the explicit state object every
/// operation reads and updates, in place of ambient storage slots.
#[derive(Debug)]
pub struct Lottery {
    pub config: Config,
    pub state: LotteryState,
    pub players: PlayerLedger,
}

/// Mathematical model of a whole round.
#[verifier::ext_equal]
pub struct LotteryV {
    pub config: ConfigV,
    pub state: LotteryStateV,
    pub players: Seq<crate::ledger::PlayerV>,
}

impl View for Lottery {
    type V = LotteryV;

    open spec fn view(&self) -> LotteryV {
        LotteryV { config: self.config@, state: self.state@, players: self.players@ }
    }
}

impl Lottery {
    /// Well-formedness of a round: the configuration invariant and the
    /// ledger invariant both hold.
    pub open spec fn wf(&self) -> bool {
        &&& self.config.wf()
        &&& self.players.wf()
    }
}

} // verus!
