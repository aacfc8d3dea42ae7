use vstd::prelude::*;

use crate::expiration::Duration;
use crate::state::Coin;
use crate::state::CoinV;
use crate::state::Config;
use crate::state::LotteryState;

verus! {

/// Who sent the current operation and which funds came attached to it.
#[derive(Debug)]
pub struct MessageInfo {
    pub sender: String,
    pub funds: Vec<Coin>,
}

/// Mathematical model of a `MessageInfo`.
#[verifier::ext_equal]
pub struct MessageInfoV {
    pub sender: Seq<char>,
    pub funds: Seq<CoinV>,
}

impl View for MessageInfo {
    type V = MessageInfoV;

    open spec fn view(&self) -> MessageInfoV {
        MessageInfoV { sender: self.sender@, funds: self.funds@.map_values(|c: Coin| c@) }
    }
}

/// A transfer order handed back to the host ledger for execution.
#[derive(Debug)]
pub enum BankMsg {
    Send { to_address: String, amount: Vec<Coin> },
}

/// Mathematical model of a `BankMsg`.
#[verifier::ext_equal]
pub struct BankMsgV {
    pub to_address: Seq<char>,
    pub amount: Seq<CoinV>,
}

impl View for BankMsg {
    type V = BankMsgV;

    open spec fn view(&self) -> BankMsgV {
        match self {
            BankMsg::Send { to_address, amount } => BankMsgV {
                to_address: to_address@,
                amount: amount@.map_values(|c: Coin| c@),
            },
        }
    }
}

/// What an operation hands back to the host: the transfers to issue.
#[derive(Debug)]
pub struct Response {
    pub messages: Vec<BankMsg>,
}

impl View for Response {
    type V = Seq<BankMsgV>;

    open spec fn view(&self) -> Seq<BankMsgV> {
        self.messages@.map_values(|m: BankMsg| m@)
    }
}

impl Response {
    /// A response carrying no transfers.
    pub fn new() -> (r: Response)
        ensures
            r@ == Seq::<BankMsgV>::empty(),
    {
        let r = Response { messages: Vec::new() };
        proof {
            assert(r@ =~= Seq::<BankMsgV>::empty());
        }
        r
    }
}

/// Parameters of a fresh round.
#[derive(Debug)]
pub struct InstantiateMsg {
    pub ticket_cost: Coin,
    pub lottery_duration: Duration,
    pub admin: String,
    pub house_fee: u64,
}

/// The three operations a round accepts.
#[derive(Debug)]
pub enum ExecuteMsg {
    BuyTicket { num_tickets: u64 },
    ExecuteLottery { seed: u64 },
    ClaimTokens,
}

/// The three read-only questions a round answers.
#[derive(Debug)]
pub enum QueryMsg {
    TicketCount { addr: String },
    LotteryState,
    Config,
}

/// Ticket count of one identity; `None` for one that never bought.
#[derive(Debug, PartialEq, Eq)]
pub struct TicketResponse {
    pub tickets: Option<u64>,
}

/// Current phase of the round, with the round's total ticket count.
#[derive(Debug, PartialEq, Eq)]
pub struct LotteryStateResponse {
    pub lotto_state: LotteryState,
    pub total_tickets: u64,
}

/// The round's immutable configuration.
#[derive(Debug, PartialEq, Eq)]
pub struct ConfigResponse {
    pub config: Config,
}

/// The answer to a query, one variant per question.
#[derive(Debug)]
pub enum QueryAnswer {
    Ticket(TicketResponse),
    State(LotteryStateResponse),
    Configuration(ConfigResponse),
}

} // verus!
