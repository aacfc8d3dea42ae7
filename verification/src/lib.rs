mod constants;
mod contract;
mod error;
mod expiration;
mod helpers;
mod ledger;
mod models;
mod msg;
mod payment;
mod rng;
mod state;
mod util;

pub use constants::MAX_HOUSE_FEE;
pub use constants::TOTAL_POOL_SIZE;
pub use contract::buy_transition;
pub use contract::choose_winner;
pub use contract::claim_transfers;
pub use contract::claim_transition;
pub use contract::create_player_ranges;
pub use contract::draw_transition;
pub use contract::execute;
pub use contract::execute_buy_ticket;
pub use contract::execute_claim;
pub use contract::execute_lottery;
pub use contract::instantiate;
pub use contract::lemma_draw_finds_winner;
pub use contract::lemma_single_claim;
pub use contract::lemma_tiling_exact;
pub use contract::query;
pub use contract::query_config;
pub use contract::query_lottery_state;
pub use contract::query_ticket_count;
pub use contract::res_view;
pub use contract::slice_unit;
pub use contract::spec_fee;
pub use contract::spec_ranges;
pub use error::ContractError;
pub use error::PaymentError;
pub use expiration::duration_fits;
pub use expiration::spec_after;
pub use expiration::spec_is_expired;
pub use expiration::BlockInfo;
pub use expiration::Duration;
pub use expiration::Env;
pub use expiration::Expiration;
pub use expiration::NANOS_PER_SECOND;
pub use helpers::get_player_ranges;
pub use ledger::bytes_lt;
pub use ledger::key_of;
pub use ledger::lemma_tickets_accumulate;
pub use ledger::lookup_tickets;
pub use ledger::sum_prefix;
pub use ledger::sum_tickets;
pub use ledger::tickets_or_zero;
pub use ledger::PlayerEntry;
pub use ledger::PlayerLedger;
pub use ledger::PlayerV;
pub use models::range_contains;
pub use models::spec_select;
pub use models::PlayerRange;
pub use models::PlayerRangeV;
pub use models::PlayerRanges;
pub use msg::BankMsg;
pub use msg::BankMsgV;
pub use msg::ConfigResponse;
pub use msg::ExecuteMsg;
pub use msg::InstantiateMsg;
pub use msg::LotteryStateResponse;
pub use msg::MessageInfo;
pub use msg::MessageInfoV;
pub use msg::QueryAnswer;
pub use msg::QueryMsg;
pub use msg::Response;
pub use msg::TicketResponse;
pub use payment::must_pay_accepts;
pub use payment::must_pay_missing_denom;
pub use payment::spec_must_pay;
pub use rng::seeded_draw;
pub use state::lemma_phase_forward_only;
pub use state::phase_leq;
pub use state::phase_rank;
pub use state::Coin;
pub use state::CoinV;
pub use state::Config;
pub use state::ConfigV;
pub use state::Lottery;
pub use state::LotteryState;
pub use state::LotteryStateV;
pub use state::LotteryV;
pub use state::PlayerInfo;
pub use util::is_admin;
pub use util::validate_house_fee;
