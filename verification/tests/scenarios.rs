use cw_lootboxes::create_player_ranges;
use cw_lootboxes::execute;
use cw_lootboxes::get_player_ranges;
use cw_lootboxes::instantiate;
use cw_lootboxes::is_admin;
use cw_lootboxes::query_config;
use cw_lootboxes::query_lottery_state;
use cw_lootboxes::query_ticket_count;
use cw_lootboxes::validate_house_fee;
use cw_lootboxes::BankMsg;
use cw_lootboxes::BlockInfo;
use cw_lootboxes::Coin;
use cw_lootboxes::ContractError;
use cw_lootboxes::Duration;
use cw_lootboxes::Env;
use cw_lootboxes::ExecuteMsg;
use cw_lootboxes::InstantiateMsg;
use cw_lootboxes::Lottery;
use cw_lootboxes::LotteryState;
use cw_lootboxes::MessageInfo;
use cw_lootboxes::PaymentError;

const DENOM: &str = "ulotto";
const WEEK: u64 = 604_800;

fn mock_env() -> Env {
    Env { block: BlockInfo { height: 12_345, time: 1_571_797_419_879_305_533 } }
}

fn later(env: &Env, seconds: u64) -> Env {
    Env {
        block: BlockInfo {
            height: env.block.height,
            time: env.block.time + seconds * 1_000_000_000,
        },
    }
}

fn coin(amount: u128, denom: &str) -> Coin {
    Coin { denom: denom.to_string(), amount }
}

fn info(sender: &str, funds: Vec<Coin>) -> MessageInfo {
    MessageInfo { sender: sender.to_string(), funds }
}

fn open_lottery(ticket_cost: u128, house_fee: u64) -> Lottery {
    let msg = InstantiateMsg {
        ticket_cost: coin(ticket_cost, DENOM),
        lottery_duration: Duration::Time(WEEK),
        admin: "admin".to_string(),
        house_fee,
    };
    instantiate(&mock_env(), &info("admin", vec![]), msg).unwrap().0
}

fn buy(lottery: &mut Lottery, env: &Env, user: &str, tickets: u64, paid: Vec<Coin>) -> Result<
    cw_lootboxes::Response,
    ContractError,
> {
    execute(lottery, env, &info(user, paid), 0, ExecuteMsg::BuyTicket { num_tickets: tickets })
}

#[test]
fn scenario_one_week_round_settles_exactly() {
    // unit cost 1000 of one denom, fee 500 bips (5%), duration one week.
    let mut lottery = open_lottery(1_000, 500);
    let env = mock_env();

    // Player A buys one ticket, paying 1000.
    buy(&mut lottery, &env, "playerA", 1, vec![coin(1_000, DENOM)]).unwrap();

    // Player B would buy nine tickets paying 9000, but the week has passed:
    // the call flips the phase to CHOOSING and credits nothing.
    let env = later(&env, WEEK + 1);
    buy(&mut lottery, &env, "playerB", 9, vec![coin(9_000, DENOM)]).unwrap();
    assert_eq!(query_ticket_count(&lottery, &env, "playerB".to_string()).tickets, None);

    // The admin draws with seed 12; A holds the only ticket.
    execute(&mut lottery, &env, &info("admin", vec![]), 1_000, ExecuteMsg::ExecuteLottery {
        seed: 12,
    })
    .unwrap();
    let state = query_lottery_state(&lottery, &env);
    assert_eq!(
        state.lotto_state,
        LotteryState::CLOSED { winner: "playerA".to_string(), claimed: false }
    );
    assert_eq!(state.total_tickets, 1);

    // A claims: 950 to A, 50 to the admin, the whole pool exactly once.
    let response = execute(&mut lottery, &env, &info("playerA", vec![]), 1_000, ExecuteMsg::ClaimTokens)
        .unwrap();
    assert_eq!(response.messages.len(), 2);
    match &response.messages[0] {
        BankMsg::Send { to_address, amount } => {
            assert_eq!(to_address, "playerA");
            assert_eq!(amount.as_slice(), &[coin(950, DENOM)]);
        },
    }
    match &response.messages[1] {
        BankMsg::Send { to_address, amount } => {
            assert_eq!(to_address, "admin");
            assert_eq!(amount.as_slice(), &[coin(50, DENOM)]);
        },
    }

    // A second claim is rejected: the pool is paid out exactly once.
    assert_eq!(
        execute(&mut lottery, &env, &info("playerA", vec![]), 0, ExecuteMsg::ClaimTokens)
            .unwrap_err(),
        ContractError::LotteryAlreadyClaimed,
    );
}

#[test]
fn scenario_draw_while_open_fails() {
    let mut lottery = open_lottery(1_000, 500);
    let env = mock_env();
    buy(&mut lottery, &env, "playerA", 1, vec![coin(1_000, DENOM)]).unwrap();

    let before = query_lottery_state(&lottery, &env);
    assert_eq!(
        execute(&mut lottery, &env, &info("admin", vec![]), 1_000, ExecuteMsg::ExecuteLottery {
            seed: 7,
        })
        .unwrap_err(),
        ContractError::LotteryNotExecutable,
    );
    let after = query_lottery_state(&lottery, &env);
    assert_eq!(before, after);
    assert_eq!(query_ticket_count(&lottery, &env, "playerA".to_string()).tickets, Some(1));
}

#[test]
fn scenario_non_admin_draw_fails() {
    let mut lottery = open_lottery(1_000, 500);
    let env = mock_env();
    buy(&mut lottery, &env, "playerA", 1, vec![coin(1_000, DENOM)]).unwrap();
    let env = later(&env, WEEK + 1);
    buy(&mut lottery, &env, "playerB", 1, vec![]).unwrap();
    assert_eq!(query_lottery_state(&lottery, &env).lotto_state, LotteryState::CHOOSING);

    assert_eq!(
        execute(&mut lottery, &env, &info("playerA", vec![]), 1_000, ExecuteMsg::ExecuteLottery {
            seed: 12,
        })
        .unwrap_err(),
        ContractError::Unauthorized,
    );
    assert_eq!(query_lottery_state(&lottery, &env).lotto_state, LotteryState::CHOOSING);
}

#[test]
fn exact_payment_gate_rejects_mismatch() {
    let mut lottery = open_lottery(1_000, 500);
    let env = mock_env();

    // Underpaying and overpaying both fail and credit nothing.
    assert_eq!(
        buy(&mut lottery, &env, "playerA", 1, vec![coin(999, DENOM)]).unwrap_err(),
        ContractError::TicketBuyingIncorrectAmount,
    );
    assert_eq!(
        buy(&mut lottery, &env, "playerA", 2, vec![coin(2_001, DENOM)]).unwrap_err(),
        ContractError::TicketBuyingIncorrectAmount,
    );
    assert_eq!(query_ticket_count(&lottery, &env, "playerA".to_string()).tickets, None);
    assert_eq!(query_lottery_state(&lottery, &env).total_tickets, 0);
}

#[test]
fn malformed_payments_are_rejected() {
    let mut lottery = open_lottery(1_000, 500);
    let env = mock_env();

    assert_eq!(
        buy(&mut lottery, &env, "playerA", 1, vec![]).unwrap_err(),
        ContractError::PaymentError(PaymentError::NoFunds),
    );
    assert_eq!(
        buy(&mut lottery, &env, "playerA", 1, vec![coin(0, DENOM)]).unwrap_err(),
        ContractError::PaymentError(PaymentError::NoFunds),
    );
    assert_eq!(
        buy(&mut lottery, &env, "playerA", 1, vec![coin(500, DENOM), coin(500, DENOM)])
            .unwrap_err(),
        ContractError::PaymentError(PaymentError::MultipleDenoms),
    );
    // The wrong denomination names the one that was asked for.
    assert_eq!(
        buy(&mut lottery, &env, "playerA", 1, vec![coin(1_000, "earth")]).unwrap_err(),
        ContractError::PaymentError(PaymentError::MissingDenom(DENOM.to_string())),
    );
    assert_eq!(query_ticket_count(&lottery, &env, "playerA".to_string()).tickets, None);
}

#[test]
fn ticket_cost_overflow_is_rejected() {
    let mut lottery = open_lottery(u128::MAX, 500);
    let env = mock_env();
    assert_eq!(
        buy(&mut lottery, &env, "playerA", 2, vec![coin(1, DENOM)]).unwrap_err(),
        ContractError::OverFlowError,
    );
}

#[test]
fn claim_before_close_fails() {
    let mut lottery = open_lottery(1_000, 500);
    let env = mock_env();
    assert_eq!(
        execute(&mut lottery, &env, &info("playerA", vec![]), 0, ExecuteMsg::ClaimTokens)
            .unwrap_err(),
        ContractError::LotteryNotClaimable,
    );
}

#[test]
fn draw_with_no_participants_fails() {
    let mut lottery = open_lottery(1_000, 500);
    let env = later(&mock_env(), WEEK + 1);
    buy(&mut lottery, &env, "playerA", 1, vec![]).unwrap();
    assert_eq!(query_lottery_state(&lottery, &env).lotto_state, LotteryState::CHOOSING);
    assert_eq!(
        execute(&mut lottery, &env, &info("admin", vec![]), 0, ExecuteMsg::ExecuteLottery {
            seed: 12,
        })
        .unwrap_err(),
        ContractError::LotteryNoParticipants,
    );
}

#[test]
fn more_tickets_than_pool_units_is_fatal() {
    // With more tickets than pool units, every slice truncates to nothing
    // and the scan finds no owning range.
    let mut lottery = open_lottery(1, 500);
    let env = mock_env();
    buy(&mut lottery, &env, "playerA", 1_000_001, vec![coin(1_000_001, DENOM)]).unwrap();
    let env = later(&env, WEEK + 1);
    buy(&mut lottery, &env, "playerB", 1, vec![]).unwrap();
    assert_eq!(
        execute(&mut lottery, &env, &info("admin", vec![]), 0, ExecuteMsg::ExecuteLottery {
            seed: 12,
        })
        .unwrap_err(),
        ContractError::WinnerNotPossibleToFind,
    );
}

#[test]
fn snapshot_iterates_descending_keys() {
    let mut lottery = open_lottery(1_000, 500);
    let env = mock_env();
    buy(&mut lottery, &env, "creator", 1, vec![coin(1_000, DENOM)]).unwrap();
    buy(&mut lottery, &env, "testUserA", 10, vec![coin(10_000, DENOM)]).unwrap();
    buy(&mut lottery, &env, "testUserB", 10, vec![coin(10_000, DENOM)]).unwrap();

    let snapshot = get_player_ranges(&lottery);
    let names: Vec<(String, u64)> = snapshot;
    assert_eq!(
        names,
        vec![
            ("testUserB".to_string(), 10),
            ("testUserA".to_string(), 10),
            ("creator".to_string(), 1),
        ]
    );
}

#[test]
fn tiling_three_players_is_contiguous_and_truncated() {
    let mut lottery = open_lottery(1_000, 500);
    let env = mock_env();
    buy(&mut lottery, &env, "user1", 1, vec![coin(1_000, DENOM)]).unwrap();
    buy(&mut lottery, &env, "user2", 2, vec![coin(2_000, DENOM)]).unwrap();
    buy(&mut lottery, &env, "user3", 3, vec![coin(3_000, DENOM)]).unwrap();

    // Total 6 tickets: each ticket is worth floor(1000000 / 6) = 166666
    // pool units; ranges tile [0, 999996) in descending key order, and the
    // remaining 4 units stay unassigned.
    let ranges = create_player_ranges(&lottery.players, 6);
    let flat: Vec<(String, u64, u64)> = ranges
        .ranges
        .iter()
        .map(|r| (r.player_addr.clone(), r.start_range, r.end_range))
        .collect();
    assert_eq!(
        flat,
        vec![
            ("user3".to_string(), 0, 499_998),
            ("user2".to_string(), 499_998, 833_330),
            ("user1".to_string(), 833_330, 999_996),
        ]
    );
}

#[test]
fn drawn_index_stays_below_the_ticket_total() {
    // Two players with one ticket each: the drawn index is in [0, 2), so
    // the winner is always the first snapshot entry ("b"), whose range
    // covers the bottom half of the pool. A draw that used the raw seed
    // (600000) as the index would select "a" instead.
    let mut lottery = open_lottery(1_000, 500);
    let env = mock_env();
    buy(&mut lottery, &env, "a", 1, vec![coin(1_000, DENOM)]).unwrap();
    buy(&mut lottery, &env, "b", 1, vec![coin(1_000, DENOM)]).unwrap();
    let env = later(&env, WEEK + 1);
    buy(&mut lottery, &env, "c", 1, vec![]).unwrap();
    execute(&mut lottery, &env, &info("admin", vec![]), 0, ExecuteMsg::ExecuteLottery {
        seed: 600_000,
    })
    .unwrap();
    assert_eq!(
        query_lottery_state(&lottery, &env).lotto_state,
        LotteryState::CLOSED { winner: "b".to_string(), claimed: false }
    );
}

#[test]
fn range_boundaries_are_half_open() {
    // The one documented boundary convention: start <= ticket < end, so a
    // shared boundary value belongs to the following range alone.
    let mut ranges = cw_lootboxes::PlayerRanges::create();
    ranges.create_player_range("first".to_string(), 0, 10);
    ranges.create_player_range("second".to_string(), 10, 20);
    assert_eq!(ranges.select_winner(0), Some("first".to_string()));
    assert_eq!(ranges.select_winner(9), Some("first".to_string()));
    assert_eq!(ranges.select_winner(10), Some("second".to_string()));
    assert_eq!(ranges.select_winner(19), Some("second".to_string()));
    assert_eq!(ranges.select_winner(20), None);
}

#[test]
fn height_based_expiration() {
    let msg = InstantiateMsg {
        ticket_cost: coin(1_000, DENOM),
        lottery_duration: Duration::Height(100),
        admin: "admin".to_string(),
        house_fee: 500,
    };
    let env = mock_env();
    let mut lottery = instantiate(&env, &info("admin", vec![]), msg).unwrap().0;

    // One block before the deadline the window is still open.
    let near = Env {
        block: BlockInfo { height: env.block.height + 99, time: env.block.time },
    };
    buy(&mut lottery, &near, "playerA", 1, vec![coin(1_000, DENOM)]).unwrap();
    assert_eq!(query_ticket_count(&lottery, &near, "playerA".to_string()).tickets, Some(1));

    // At the deadline height the next call closes the window.
    let at = Env {
        block: BlockInfo { height: env.block.height + 100, time: env.block.time },
    };
    buy(&mut lottery, &at, "playerB", 1, vec![coin(1_000, DENOM)]).unwrap();
    assert_eq!(query_lottery_state(&lottery, &at).lotto_state, LotteryState::CHOOSING);
    assert_eq!(query_ticket_count(&lottery, &at, "playerB".to_string()).tickets, None);
}

#[test]
fn fee_truncates_toward_zero() {
    let mut lottery = open_lottery(1_000, 500);
    let env = mock_env();
    buy(&mut lottery, &env, "playerA", 1, vec![coin(1_000, DENOM)]).unwrap();
    let env = later(&env, WEEK + 1);
    buy(&mut lottery, &env, "playerB", 1, vec![]).unwrap();
    execute(&mut lottery, &env, &info("admin", vec![]), 0, ExecuteMsg::ExecuteLottery {
        seed: 3,
    })
    .unwrap();

    // A pool of 999 at 500 bips: the fee is floor(999 * 500 / 10000) = 49,
    // the payout the remaining 950.
    let response = execute(&mut lottery, &env, &info("playerA", vec![]), 999, ExecuteMsg::ClaimTokens)
        .unwrap();
    match &response.messages[0] {
        BankMsg::Send { to_address, amount } => {
            assert_eq!(to_address, "playerA");
            assert_eq!(amount.as_slice(), &[coin(950, DENOM)]);
        },
    }
    match &response.messages[1] {
        BankMsg::Send { to_address, amount } => {
            assert_eq!(to_address, "admin");
            assert_eq!(amount.as_slice(), &[coin(49, DENOM)]);
        },
    }
}

#[test]
fn house_fee_validation() {
    assert_eq!(validate_house_fee(0), Ok(0));
    assert_eq!(validate_house_fee(4_999), Ok(4_999));
    assert_eq!(validate_house_fee(5_000), Err(ContractError::ContractInstantiationInvalidFee));
    let msg = InstantiateMsg {
        ticket_cost: coin(1_000, DENOM),
        lottery_duration: Duration::Time(WEEK),
        admin: "admin".to_string(),
        house_fee: 5_000,
    };
    assert_eq!(
        instantiate(&mock_env(), &info("admin", vec![]), msg).unwrap_err(),
        ContractError::ContractInstantiationInvalidFee,
    );
    // The fee is rejected before the deadline is ever computed, so even a
    // duration past the end of time reports the fee error.
    let msg = InstantiateMsg {
        ticket_cost: coin(1_000, DENOM),
        lottery_duration: Duration::Time(u64::MAX),
        admin: "admin".to_string(),
        house_fee: 5_000,
    };
    assert_eq!(
        instantiate(&mock_env(), &info("admin", vec![]), msg).unwrap_err(),
        ContractError::ContractInstantiationInvalidFee,
    );
}

#[test]
fn admin_gate() {
    let lottery = open_lottery(1_000, 500);
    assert_eq!(is_admin(&"admin".to_string(), &lottery.config), Ok(()));
    assert_eq!(
        is_admin(&"someone".to_string(), &lottery.config),
        Err(ContractError::Unauthorized)
    );
    let config = query_config(&lottery).config;
    assert_eq!(config.admin, "admin".to_string());
    assert_eq!(config.house_fee, 500);
    assert_eq!(config.ticket_unit_cost, coin(1_000, DENOM));
}
