use cw_lootboxes::execute;
use cw_lootboxes::instantiate;
use cw_lootboxes::query;
use cw_lootboxes::BankMsg;
use cw_lootboxes::BlockInfo;
use cw_lootboxes::Coin;
use cw_lootboxes::ContractError;
use cw_lootboxes::Duration;
use cw_lootboxes::Env;
use cw_lootboxes::ExecuteMsg;
use cw_lootboxes::InstantiateMsg;
use cw_lootboxes::Lottery;
use cw_lootboxes::LotteryState;
use cw_lootboxes::LotteryStateResponse;
use cw_lootboxes::MessageInfo;
use cw_lootboxes::QueryAnswer;
use cw_lootboxes::QueryMsg;
use cw_lootboxes::Response;
use cw_lootboxes::TicketResponse;

const TESTING_NATIVE_DENOM: &str = "ulotto";
const TESTING_TICKET_COST: u128 = 1_000;
const TESTING_1_WEEK_IN_SECONDS: u64 = 604_800;
const TEST_ADMIN: &str = "admin";
const TEST_USER_1: &str = "user1";
const TEST_USER_2: &str = "user2";
const TEST_USER_3: &str = "user3";

fn mock_env() -> Env {
    Env { block: BlockInfo { height: 12_345, time: 1_571_797_419_879_305_533 } }
}

fn expire(env: &Env) -> Env {
    Env {
        block: BlockInfo {
            height: env.block.height,
            time: env.block.time + (TESTING_1_WEEK_IN_SECONDS + 1) * 1_000_000_000,
        },
    }
}

fn coin(amount: u128, denom: &str) -> Coin {
    Coin { denom: denom.to_string(), amount }
}

fn mock_info(sender: &str, funds: Vec<Coin>) -> MessageInfo {
    MessageInfo { sender: sender.to_string(), funds }
}

/// A tiny stand-in for the host's bank: named balances of the native denom.
struct Bank {
    accounts: Vec<(String, u128)>,
}

impl Bank {
    fn balance(&self, who: &str) -> u128 {
        for (name, amount) in &self.accounts {
            if name == who {
                return *amount;
            }
        }
        0
    }

    fn add(&mut self, who: &str, amount: u128) {
        for entry in &mut self.accounts {
            if entry.0 == who {
                entry.1 += amount;
                return;
            }
        }
        self.accounts.push((who.to_string(), amount));
    }

    fn sub(&mut self, who: &str, amount: u128) {
        for entry in &mut self.accounts {
            if entry.0 == who {
                assert!(entry.1 >= amount);
                entry.1 -= amount;
                return;
            }
        }
        panic!("no balance for {}", who);
    }

    /// Moves the attached funds of a purchase into the round's pool.
    fn pay_in(&mut self, from: &str, funds: &[Coin]) {
        for c in funds {
            assert_eq!(c.denom, TESTING_NATIVE_DENOM);
            self.sub(from, c.amount);
            self.add("contract", c.amount);
        }
    }

    /// Executes the transfer orders a claim handed back.
    fn dispatch(&mut self, response: &Response) {
        for msg in &response.messages {
            match msg {
                BankMsg::Send { to_address, amount } => {
                    for c in amount {
                        assert_eq!(c.denom, TESTING_NATIVE_DENOM);
                        self.sub("contract", c.amount);
                        self.add(to_address, c.amount);
                    }
                },
            }
        }
    }
}

fn setup_bank() -> Bank {
    Bank {
        accounts: vec![
            (TEST_ADMIN.to_string(), 10_000),
            (TEST_USER_1.to_string(), 5_000),
            (TEST_USER_2.to_string(), 5_000),
            ("contract".to_string(), 0),
        ],
    }
}

fn setup_lottery() -> Lottery {
    let instantiate_message = InstantiateMsg {
        ticket_cost: coin(TESTING_TICKET_COST, TESTING_NATIVE_DENOM),
        lottery_duration: Duration::Time(TESTING_1_WEEK_IN_SECONDS),
        admin: TEST_ADMIN.to_string(),
        house_fee: 500, // 5%
    };
    let (lottery, _) = instantiate(
        &mock_env(),
        &mock_info(TEST_ADMIN, vec![]),
        instantiate_message,
    )
    .unwrap();
    lottery
}

fn query_state(lottery: &Lottery, env: &Env) -> LotteryStateResponse {
    match query(lottery, env, QueryMsg::LotteryState) {
        QueryAnswer::State(s) => s,
        _ => panic!("wrong query answer"),
    }
}

fn query_tickets(lottery: &Lottery, env: &Env, addr: &str) -> TicketResponse {
    match query(lottery, env, QueryMsg::TicketCount { addr: addr.to_string() }) {
        QueryAnswer::Ticket(t) => t,
        _ => panic!("wrong query answer"),
    }
}

#[test]
fn instantiate_buy_1_ticket_and_execute() {
    let mut bank = setup_bank();
    let mut lottery = setup_lottery();
    let env = mock_env();

    let buy_funds = vec![coin(1_000, TESTING_NATIVE_DENOM)];
    bank.pay_in(TEST_USER_1, &buy_funds);
    execute(
        &mut lottery,
        &env,
        &mock_info(TEST_USER_1, buy_funds),
        bank.balance("contract"),
        ExecuteMsg::BuyTicket { num_tickets: 1 },
    )
    .unwrap();
    // The buyer paid for exactly one ticket.
    assert_eq!(bank.balance(TEST_USER_1), 4_000);

    let env = expire(&env);

    // The first call after the deadline only moves the round to CHOOSING;
    // it does not credit the caller.
    execute(
        &mut lottery,
        &env,
        &mock_info(TEST_USER_2, vec![]),
        bank.balance("contract"),
        ExecuteMsg::BuyTicket { num_tickets: 1 },
    )
    .unwrap();

    assert_eq!(query_tickets(&lottery, &env, TEST_USER_1), TicketResponse { tickets: Some(1) });
    assert_eq!(query_tickets(&lottery, &env, TEST_USER_2), TicketResponse { tickets: None });

    // Once CHOOSING, buying is over.
    let err = execute(
        &mut lottery,
        &env,
        &mock_info(TEST_USER_3, vec![]),
        bank.balance("contract"),
        ExecuteMsg::BuyTicket { num_tickets: 1 },
    )
    .unwrap_err();
    assert_eq!(ContractError::TicketBuyingNotAvailable, err);

    execute(
        &mut lottery,
        &env,
        &mock_info(TEST_ADMIN, vec![]),
        bank.balance("contract"),
        ExecuteMsg::ExecuteLottery { seed: 12 },
    )
    .unwrap();

    assert_eq!(
        query_state(&lottery, &env),
        LotteryStateResponse {
            lotto_state: LotteryState::CLOSED { winner: TEST_USER_1.to_string(), claimed: false },
            total_tickets: 1,
        }
    );

    let claim_response = execute(
        &mut lottery,
        &env,
        &mock_info(TEST_USER_1, vec![]),
        bank.balance("contract"),
        ExecuteMsg::ClaimTokens,
    )
    .unwrap();
    bank.dispatch(&claim_response);

    assert_eq!(
        query_state(&lottery, &env),
        LotteryStateResponse {
            lotto_state: LotteryState::CLOSED { winner: TEST_USER_1.to_string(), claimed: true },
            total_tickets: 1,
        }
    );

    // The pool is flushed out: the winner got it minus the fee, the admin
    // got the fee.
    assert_eq!(bank.balance("contract"), 0);
    assert_eq!(bank.balance(TEST_USER_1), 4_950);
    assert_eq!(bank.balance(TEST_ADMIN), 10_050);
}

#[test]
fn instantiate_buy_with_two_players_ticket_and_execute() {
    let mut bank = setup_bank();
    let mut lottery = setup_lottery();
    let env = mock_env();

    for (user, tickets, paid) in
        [(TEST_USER_1, 1u64, 1_000u128), (TEST_USER_1, 2, 2_000), (TEST_USER_2, 3, 3_000)]
    {
        let funds = vec![coin(paid, TESTING_NATIVE_DENOM)];
        bank.pay_in(user, &funds);
        execute(
            &mut lottery,
            &env,
            &mock_info(user, funds),
            bank.balance("contract"),
            ExecuteMsg::BuyTicket { num_tickets: tickets },
        )
        .unwrap();
    }

    // Both players' balances reflect their purchases.
    assert_eq!(bank.balance(TEST_USER_1), 2_000);
    assert_eq!(bank.balance(TEST_USER_2), 2_000);

    let env = expire(&env);

    // The first call after the deadline moves the round to CHOOSING.
    execute(
        &mut lottery,
        &env,
        &mock_info(TEST_USER_2, vec![]),
        bank.balance("contract"),
        ExecuteMsg::BuyTicket { num_tickets: 1 },
    )
    .unwrap();

    // Users 1 and 2 bought 3 tickets each; user 3 bought none.
    assert_eq!(query_tickets(&lottery, &env, TEST_USER_1), TicketResponse { tickets: Some(3) });
    assert_eq!(query_tickets(&lottery, &env, TEST_USER_2), TicketResponse { tickets: Some(3) });
    assert_eq!(query_tickets(&lottery, &env, TEST_USER_3), TicketResponse { tickets: None });

    assert_eq!(
        execute(
            &mut lottery,
            &env,
            &mock_info(TEST_USER_3, vec![]),
            bank.balance("contract"),
            ExecuteMsg::BuyTicket { num_tickets: 1 },
        )
        .unwrap_err(),
        ContractError::TicketBuyingNotAvailable,
    );

    // Let the admin move the lottery forward.
    execute(
        &mut lottery,
        &env,
        &mock_info(TEST_ADMIN, vec![]),
        bank.balance("contract"),
        ExecuteMsg::ExecuteLottery { seed: 12 },
    )
    .unwrap();

    assert_eq!(
        query_state(&lottery, &env),
        LotteryStateResponse {
            lotto_state: LotteryState::CLOSED { winner: TEST_USER_2.to_string(), claimed: false },
            total_tickets: 6,
        }
    );

    // The loser cannot claim, and the failed claim changes nothing.
    assert_eq!(
        execute(
            &mut lottery,
            &env,
            &mock_info(TEST_USER_1, vec![]),
            bank.balance("contract"),
            ExecuteMsg::ClaimTokens,
        )
        .unwrap_err(),
        ContractError::LotteryNotClaimedByCorrectUser,
    );
    assert_eq!(
        query_state(&lottery, &env),
        LotteryStateResponse {
            lotto_state: LotteryState::CLOSED { winner: TEST_USER_2.to_string(), claimed: false },
            total_tickets: 6,
        }
    );

    let claim_response = execute(
        &mut lottery,
        &env,
        &mock_info(TEST_USER_2, vec![]),
        bank.balance("contract"),
        ExecuteMsg::ClaimTokens,
    )
    .unwrap();
    bank.dispatch(&claim_response);

    assert_eq!(
        query_state(&lottery, &env),
        LotteryStateResponse {
            lotto_state: LotteryState::CLOSED { winner: TEST_USER_2.to_string(), claimed: true },
            total_tickets: 6,
        }
    );

    // The pool was flushed out; the winner got it minus the 5% fee.
    assert_eq!(bank.balance("contract"), 0);
    assert_eq!(bank.balance(TEST_USER_1), 2_000);
    assert_eq!(bank.balance(TEST_USER_2), 7_700);
    assert_eq!(bank.balance(TEST_ADMIN), 10_300);
}
