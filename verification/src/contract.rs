use vstd::prelude::*;

use crate::error::ContractError;
use crate::error::PaymentError;
use crate::expiration::duration_fits;
use crate::expiration::spec_after;
use crate::expiration::spec_is_expired;
use crate::expiration::BlockInfo;
use crate::expiration::Env;
use crate::expiration::Expiration;
use crate::ledger::key_of;
use crate::ledger::lookup_tickets;
use crate::ledger::lemma_sum_prefix_mono;
use crate::ledger::lemma_sum_prefix_nonneg;
use crate::ledger::sum_prefix;
use crate::ledger::sum_tickets;
use crate::ledger::tickets_or_zero;
use crate::ledger::PlayerLedger;
use crate::ledger::PlayerV;
use crate::models::lemma_select_finds;
use crate::models::range_contains;
use crate::models::spec_select;
use crate::models::PlayerRangeV;
use crate::models::PlayerRanges;
use crate::rng::draw_winning_ticket;
use crate::rng::seeded_draw;
use crate::msg::BankMsg;
use crate::msg::BankMsgV;
use crate::msg::ConfigResponse;
use crate::msg::LotteryStateResponse;
use crate::msg::QueryAnswer;
use crate::msg::QueryMsg;
use crate::msg::TicketResponse;
use crate::msg::ExecuteMsg;
use crate::msg::InstantiateMsg;
use crate::msg::MessageInfo;
use crate::msg::Response;
use crate::payment::must_pay;
use crate::payment::spec_must_pay;
use crate::state::phase_leq;
use crate::state::Coin;
use crate::state::CoinV;
use crate::state::Config;
use crate::state::ConfigV;
use crate::state::Lottery;
use crate::state::LotteryState;
use crate::state::LotteryStateV;
use crate::state::LotteryV;
use crate::util::is_admin;
use crate::util::validate_house_fee;

verus! {

/// The outcome of an operation, seen abstractly: the transfers it orders on
/// success, or its error.
pub open spec fn res_view(r: Result<Response, ContractError>) -> Result<
    Seq<BankMsgV>,
    ContractError,
> {
    match r {
        Ok(resp) => Ok(resp@),
        Err(e) => Err(e),
    }
}

/// What a ticket purchase does, for every phase and input: the one relation
/// between the round before the call (`pre`), the round after it (`post`)
/// and the outcome `r`.
///
/// While OPEN and unexpired, a purchase paying exactly
/// `num_tickets * ticket_unit_cost` in one coin of the right denomination
/// credits the buyer and changes nothing else; any other payment is rejected
/// without change. The first purchase attempt after the deadline instead
/// flips the phase to CHOOSING and credits nothing. In any other phase the
/// purchase is rejected.
pub open spec fn buy_transition(
    pre: LotteryV,
    block: BlockInfo,
    sender: Seq<char>,
    funds: Seq<crate::state::CoinV>,
    num_tickets: u64,
    post: LotteryV,
    r: Result<Seq<BankMsgV>, ContractError>,
) -> bool {
    match pre.state {
        LotteryStateV::OPEN { expiration } => {
            if spec_is_expired(expiration, block) {
                &&& post.config == pre.config
                &&& post.players == pre.players
                &&& post.state == LotteryStateV::CHOOSING
                &&& r == Ok::<Seq<BankMsgV>, ContractError>(Seq::empty())
            } else {
                let cost = pre.config.ticket_unit_cost;
                if cost.amount * num_tickets > u128::MAX {
                    post == pre && r == Err::<Seq<BankMsgV>, ContractError>(
                        ContractError::OverFlowError,
                    )
                } else {
                    match spec_must_pay(funds, cost.denom) {
                        Some(amount) => {
                            if amount == cost.amount * num_tickets {
                                if sum_tickets(pre.players) + num_tickets > u64::MAX {
                                    post == pre && r == Err::<Seq<BankMsgV>, ContractError>(
                                        ContractError::OverFlowError,
                                    )
                                } else {
                                    &&& post.config == pre.config
                                    &&& post.state == pre.state
                                    &&& lookup_tickets(post.players, key_of(sender)) == Some(
                                        (tickets_or_zero(pre.players, key_of(sender))
                                            + num_tickets) as u64,
                                    )
                                    &&& forall|k: Seq<u8>|
                                        k != key_of(sender) ==> lookup_tickets(post.players, k)
                                            == lookup_tickets(pre.players, k)
                                    &&& sum_tickets(post.players) == sum_tickets(pre.players)
                                        + num_tickets
                                    &&& r == Ok::<Seq<BankMsgV>, ContractError>(Seq::empty())
                                }
                            } else {
                                post == pre && r == Err::<Seq<BankMsgV>, ContractError>(
                                    ContractError::TicketBuyingIncorrectAmount,
                                )
                            }
                        },
                        None => {
                            &&& post == pre
                            &&& (funds.len() == 0 ==> r == Err::<Seq<BankMsgV>, ContractError>(
                                ContractError::PaymentError(PaymentError::NoFunds),
                            ))
                            &&& (funds.len() == 1 && funds[0].amount == 0 ==> r == Err::<
                                Seq<BankMsgV>,
                                ContractError,
                            >(ContractError::PaymentError(PaymentError::NoFunds)))
                            &&& (funds.len() > 1 ==> r == Err::<Seq<BankMsgV>, ContractError>(
                                ContractError::PaymentError(PaymentError::MultipleDenoms),
                            ))
                            &&& (funds.len() == 1 && funds[0].amount > 0 && funds[0].denom
                                != cost.denom ==> (r matches Err(ContractError::PaymentError(
                                PaymentError::MissingDenom(d),
                            )) && d@ == cost.denom))
                        },
                    }
                }
            }
        },
        _ => post == pre && r == Err::<Seq<BankMsgV>, ContractError>(
            ContractError::TicketBuyingNotAvailable,
        ),
    }
}

/// Creates a fresh round: phase OPEN until `lottery_duration` from the
/// current block, an empty Player Ledger, and the given configuration. The
/// one rejected input is a house fee at or above the ceiling.
pub fn instantiate(env: &Env, _info: &MessageInfo, msg: InstantiateMsg) -> (r: Result<
    (Lottery, Response),
    ContractError,
>)
    requires
        msg.house_fee < crate::constants::MAX_HOUSE_FEE ==> duration_fits(
            msg.lottery_duration,
            env.block,
        ),
    ensures
        msg.house_fee >= crate::constants::MAX_HOUSE_FEE <==> (r matches Err(e) && e
            == ContractError::ContractInstantiationInvalidFee),
        msg.house_fee < crate::constants::MAX_HOUSE_FEE <==> r is Ok,
        r matches Ok(p) ==> {
            &&& p.0.wf()
            &&& p.0@.config.admin == msg.admin@
            &&& p.0@.config.house_fee == msg.house_fee
            &&& p.0@.config.ticket_unit_cost == msg.ticket_cost@
            &&& p.0@.state == (LotteryStateV::OPEN {
                expiration: spec_after(msg.lottery_duration, env.block),
            })
            &&& p.0@.players.len() == 0
            &&& p.1@.len() == 0
        },
{
    let house_fee = match validate_house_fee(msg.house_fee) {
        Ok(fee) => fee,
        Err(e) => {
            return Err(e);
        },
    };
    let config = Config {
        admin: msg.admin,
        house_fee,
        ticket_unit_cost: msg.ticket_cost,
    };
    let state = LotteryState::OPEN { expiration: msg.lottery_duration.after(&env.block) };
    let lottery = Lottery { config, state, players: PlayerLedger::new() };
    Ok((lottery, Response::new()))
}

/// Credits freshly bought tickets to the sender's ledger entry, creating it
/// on a first purchase; an overflow of the round's ticket total is reported
/// without any change.
fn update_player(players: &mut PlayerLedger, info: &MessageInfo, bought_tickets: u64) -> (r:
    Result<(), ContractError>)
    requires
        old(players).wf(),
    ensures
        final(players).wf(),
        sum_tickets(old(players)@) + bought_tickets <= u64::MAX ==> {
            &&& r == Ok::<(), ContractError>(())
            &&& lookup_tickets(final(players)@, key_of(info@.sender)) == Some(
                (tickets_or_zero(old(players)@, key_of(info@.sender)) + bought_tickets) as u64,
            )
            &&& forall|k: Seq<u8>|
                k != key_of(info@.sender) ==> lookup_tickets(final(players)@, k) == lookup_tickets(
                    old(players)@,
                    k,
                )
            &&& sum_tickets(final(players)@) == sum_tickets(old(players)@) + bought_tickets
        },
        sum_tickets(old(players)@) + bought_tickets > u64::MAX ==> r == Err::<(), ContractError>(
            ContractError::OverFlowError,
        ) && final(players)@ == old(players)@ && final(players).total == old(players).total,
{
    match players.credit(&info.sender, bought_tickets) {
        Ok(u) => Ok(u),
        Err(_) => Err(ContractError::OverFlowError),
    }
}

/// A purchase while the phase is OPEN: checks the deadline, then the
/// payment, and either credits the buyer or—once expired—closes the window.
fn handle_open_lottery(
    lottery: &mut Lottery,
    env: &Env,
    info: &MessageInfo,
    bought_tickets: u64,
    expiration: Expiration,
) -> (r: Result<Response, ContractError>)
    requires
        old(lottery).wf(),
        old(lottery)@.state == (LotteryStateV::OPEN { expiration }),
    ensures
        final(lottery).wf(),
        buy_transition(
            old(lottery)@,
            env.block,
            info@.sender,
            info@.funds,
            bought_tickets,
            final(lottery)@,
            res_view(r),
        ),
{
    if !expiration.is_expired(&env.block) {
        let ticket_cost = lottery.config.ticket_unit_cost.amount;
        let total_cost = match ticket_cost.checked_mul(bought_tickets as u128) {
            Some(c) => c,
            None => {
                return Err(ContractError::OverFlowError);
            },
        };
        let amount_received = match must_pay(info, lottery.config.ticket_unit_cost.denom.as_str())
            {
            Ok(a) => a,
            Err(pe) => {
                return Err(ContractError::PaymentError(pe));
            },
        };
        if amount_received == total_cost {
            match update_player(&mut lottery.players, info, bought_tickets) {
                Ok(_) => Ok(Response::new()),
                Err(e) => Err(e),
            }
        } else {
            Err(ContractError::TicketBuyingIncorrectAmount)
        }
    } else {
        // The deadline has passed: this call closes the window instead of
        // buying anything.
        lottery.state = LotteryState::CHOOSING;
        Ok(Response::new())
    }
}

/// A purchase in any phase: only an OPEN round accepts it.
pub fn execute_buy_ticket(
    lottery: &mut Lottery,
    env: &Env,
    info: &MessageInfo,
    bought_tickets: u64,
) -> (r: Result<Response, ContractError>)
    requires
        old(lottery).wf(),
    ensures
        final(lottery).wf(),
        buy_transition(
            old(lottery)@,
            env.block,
            info@.sender,
            info@.funds,
            bought_tickets,
            final(lottery)@,
            res_view(r),
        ),
{
    let open_expiration: Option<Expiration> = match &lottery.state {
        LotteryState::OPEN { expiration } => Some(*expiration),
        LotteryState::CHOOSING => None,
        LotteryState::CLOSED { .. } => None,
    };
    match open_expiration {
        Some(expiration) => handle_open_lottery(lottery, env, info, bought_tickets, expiration),
        None => Err(ContractError::TicketBuyingNotAvailable),
    }
}

/// How many pool units one ticket is worth: the pool size divided (with
/// truncation) by the round's total ticket count.
pub open spec fn slice_unit(total: u64) -> int {
    crate::constants::TOTAL_POOL_SIZE as int / total as int
}

/// The tiling of the pool for a snapshot holding `total` tickets in all:
/// one contiguous half-open range per player, in snapshot order, of
/// `slice_unit(total)` pool units per ticket held. Truncation can leave a
/// tail of the pool unassigned; it is deliberately not redistributed.
pub open spec fn spec_ranges(players: Seq<PlayerV>, total: u64) -> Seq<PlayerRangeV> {
    Seq::new(
        players.len(),
        |i: int|
            PlayerRangeV {
                player_addr: players[i].addr,
                start_range: (slice_unit(total) * sum_prefix(players, i)) as u64,
                end_range: (slice_unit(total) * sum_prefix(players, i + 1)) as u64,
            },
    )
}

/// What the draw does, for every phase, caller and seed: only the admin may
/// draw, only while CHOOSING, and only with at least one ticket sold. The
/// winner is the player whose range contains the seeded draw from
/// `[0, total)`; a draw no range contains is the fatal tiling-violation
/// case. On success the round closes with the winner recorded, unclaimed.
pub open spec fn draw_transition(
    pre: LotteryV,
    sender: Seq<char>,
    seed: u64,
    post: LotteryV,
    r: Result<Seq<BankMsgV>, ContractError>,
) -> bool {
    match pre.state {
        LotteryStateV::CHOOSING => {
            if sender != pre.config.admin {
                post == pre && r == Err::<Seq<BankMsgV>, ContractError>(ContractError::Unauthorized)
            } else {
                let total = sum_tickets(pre.players);
                if total == 0 {
                    post == pre && r == Err::<Seq<BankMsgV>, ContractError>(
                        ContractError::LotteryNoParticipants,
                    )
                } else {
                    &&& seeded_draw(seed, total as u64) < total
                    &&& match spec_select(
                        spec_ranges(pre.players, total as u64),
                        seeded_draw(seed, total as u64),
                    ) {
                        Some(w) => {
                            &&& post.config == pre.config
                            &&& post.players == pre.players
                            &&& post.state == (LotteryStateV::CLOSED { winner: w, claimed: false })
                            &&& r == Ok::<Seq<BankMsgV>, ContractError>(Seq::empty())
                        },
                        None => post == pre && r == Err::<Seq<BankMsgV>, ContractError>(
                            ContractError::WinnerNotPossibleToFind,
                        ),
                    }
                }
            }
        },
        _ => post == pre && r == Err::<Seq<BankMsgV>, ContractError>(
            ContractError::LotteryNotExecutable,
        ),
    }
}

/// Sums the snapshot's ticket counts, as the draw sees them.
fn get_num_tickets(players: &PlayerLedger) -> (r: u64)
    requires
        players.wf(),
    ensures
        r == sum_tickets(players@),
{
    let mut total_num_tickets: u64 = 0;
    let mut i: usize = 0;
    while i < players.entries.len()
        invariant
            players.wf(),
            i <= players@.len(),
            players@.len() == players.entries@.len(),
            total_num_tickets == sum_prefix(players@, i as int),
        decreases players.entries@.len() - i,
    {
        proof {
            lemma_sum_prefix_mono(players@, i as int + 1, players@.len() as int);
        }
        total_num_tickets = total_num_tickets + players.entries[i].info.tickets;
        i = i + 1;
    }
    total_num_tickets
}

/// Builds the pool tiling for one draw: walks the snapshot in order,
/// assigning each player a contiguous range of `slice_unit(total)` pool
/// units per ticket, starting where the previous range ended.
pub fn create_player_ranges(players: &PlayerLedger, total_tickets: u64) -> (r: PlayerRanges)
    requires
        players.wf(),
        total_tickets == sum_tickets(players@),
        total_tickets >= 1,
    ensures
        r@ == spec_ranges(players@, total_tickets),
{
    let number_per_ticket = crate::constants::TOTAL_POOL_SIZE / total_tickets;
    proof {
        vstd::arithmetic::div_mod::lemma_fundamental_div_mod(
            crate::constants::TOTAL_POOL_SIZE as int,
            total_tickets as int,
        );
        vstd::arithmetic::div_mod::lemma_mod_division_less_than_divisor(
            crate::constants::TOTAL_POOL_SIZE as int,
            total_tickets as int,
        );
        vstd::arithmetic::div_mod::lemma_div_pos_is_pos(
            crate::constants::TOTAL_POOL_SIZE as int,
            total_tickets as int,
        );
        vstd::arithmetic::mul::lemma_mul_is_commutative(
            total_tickets as int,
            slice_unit(total_tickets),
        );
        assert(slice_unit(total_tickets) * total_tickets as int
            <= crate::constants::TOTAL_POOL_SIZE as int);
    }
    let mut player_ranges = PlayerRanges::create();
    let mut current_index: u64 = 0;
    let mut i: usize = 0;
    while i < players.entries.len()
        invariant
            players.wf(),
            total_tickets == sum_tickets(players@),
            total_tickets >= 1,
            number_per_ticket == slice_unit(total_tickets),
            slice_unit(total_tickets) * total_tickets as int
                <= crate::constants::TOTAL_POOL_SIZE as int,
            i <= players@.len(),
            players@.len() == players.entries@.len(),
            current_index == slice_unit(total_tickets) * sum_prefix(players@, i as int),
            slice_unit(total_tickets) >= 0,
            player_ranges@ == spec_ranges(players@, total_tickets).take(i as int),
        decreases players.entries@.len() - i,
    {
        let num_tickets = players.entries[i].info.tickets;
        proof {
            let q = slice_unit(total_tickets);
            let p0 = sum_prefix(players@, i as int);
            let p1 = sum_prefix(players@, i as int + 1);
            lemma_sum_prefix_nonneg(players@, i as int);
            lemma_sum_prefix_mono(players@, i as int + 1, players@.len() as int);
            vstd::arithmetic::mul::lemma_mul_inequality(p1, total_tickets as int, q);
            vstd::arithmetic::mul::lemma_mul_is_commutative(p1, q);
            vstd::arithmetic::mul::lemma_mul_is_commutative(total_tickets as int, q);
            vstd::arithmetic::mul::lemma_mul_is_distributive_add(q, p0, num_tickets as int);
            vstd::arithmetic::mul::lemma_mul_nonnegative(q, p0);
            vstd::arithmetic::mul::lemma_mul_nonnegative(q, num_tickets as int);
            assert(q * num_tickets as int <= crate::constants::TOTAL_POOL_SIZE as int);
        }
        let number_of_tickets_to_ration = number_per_ticket * num_tickets;
        player_ranges.create_player_range(
            players.entries[i].addr.clone(),
            current_index,
            current_index + number_of_tickets_to_ration,
        );
        current_index = current_index + number_of_tickets_to_ration;
        i = i + 1;
        proof {
            assert(player_ranges@ =~= spec_ranges(players@, total_tickets).take(i as int));
        }
    }
    proof {
        assert(player_ranges@ =~= spec_ranges(players@, total_tickets));
    }
    player_ranges
}

/// Any prefix of the tiling stays within the tiled span, which stays within
/// the pool.
proof fn lemma_unit_prefix_bounds(players: Seq<PlayerV>, total: u64, i: int)
    requires
        total == sum_tickets(players),
        total >= 1,
        0 <= i <= players.len(),
    ensures
        0 <= slice_unit(total) * sum_prefix(players, i),
        slice_unit(total) * sum_prefix(players, i) <= slice_unit(total) * (total as int),
        slice_unit(total) * (total as int) <= crate::constants::TOTAL_POOL_SIZE as int,
        slice_unit(total) >= 0,
{
    let q = slice_unit(total);
    vstd::arithmetic::div_mod::lemma_fundamental_div_mod(
        crate::constants::TOTAL_POOL_SIZE as int,
        total as int,
    );
    vstd::arithmetic::div_mod::lemma_mod_division_less_than_divisor(
        crate::constants::TOTAL_POOL_SIZE as int,
        total as int,
    );
    vstd::arithmetic::div_mod::lemma_div_pos_is_pos(
        crate::constants::TOTAL_POOL_SIZE as int,
        total as int,
    );
    vstd::arithmetic::mul::lemma_mul_is_commutative(total as int, q);
    lemma_sum_prefix_nonneg(players, i);
    lemma_sum_prefix_mono(players, i, players.len() as int);
    vstd::arithmetic::mul::lemma_mul_inequality(sum_prefix(players, i), total as int, q);
    vstd::arithmetic::mul::lemma_mul_is_commutative(sum_prefix(players, i), q);
    vstd::arithmetic::mul::lemma_mul_nonnegative(q, sum_prefix(players, i));
}

/// Tiling exactness: for a fixed snapshot and its ticket total, the
/// computed ranges are contiguous from 0 — each range begins where the
/// previous one ended — pairwise disjoint, and collectively cover exactly
/// `[0, slice_unit(total) * total)`, which never exceeds the pool size. The
/// truncation gap at the top of the pool is left unassigned.
pub proof fn lemma_tiling_exact(players: Seq<PlayerV>, total: u64)
    requires
        total == sum_tickets(players),
        total >= 1,
    ensures
        spec_ranges(players, total).len() == players.len(),
        slice_unit(total) * (total as int) <= crate::constants::TOTAL_POOL_SIZE as int,
        players.len() > 0 ==> spec_ranges(players, total)[0].start_range == 0,
        players.len() > 0 ==> spec_ranges(players, total)[players.len() - 1].end_range
            == slice_unit(total) * (total as int),
        forall|i: int|
            0 <= i < players.len() ==> (#[trigger] spec_ranges(players, total)[i]).start_range
                <= spec_ranges(players, total)[i].end_range,
        forall|i: int|
            0 <= i < players.len() - 1 ==> (#[trigger] spec_ranges(players, total)[i]).end_range
                == spec_ranges(players, total)[i + 1].start_range,
        forall|i: int, j: int|
            0 <= i < j < players.len() ==> (#[trigger] spec_ranges(players, total)[i]).end_range
                <= (#[trigger] spec_ranges(players, total)[j]).start_range,
{
    let q = slice_unit(total);
    let rs = spec_ranges(players, total);
    lemma_unit_prefix_bounds(players, total, 0);
    assert forall|i: int, j: int| 0 <= i <= j <= players.len() implies q * sum_prefix(players, i)
        <= q * sum_prefix(players, j) by {
        lemma_unit_prefix_bounds(players, total, i);
        lemma_unit_prefix_bounds(players, total, j);
        lemma_sum_prefix_mono(players, i, j);
        vstd::arithmetic::mul::lemma_mul_inequality(
            sum_prefix(players, i),
            sum_prefix(players, j),
            q,
        );
        vstd::arithmetic::mul::lemma_mul_is_commutative(sum_prefix(players, i), q);
        vstd::arithmetic::mul::lemma_mul_is_commutative(sum_prefix(players, j), q);
    }
    assert forall|i: int| 0 <= i < players.len() implies (#[trigger] rs[i]).start_range
        <= rs[i].end_range by {
        lemma_unit_prefix_bounds(players, total, i);
        lemma_unit_prefix_bounds(players, total, i + 1);
    }
    assert forall|i: int| 0 <= i < players.len() - 1 implies (#[trigger] rs[i]).end_range == rs[i
        + 1].start_range by {
        lemma_unit_prefix_bounds(players, total, i + 1);
    }
    assert forall|i: int, j: int| 0 <= i < j < players.len() implies (#[trigger] rs[i]).end_range
        <= (#[trigger] rs[j]).start_range by {
        lemma_unit_prefix_bounds(players, total, i + 1);
        lemma_unit_prefix_bounds(players, total, j);
    }
    if players.len() > 0 {
        vstd::arithmetic::mul::lemma_mul_basics(q);
        lemma_unit_prefix_bounds(players, total, players.len() as int);
    }
}

/// Every index below the ticket total falls inside one of the first `k`
/// ranges, provided it lies under the span they tile.
proof fn lemma_covers_rec(players: Seq<PlayerV>, total: u64, ticket: u64, k: int)
    requires
        total == sum_tickets(players),
        total >= 1,
        0 <= k <= players.len(),
        ticket < slice_unit(total) * sum_prefix(players, k),
    ensures
        exists|i: int|
            0 <= i < k && range_contains(#[trigger] spec_ranges(players, total)[i], ticket),
    decreases k,
{
    let q = slice_unit(total);
    lemma_unit_prefix_bounds(players, total, 0);
    vstd::arithmetic::mul::lemma_mul_basics(q);
    if k == 0 {
        assert(false);
    } else {
        lemma_unit_prefix_bounds(players, total, k - 1);
        lemma_unit_prefix_bounds(players, total, k);
        if ticket >= q * sum_prefix(players, k - 1) {
            assert(range_contains(spec_ranges(players, total)[k - 1], ticket));
        } else {
            lemma_covers_rec(players, total, ticket, k - 1);
        }
    }
}

/// The defensive "winner not found" case cannot arise from a real draw:
/// whenever the ticket total fits in the pool, the index drawn from
/// `[0, total)` lies in exactly one player's range, and the scan finds it.
pub proof fn lemma_draw_finds_winner(players: Seq<PlayerV>, total: u64, ticket: u64)
    requires
        total == sum_tickets(players),
        1 <= total <= crate::constants::TOTAL_POOL_SIZE,
        ticket < total,
    ensures
        spec_select(spec_ranges(players, total), ticket) is Some,
{
    let q = slice_unit(total);
    vstd::arithmetic::div_mod::lemma_div_non_zero(
        crate::constants::TOTAL_POOL_SIZE as int,
        total as int,
    );
    vstd::arithmetic::mul::lemma_mul_inequality(1, q, total as int);
    vstd::arithmetic::mul::lemma_mul_is_commutative(q, total as int);
    vstd::arithmetic::mul::lemma_mul_basics(total as int);
    assert(total as int <= q * (total as int));
    assert(sum_prefix(players, players.len() as int) == total);
    lemma_covers_rec(players, total, ticket, players.len() as int);
    lemma_select_finds(spec_ranges(players, total), ticket);
}

/// Runs one draw over the current ledger: sums the tickets, draws a seeded
/// index from `[0, total)`, tiles the pool, and scans for the owning range.
pub fn choose_winner(players: &PlayerLedger, seed: u64) -> (r: Result<String, ContractError>)
    requires
        players.wf(),
    ensures
        sum_tickets(players@) == 0 ==> r == Err::<String, ContractError>(
            ContractError::LotteryNoParticipants,
        ),
        sum_tickets(players@) > 0 ==> seeded_draw(seed, sum_tickets(players@) as u64)
            < sum_tickets(players@),
        sum_tickets(players@) > 0 ==> match spec_select(
            spec_ranges(players@, sum_tickets(players@) as u64),
            seeded_draw(seed, sum_tickets(players@) as u64),
        ) {
            Some(w) => r matches Ok(x) && x@ == w,
            None => r == Err::<String, ContractError>(ContractError::WinnerNotPossibleToFind),
        },
        1 <= sum_tickets(players@) <= crate::constants::TOTAL_POOL_SIZE ==> r is Ok,
{
    let total_tickets = get_num_tickets(players);
    if total_tickets == 0 {
        return Err(ContractError::LotteryNoParticipants);
    }
    let winner_ticket = draw_winning_ticket(seed, total_tickets);
    let player_ranges = create_player_ranges(players, total_tickets);
    proof {
        if total_tickets <= crate::constants::TOTAL_POOL_SIZE {
            lemma_draw_finds_winner(players@, total_tickets, winner_ticket);
        }
    }
    match player_ranges.select_winner(winner_ticket) {
        Some(winner) => Ok(winner),
        None => Err(ContractError::WinnerNotPossibleToFind),
    }
}

/// The draw operation: gated on the CHOOSING phase and the admin; a
/// successful draw records the winner and closes the round.
pub fn execute_lottery(
    lottery: &mut Lottery,
    _env: &Env,
    info: &MessageInfo,
    seed: u64,
) -> (r: Result<Response, ContractError>)
    requires
        old(lottery).wf(),
    ensures
        final(lottery).wf(),
        draw_transition(old(lottery)@, info@.sender, seed, final(lottery)@, res_view(r)),
        old(lottery)@.state is CHOOSING && info@.sender == old(lottery)@.config.admin && 1
            <= sum_tickets(old(lottery)@.players) <= crate::constants::TOTAL_POOL_SIZE ==> r is Ok,
{
    let is_choosing = match &lottery.state {
        LotteryState::CHOOSING => true,
        LotteryState::OPEN { .. } => false,
        LotteryState::CLOSED { .. } => false,
    };
    if !is_choosing {
        return Err(ContractError::LotteryNotExecutable);
    }
    match is_admin(&info.sender, &lottery.config) {
        Ok(_) => {},
        Err(e) => {
            return Err(e);
        },
    }
    match choose_winner(&lottery.players, seed) {
        Ok(winner) => {
            lottery.state = LotteryState::CLOSED { winner, claimed: false };
            Ok(Response::new())
        },
        Err(e) => Err(e),
    }
}

/// The house fee kept from a pool balance: basis points applied with
/// integer truncation toward zero.
pub open spec fn spec_fee(balance: u128, bips: u64) -> int {
    (balance * bips) / 10000
}

/// The two transfers of a successful claim: first the payout to the winner,
/// then the fee to the admin, together exactly the pool balance.
pub open spec fn claim_transfers(config: ConfigV, winner: Seq<char>, balance: u128) -> Seq<
    BankMsgV,
> {
    let fee = spec_fee(balance, config.house_fee);
    seq![
        BankMsgV {
            to_address: winner,
            amount: seq![
                CoinV { denom: config.ticket_unit_cost.denom, amount: (balance - fee) as u128 },
            ],
        },
        BankMsgV {
            to_address: config.admin,
            amount: seq![CoinV { denom: config.ticket_unit_cost.denom, amount: fee as u128 }],
        },
    ]
}

/// What a claim does, for every phase and caller: only the recorded winner,
/// only while CLOSED, and only once. The single successful claim flips
/// `claimed` and orders the two settlement transfers over the pool balance
/// the host reports.
pub open spec fn claim_transition(
    pre: LotteryV,
    sender: Seq<char>,
    pool_balance: u128,
    post: LotteryV,
    r: Result<Seq<BankMsgV>, ContractError>,
) -> bool {
    match pre.state {
        LotteryStateV::CLOSED { winner, claimed } => {
            if claimed {
                post == pre && r == Err::<Seq<BankMsgV>, ContractError>(
                    ContractError::LotteryAlreadyClaimed,
                )
            } else if sender != winner {
                post == pre && r == Err::<Seq<BankMsgV>, ContractError>(
                    ContractError::LotteryNotClaimedByCorrectUser,
                )
            } else {
                &&& post.config == pre.config
                &&& post.players == pre.players
                &&& post.state == (LotteryStateV::CLOSED { winner, claimed: true })
                &&& r == Ok::<Seq<BankMsgV>, ContractError>(
                    claim_transfers(pre.config, winner, pool_balance),
                )
            }
        },
        _ => post == pre && r == Err::<Seq<BankMsgV>, ContractError>(
            ContractError::LotteryNotClaimable,
        ),
    }
}

/// Single claim: the winner's claim succeeds at most once. After a
/// successful claim the round is CLOSED-claimed, so any further claim, by
/// anyone and at any reported balance, fails as already claimed and changes
/// nothing; and the one successful claim transfers the payout and the fee,
/// together exactly the pre-claim balance.
pub proof fn lemma_single_claim(
    pre: LotteryV,
    sender: Seq<char>,
    balance: u128,
    mid: LotteryV,
    r1: Result<Seq<BankMsgV>, ContractError>,
    sender2: Seq<char>,
    balance2: u128,
    post: LotteryV,
    r2: Result<Seq<BankMsgV>, ContractError>,
)
    requires
        pre.config.house_fee < crate::constants::MAX_HOUSE_FEE,
        claim_transition(pre, sender, balance, mid, r1),
        r1 is Ok,
        claim_transition(mid, sender2, balance2, post, r2),
    ensures
        r2 == Err::<Seq<BankMsgV>, ContractError>(ContractError::LotteryAlreadyClaimed),
        post == mid,
        r1 matches Ok(msgs) && msgs[0].amount[0].amount + msgs[1].amount[0].amount == balance,
{
    let b = balance as int;
    let f = pre.config.house_fee as int;
    vstd::arithmetic::mul::lemma_mul_inequality(f, 10000, b);
    vstd::arithmetic::mul::lemma_mul_is_commutative(f, b);
    vstd::arithmetic::mul::lemma_mul_is_commutative(b, 10000);
    vstd::arithmetic::div_mod::lemma_div_is_ordered(b * f, 10000 * b, 10000);
    vstd::arithmetic::div_mod::lemma_div_multiples_vanish(b, 10000);
    vstd::arithmetic::mul::lemma_mul_nonnegative(b, f);
    vstd::arithmetic::div_mod::lemma_div_pos_is_pos(b * f, 10000);
    assert(0 <= spec_fee(balance, pre.config.house_fee) <= balance);
}

/// Settles a CLOSED round: the winner's single claim flips `claimed` and
/// pays out the pool balance minus the house fee, the fee going to the
/// admin; every other caller or a second claim is rejected unchanged.
fn handle_lottery_claim(
    lottery: &mut Lottery,
    _env: &Env,
    info: &MessageInfo,
    pool_balance: u128,
    winner: String,
    claimed: bool,
) -> (r: Result<Response, ContractError>)
    requires
        old(lottery).wf(),
        old(lottery)@.state == (LotteryStateV::CLOSED { winner: winner@, claimed }),
    ensures
        final(lottery).wf(),
        claim_transition(old(lottery)@, info@.sender, pool_balance, final(lottery)@, res_view(r)),
{
    if !claimed {
        if info.sender == winner {
            lottery.state = LotteryState::CLOSED { winner, claimed: true };
            let house_fee = lottery.config.house_fee;
            proof {
                let b = pool_balance as int;
                let f = house_fee as int;
                let q = b / 10000;
                let rm = b % 10000;
                vstd::arithmetic::div_mod::lemma_fundamental_div_mod(b, 10000);
                vstd::arithmetic::div_mod::lemma_mod_division_less_than_divisor(b, 10000);
                vstd::arithmetic::div_mod::lemma_div_pos_is_pos(b, 10000);
                // The nested form `q*f + (rm*f)/10000` equals the direct
                // `(b*f)/10000`.
                vstd::arithmetic::div_mod::lemma_hoist_over_denominator(rm * f, q * f, 10000nat);
                vstd::arithmetic::mul::lemma_mul_is_distributive_add_other_way(f, 10000 * q, rm);
                vstd::arithmetic::mul::lemma_mul_is_associative(10000, q, f);
                vstd::arithmetic::mul::lemma_mul_is_commutative(10000, q * f);
                assert(q * f + (rm * f) / 10000 == (b * f) / 10000);
                // Bounds: each part and the fee itself stay within the pool.
                vstd::arithmetic::mul::lemma_mul_inequality(f, 10000, q);
                vstd::arithmetic::mul::lemma_mul_is_commutative(f, q);
                assert(q * f <= 10000 * q);
                vstd::arithmetic::mul::lemma_mul_inequality(rm, 9999, f);
                vstd::arithmetic::mul::lemma_mul_is_commutative(rm, f);
                vstd::arithmetic::mul::lemma_mul_inequality(f, 4999, 9999);
                vstd::arithmetic::mul::lemma_mul_is_commutative(f, 9999);
                vstd::arithmetic::mul::lemma_mul_nonnegative(rm, f);
                vstd::arithmetic::div_mod::lemma_div_pos_is_pos(rm * f, 10000);
                vstd::arithmetic::div_mod::lemma_div_is_ordered(rm * f, 9999int * 4999int, 10000);
                assert(spec_fee(pool_balance, house_fee) <= pool_balance) by {
                    vstd::arithmetic::mul::lemma_mul_inequality(f, 10000, b);
                    vstd::arithmetic::mul::lemma_mul_is_commutative(f, b);
                    vstd::arithmetic::mul::lemma_mul_is_commutative(b, 10000);
                    vstd::arithmetic::div_mod::lemma_div_is_ordered(b * f, 10000 * b, 10000);
                    vstd::arithmetic::div_mod::lemma_div_multiples_vanish(b, 10000);
                }
            }
            let amount_to_pay_in_fees = (pool_balance / 10000) * (house_fee as u128) + ((
            pool_balance % 10000) * (house_fee as u128)) / 10000;
            let amount_to_pay_out_to_winner = pool_balance - amount_to_pay_in_fees;
            let denom = lottery.config.ticket_unit_cost.denom.clone();
            let mut winner_coins: Vec<Coin> = Vec::new();
            winner_coins.push(Coin { denom, amount: amount_to_pay_out_to_winner });
            let denom_again = lottery.config.ticket_unit_cost.denom.clone();
            let mut fee_coins: Vec<Coin> = Vec::new();
            fee_coins.push(Coin { denom: denom_again, amount: amount_to_pay_in_fees });
            let mut messages: Vec<BankMsg> = Vec::new();
            messages.push(
                BankMsg::Send { to_address: info.sender.clone(), amount: winner_coins },
            );
            messages.push(BankMsg::Send { to_address: lottery.config.admin.clone(), amount: fee_coins });
            let response = Response { messages };
            proof {
                assert(response@ =~~= claim_transfers(
                    old(lottery)@.config,
                    old(lottery)@.state->CLOSED_winner,
                    pool_balance,
                ));
            }
            Ok(response)
        } else {
            Err(ContractError::LotteryNotClaimedByCorrectUser)
        }
    } else {
        Err(ContractError::LotteryAlreadyClaimed)
    }
}

/// A claim in any phase: only a CLOSED round accepts it.
pub fn execute_claim(
    lottery: &mut Lottery,
    env: &Env,
    info: &MessageInfo,
    pool_balance: u128,
) -> (r: Result<Response, ContractError>)
    requires
        old(lottery).wf(),
    ensures
        final(lottery).wf(),
        claim_transition(old(lottery)@, info@.sender, pool_balance, final(lottery)@, res_view(r)),
{
    let closed: Option<(String, bool)> = match &lottery.state {
        LotteryState::CLOSED { winner, claimed } => Some((winner.clone(), *claimed)),
        LotteryState::OPEN { .. } => None,
        LotteryState::CHOOSING => None,
    };
    match closed {
        Some((winner, claimed)) => handle_lottery_claim(
            lottery,
            env,
            info,
            pool_balance,
            winner,
            claimed,
        ),
        None => Err(ContractError::LotteryNotClaimable),
    }
}

/// Dispatches one operation against the round. `pool_balance` is the
/// round's current balance of the ticket denomination, as the host's bank
/// reports it; only the claim path reads it. The phase only ever moves
/// forward and the configuration never changes.
pub fn execute(
    lottery: &mut Lottery,
    env: &Env,
    info: &MessageInfo,
    pool_balance: u128,
    msg: ExecuteMsg,
) -> (r: Result<Response, ContractError>)
    requires
        old(lottery).wf(),
    ensures
        final(lottery).wf(),
        final(lottery)@.config == old(lottery)@.config,
        phase_leq(old(lottery)@.state, final(lottery)@.state),
        (msg matches ExecuteMsg::BuyTicket { num_tickets } ==> buy_transition(
            old(lottery)@,
            env.block,
            info@.sender,
            info@.funds,
            num_tickets,
            final(lottery)@,
            res_view(r),
        )),
        (msg matches ExecuteMsg::ExecuteLottery { seed } ==> draw_transition(
            old(lottery)@,
            info@.sender,
            seed,
            final(lottery)@,
            res_view(r),
        )),
        (msg matches ExecuteMsg::ClaimTokens ==> claim_transition(
            old(lottery)@,
            info@.sender,
            pool_balance,
            final(lottery)@,
            res_view(r),
        )),
{
    match msg {
        ExecuteMsg::BuyTicket { num_tickets } => execute_buy_ticket(
            lottery,
            env,
            info,
            num_tickets,
        ),
        ExecuteMsg::ExecuteLottery { seed } => execute_lottery(lottery, env, info, seed),
        ExecuteMsg::ClaimTokens => execute_claim(lottery, env, info, pool_balance),
    }
}

/// The current phase together with the round's total ticket count.
pub fn query_lottery_state(lottery: &Lottery, _env: &Env) -> (r: LotteryStateResponse)
    requires
        lottery.wf(),
    ensures
        r.lotto_state@ == lottery@.state,
        r.total_tickets == sum_tickets(lottery@.players),
{
    let lotto_state = match &lottery.state {
        LotteryState::OPEN { expiration } => LotteryState::OPEN { expiration: *expiration },
        LotteryState::CHOOSING => LotteryState::CHOOSING,
        LotteryState::CLOSED { winner, claimed } => LotteryState::CLOSED {
            winner: winner.clone(),
            claimed: *claimed,
        },
    };
    let sum = get_num_tickets(&lottery.players);
    LotteryStateResponse { lotto_state, total_tickets: sum }
}

/// The ticket count of one identity; `None` for one that never bought.
pub fn query_ticket_count(lottery: &Lottery, _env: &Env, addr: String) -> (r: TicketResponse)
    requires
        lottery.wf(),
    ensures
        r.tickets == lookup_tickets(lottery@.players, key_of(addr@)),
{
    TicketResponse { tickets: lottery.players.get_tickets(&addr) }
}

/// The round's immutable configuration.
pub fn query_config(lottery: &Lottery) -> (r: ConfigResponse)
    ensures
        r.config@ == lottery@.config,
{
    let config = Config {
        admin: lottery.config.admin.clone(),
        house_fee: lottery.config.house_fee,
        ticket_unit_cost: Coin {
            denom: lottery.config.ticket_unit_cost.denom.clone(),
            amount: lottery.config.ticket_unit_cost.amount,
        },
    };
    ConfigResponse { config }
}

/// Answers one read-only question about the round.
pub fn query(lottery: &Lottery, env: &Env, msg: QueryMsg) -> (r: QueryAnswer)
    requires
        lottery.wf(),
    ensures
        (msg matches QueryMsg::TicketCount { addr } ==> (r matches QueryAnswer::Ticket(t)
            && t.tickets == lookup_tickets(lottery@.players, key_of(addr@)))),
        (msg matches QueryMsg::LotteryState ==> (r matches QueryAnswer::State(s) && s.lotto_state@
            == lottery@.state && s.total_tickets == sum_tickets(lottery@.players))),
        (msg matches QueryMsg::Config ==> (r matches QueryAnswer::Configuration(c) && c.config@
            == lottery@.config)),
{
    match msg {
        QueryMsg::TicketCount { addr } => QueryAnswer::Ticket(
            query_ticket_count(lottery, env, addr),
        ),
        QueryMsg::LotteryState => QueryAnswer::State(query_lottery_state(lottery, env)),
        QueryMsg::Config => QueryAnswer::Configuration(query_config(lottery)),
    }
}

} // verus!
