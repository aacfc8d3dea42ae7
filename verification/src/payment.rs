use vstd::prelude::*;

use crate::error::PaymentError;
use crate::msg::MessageInfo;
use crate::state::CoinV;

verus! {

/// The amount the payment check accepts: exactly one attached coin, of the
/// asked denomination, with a positive amount.
pub open spec fn spec_must_pay(funds: Seq<CoinV>, denom: Seq<char>) -> Option<u128> {
    if funds.len() == 1 && funds[0].amount > 0 && funds[0].denom == denom {
        Some(funds[0].amount)
    } else {
        None
    }
}

/// Whether `r` accepts exactly the amount `amount`.
pub open spec fn must_pay_accepts(r: Result<u128, PaymentError>, amount: u128) -> bool {
    r == Ok::<u128, PaymentError>(amount)
}

/// Whether `r` reports that the asked denomination `denom` was not the one
/// attached.
pub open spec fn must_pay_missing_denom(r: Result<u128, PaymentError>, denom: Seq<char>) -> bool {
    match r {
        Err(PaymentError::MissingDenom(d)) => d@ == denom,
        _ => false,
    }
}

/// Relies on cw_utils::must_pay (through cw_utils::one_coin): it returns the
/// attached amount when exactly one coin of the asked denomination with a
/// positive amount was sent, and otherwise reports no funds sent, several
/// denominations sent, or the asked denomination missing.
#[verifier::external_body]
pub(crate) fn must_pay(info: &MessageInfo, denom: &str) -> (r: Result<u128, PaymentError>)
    ensures
        info@.funds.len() == 0 ==> (r matches Err(PaymentError::NoFunds)),
        info@.funds.len() == 1 && info@.funds[0].amount == 0 ==> (r matches Err(PaymentError::NoFunds)),
        info@.funds.len() > 1 ==> (r matches Err(PaymentError::MultipleDenoms)),
        info@.funds.len() == 1 && info@.funds[0].amount > 0 && info@.funds[0].denom != denom@ ==> must_pay_missing_denom(r, denom@),
        info@.funds.len() == 1 && info@.funds[0].amount > 0 && info@.funds[0].denom == denom@ ==> must_pay_accepts(r, info@.funds[0].amount),
{
    let funds = info.funds.iter().map(|c| cosmwasm_std::Coin {
        denom: c.denom.clone(),
        amount: cosmwasm_std::Uint128::new(c.amount),
    }).collect();
    let sender = cosmwasm_std::Addr::unchecked(info.sender.clone());
    match cw_utils::must_pay(&cosmwasm_std::MessageInfo { sender, funds }, denom) {
        Ok(a) => Ok(a.u128()),
        Err(cw_utils::PaymentError::NoFunds {}) => Err(PaymentError::NoFunds),
        Err(cw_utils::PaymentError::MultipleDenoms {}) => Err(PaymentError::MultipleDenoms),
        Err(cw_utils::PaymentError::MissingDenom(d)) => Err(PaymentError::MissingDenom(d)),
        Err(cw_utils::PaymentError::ExtraDenom(d)) => Err(PaymentError::ExtraDenom(d)),
        Err(cw_utils::PaymentError::NonPayable {}) => Err(PaymentError::NonPayable),
    }
}

} // verus!
