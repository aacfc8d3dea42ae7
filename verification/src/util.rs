use vstd::prelude::*;

use crate::constants::MAX_HOUSE_FEE;
use crate::error::ContractError;
use crate::state::Config;

verus! {

/// Gate for admin-only operations: anyone but the configured admin is
/// rejected.
pub fn is_admin(sender: &String, config: &Config) -> (r: Result<(), ContractError>)
    ensures
        sender@ == config@.admin <==> r == Ok::<(), ContractError>(()),
        sender@ != config@.admin <==> r == Err::<(), ContractError>(ContractError::Unauthorized),
{
    if config.admin != *sender {
        Err(ContractError::Unauthorized)
    } else {
        Ok(())
    }
}

/// Rejects a house fee at or above the ceiling; a valid fee is returned
/// unchanged.
pub fn validate_house_fee(house_fee: u64) -> (r: Result<u64, ContractError>)
    ensures
        house_fee < MAX_HOUSE_FEE <==> r == Ok::<u64, ContractError>(house_fee),
        house_fee >= MAX_HOUSE_FEE <==> r == Err::<u64, ContractError>(
            ContractError::ContractInstantiationInvalidFee,
        ),
{
    if house_fee >= MAX_HOUSE_FEE {
        Err(ContractError::ContractInstantiationInvalidFee)
    } else {
        Ok(house_fee)
    }
}

} // verus!
