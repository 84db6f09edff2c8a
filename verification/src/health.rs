use vstd::prelude::*;
use crate::math::DECIMAL_ONE;
use crate::types::{ContractError, Health};

verus! {

/// An account is healthy when it has no debt (no health factor) or its
/// max-loan-to-value health factor is at least one.
pub open spec fn is_healthy(h: Health) -> bool {
    match h.max_ltv_health_factor {
        None => true,
        Some(v) => v >= DECIMAL_ONE,
    }
}

/// The health non-regression rule a batch must satisfy: an account that was
/// healthy before the batch must stay healthy; one that was already unhealthy
/// must not get weaker.
pub open spec fn max_ltv_ok(prev: Health, current: Health) -> bool {
    if is_healthy(prev) {
        is_healthy(current)
    } else {
        match current.max_ltv_health_factor {
            None => true,
            Some(c) => c >= prev.max_ltv_health_factor.unwrap(),
        }
    }
}

/// Rejects a batch whose post-action health regresses: a healthy account may
/// not leave health, and an unhealthy one may not get weaker.
pub fn assert_max_ltv(prev_health: &Health, current: &Health) -> (r: Result<(), ContractError>)
    ensures
        r is Ok <==> max_ltv_ok(*prev_health, *current),
        r is Err ==> r == Err::<(), ContractError>(ContractError::AboveMaxLtv),
{
    let prev_healthy = match prev_health.max_ltv_health_factor {
        None => true,
        Some(v) => v >= DECIMAL_ONE,
    };
    if prev_healthy {
        let cur_healthy = match current.max_ltv_health_factor {
            None => true,
            Some(v) => v >= DECIMAL_ONE,
        };
        if cur_healthy {
            Ok(())
        } else {
            Err(ContractError::AboveMaxLtv)
        }
    } else {
        match (current.max_ltv_health_factor, prev_health.max_ltv_health_factor) {
            (None, _) => Ok(()),
            (Some(c), Some(p)) => if c >= p {
                Ok(())
            } else {
                Err(ContractError::AboveMaxLtv)
            },
            (Some(_), None) => {
                proof {
                    assert(false);
                }
                Err(ContractError::AboveMaxLtv)
            },
        }
    }
}

} // verus!
