//! Governance-token reward shares. The amounts are bookkeeping: minting is
//! left to the token's own program.
use crate::state::{SolLearnInfo, PERCENTAGE_DENOMINATOR};
use vstd::prelude::*;

verus! {

/// The governance-token amounts owed to the layer-2 owner and, for a
/// referred request, to the referee and the referrer.
#[derive(PartialEq, Eq, Structural, Clone, Copy, Debug)]
pub struct DaoTokenShares {
    pub l2_owner: u64,
    pub referee: u64,
    pub referrer: u64,
}

/// `bp` basis points of the per-inference governance-token reward.
pub open spec fn reward_share(acc: SolLearnInfo, bp: u16) -> u64 {
    (acc.dao_token_reward * bp / 10000) as u64
}

fn share_of_reward(acc: &SolLearnInfo, bp: u16) -> (r: u64)
    requires
        bp <= 10000,
    ensures
        r == reward_share(*acc, bp),
{
    proof {
        assert(acc.dao_token_reward * bp <= acc.dao_token_reward * 10000) by (nonlinear_arith)
            requires
                bp <= 10000,
        ;
    }
    (acc.dao_token_reward as u128 * bp as u128 / PERCENTAGE_DENOMINATOR as u128) as u64
}

/// The governance-token shares of one resolved inference: the layer-2
/// owner's always, the referee's and referrer's only when it was referred.
pub fn calculate_transferred_dao_token(acc: &SolLearnInfo, is_referred: bool) -> (r: DaoTokenShares)
    requires
        acc.wf(),
    ensures
        r.l2_owner == reward_share(*acc, acc.dao_token_percentage.l2_owner_percentage),
        r.referee == if is_referred {
            reward_share(*acc, acc.dao_token_percentage.referee_percentage)
        } else {
            0
        },
        r.referrer == if is_referred {
            reward_share(*acc, acc.dao_token_percentage.referrer_percentage)
        } else {
            0
        },
{
    let l2_owner = share_of_reward(acc, acc.dao_token_percentage.l2_owner_percentage);
    if is_referred {
        DaoTokenShares {
            l2_owner,
            referee: share_of_reward(acc, acc.dao_token_percentage.referee_percentage),
            referrer: share_of_reward(acc, acc.dao_token_percentage.referrer_percentage),
        }
    } else {
        DaoTokenShares { l2_owner, referee: 0, referrer: 0 }
    }
}

/// The governance tokens a user earns for a request scored `score`: the
/// user's share of the reward, scaled by `score / 10`, for scores 1 to 10;
/// nothing otherwise.
pub fn calculate_user_dao_token_received(acc: &SolLearnInfo, score: u8) -> (r: u64)
    requires
        acc.wf(),
    ensures
        r == if 1 <= score <= 10 {
            (acc.dao_token_percentage.user_percentage * (score * acc.dao_token_reward) / 10
                / 10000) as u64
        } else {
            0
        },
        r <= acc.dao_token_reward,
{
    if score >= 1 && score <= 10 {
        let pct = acc.dao_token_percentage.user_percentage as u128;
        proof {
            let rw = acc.dao_token_reward as int;
            let sc = score as int;
            assert(sc * rw <= 10 * rw) by (nonlinear_arith)
                requires
                    sc <= 10,
                    rw >= 0,
            ;
            assert(pct as int * (sc * rw) <= 10000 * (10 * rw)) by (nonlinear_arith)
                requires
                    pct <= 10000,
                    sc * rw <= 10 * rw,
                    sc * rw >= 0,
                    rw >= 0,
            ;
        }
        let amount = score as u128 * acc.dao_token_reward as u128;
        proof {
            let rw = acc.dao_token_reward as int;
            let sc = score as int;
            let pc = pct as int;
            assert(pc * (sc * rw) / 10 / 10000 <= rw) by (nonlinear_arith)
                requires
                    pc <= 10000,
                    sc <= 10,
                    pc >= 0,
                    sc >= 0,
                    rw >= 0,
            {
                assert(pc * (sc * rw) <= 10000 * (10 * rw));
                assert(pc * (sc * rw) / 10 <= 10000 * rw);
            }
            assert(pc * (sc * rw) <= 10000 * (10 * rw)) by (nonlinear_arith)
                requires
                    pc <= 10000,
                    sc <= 10,
                    pc >= 0,
                    sc >= 0,
                    rw >= 0,
            ;
        }
        (pct * amount / 10 / PERCENTAGE_DENOMINATOR as u128) as u64
    } else {
        0
    }
}

} // verus!
