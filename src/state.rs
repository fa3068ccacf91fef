//! The coordinator's global parameters and counters, the epoch clock, and
//! the admin control plane.
//!
//! Epochs are counted on one clock only: every `epoch_duration` time units
//! since `last_time` is one epoch, added to `last_epoch` either lazily at the
//! top of an operation (`touch_epoch`) or on request (`update_epoch`), both
//! through `epoch_after`. The reward rate a miner accrues is
//! `reward_per_epoch` per epoch counted this way. The slot-scaled figure
//! `reward_per_epoch * blocks_per_epoch / BLOCK_PER_YEAR` is only recorded in
//! the `MinerEpochState` snapshot of a closed epoch.
use crate::error::SolLearnError;
use crate::hash::{key_eq, Key};
use vstd::prelude::*;

verus! {

/// Basis-point denominator.
pub const PERCENTAGE_DENOMINATOR: u64 = 10000;

/// Blocks per year at two seconds per block.
pub const BLOCK_PER_YEAR: u64 = 15768000;

/// Shares of the governance-token reward, in basis points.
#[derive(PartialEq, Eq, Structural, Clone, Copy, Debug)]
pub struct DAOTokenPercentage {
    pub miner_percentage: u16,
    pub user_percentage: u16,
    pub referrer_percentage: u16,
    pub referee_percentage: u16,
    pub l2_owner_percentage: u16,
}

/// The singleton state of the coordinator.
#[derive(PartialEq, Eq, Clone, Copy, Debug)]
pub struct SolLearnInfo {
    pub admin: Key,
    pub token: Key,
    pub total_miner: u64,
    pub total_models: u64,
    pub total_infer: u64,
    pub miner_minimum_stake: u64,
    pub unstake_delay_time: u64,
    pub reward_per_epoch: u64,
    pub min_fee_to_use: u64,
    pub last_epoch: u64,
    pub epoch_duration: u64,
    pub last_time: u64,
    pub inference_number: u64,
    pub assignment_number: u64,
    pub l2_owner: Key,
    pub treasury: Key,
    pub fee_l2_percentage: u16,
    pub fee_treasury_percentage: u16,
    pub fee_ratio_miner_validator: u16,
    pub submit_duration: u64,
    pub commit_duration: u64,
    pub reveal_duration: u64,
    pub penalty_duration: u64,
    pub miner_requirement: u8,
    pub blocks_per_epoch: u64,
    pub fine_percentage: u16,
    pub dao_token_reward: u64,
    pub dao_token_percentage: DAOTokenPercentage,
}

/// Reward bookkeeping written when an epoch is closed.
#[derive(PartialEq, Eq, Structural, Clone, Copy, Debug)]
pub struct MinerEpochState {
    pub total_miner: u64,
    pub epoch_reward: u64,
}

pub open spec fn bp_ok(x: u16) -> bool {
    x <= 10000
}

pub open spec fn dao_wf(p: DAOTokenPercentage) -> bool {
    &&& bp_ok(p.miner_percentage)
    &&& bp_ok(p.user_percentage)
    &&& bp_ok(p.referrer_percentage)
    &&& bp_ok(p.referee_percentage)
    &&& bp_ok(p.l2_owner_percentage)
}

impl SolLearnInfo {
    /// Parameter invariants: basis points within 10,000 (the two inference
    /// fees together too), a committee of at least one miner, a positive
    /// minimum fee, and positive epoch lengths.
    pub open spec fn wf(&self) -> bool {
        &&& self.fee_l2_percentage + self.fee_treasury_percentage <= 10000
        &&& bp_ok(self.fee_ratio_miner_validator)
        &&& bp_ok(self.fine_percentage)
        &&& dao_wf(self.dao_token_percentage)
        &&& self.miner_requirement >= 1
        &&& self.min_fee_to_use > 0
        &&& self.epoch_duration > 0
        &&& self.blocks_per_epoch > 0
    }

    /// Number of whole epochs elapsed at `now` since the last advance.
    pub open spec fn epochs_due(&self, now: u64) -> int {
        (now - self.last_time) / (self.epoch_duration as int)
    }

    /// The state after the lazy epoch advance at `now`.
    pub open spec fn epoch_after(&self, now: u64) -> SolLearnInfo {
        if self.epochs_due(now) > 0 {
            SolLearnInfo { last_epoch: (self.last_epoch + self.epochs_due(now)) as u64, last_time: now, ..*self }
        } else {
            *self
        }
    }

    /// Whether the lazy epoch advance at `now` is defined: the clock has not
    /// gone back and the epoch counter does not overflow.
    pub open spec fn can_touch(&self, now: u64) -> bool {
        &&& now >= self.last_time
        &&& self.last_epoch + self.epochs_due(now) <= u64::MAX
    }

    /// Whether an epoch boundary has passed at `now` without the counter
    /// having advanced.
    pub open spec fn epoch_pending(&self, now: u64) -> bool {
        self.epochs_due(now) > 0
    }
}

/// Advances the epoch counter by the whole epochs elapsed since the last
/// advance.
pub fn touch_epoch(acc: &mut SolLearnInfo, now: u64)
    requires
        old(acc).wf(),
        old(acc).can_touch(now),
    ensures
        *final(acc) == old(acc).epoch_after(now),
        final(acc).wf(),
{
    let n = (now - acc.last_time) / acc.epoch_duration;
    if n > 0 {
        acc.last_time = now;
        acc.last_epoch = acc.last_epoch + n;
    }
}

fn params_valid(
    epoch_duration: u64,
    min_fee_to_use: u64,
    fee_l2_percentage: u16,
    fee_treasury_percentage: u16,
    fee_ratio_miner_validator: u16,
    miner_requirement: u8,
    blocks_per_epoch: u64,
    fine_percentage: u16,
    dao: DAOTokenPercentage,
) -> (r: bool)
    ensures
        r == (fee_l2_percentage + fee_treasury_percentage <= 10000 && bp_ok(fee_ratio_miner_validator)
            && bp_ok(fine_percentage) && dao_wf(dao) && miner_requirement >= 1 && min_fee_to_use > 0
            && epoch_duration > 0 && blocks_per_epoch > 0),
{
    fee_l2_percentage as u32 + fee_treasury_percentage as u32 <= 10000 && fee_ratio_miner_validator
        <= 10000 && fine_percentage <= 10000 && dao.miner_percentage <= 10000 && dao.user_percentage
        <= 10000 && dao.referrer_percentage <= 10000 && dao.referee_percentage <= 10000
        && dao.l2_owner_percentage <= 10000 && miner_requirement >= 1 && min_fee_to_use > 0
        && epoch_duration > 0 && blocks_per_epoch > 0
}

/// Creates the coordinator state. The admin is also the first layer-2
/// owner; counters start at zero; the epoch clock starts at `now`.
pub fn initialize(
    admin: Key,
    token: Key,
    now: u64,
    reward_per_epoch: u64,
    epoch_duration: u64,
    min_stake: u64,
    min_fee_to_use: u64,
    treasury_address: Key,
    fee_l2_percentage: u16,
    fee_treasury_percentage: u16,
    fee_ratio_miner_validator: u16,
    submit_duration: u64,
    commit_duration: u64,
    reveal_duration: u64,
    penalty_duration: u64,
    miner_requirement: u8,
    blocks_per_epoch: u64,
    fine_percentage: u16,
    dao_token_reward: u64,
    dao_token_percentage: DAOTokenPercentage,
    unstake_delay_time: u64,
) -> (r: Result<SolLearnInfo, SolLearnError>)
    ensures
        r.is_ok() <==> (fee_l2_percentage + fee_treasury_percentage <= 10000 && bp_ok(
            fee_ratio_miner_validator,
        ) && bp_ok(fine_percentage) && dao_wf(dao_token_percentage) && miner_requirement >= 1
            && min_fee_to_use > 0 && epoch_duration > 0 && blocks_per_epoch > 0),
        r.is_err() ==> r == Err::<SolLearnInfo, SolLearnError>(SolLearnError::InvalidParameter),
        r.is_ok() ==> r.unwrap().wf() && r.unwrap() == (SolLearnInfo {
            admin,
            token,
            total_miner: 0,
            total_models: 0,
            total_infer: 0,
            miner_minimum_stake: min_stake,
            unstake_delay_time,
            reward_per_epoch,
            min_fee_to_use,
            last_epoch: 0,
            epoch_duration,
            last_time: now,
            inference_number: 0,
            assignment_number: 0,
            l2_owner: admin,
            treasury: treasury_address,
            fee_l2_percentage,
            fee_treasury_percentage,
            fee_ratio_miner_validator,
            submit_duration,
            commit_duration,
            reveal_duration,
            penalty_duration,
            miner_requirement,
            blocks_per_epoch,
            fine_percentage,
            dao_token_reward,
            dao_token_percentage,
        }),
{
    if !params_valid(
        epoch_duration,
        min_fee_to_use,
        fee_l2_percentage,
        fee_treasury_percentage,
        fee_ratio_miner_validator,
        miner_requirement,
        blocks_per_epoch,
        fine_percentage,
        dao_token_percentage,
    ) {
        return Err(SolLearnError::InvalidParameter);
    }
    Ok(
        SolLearnInfo {
            admin,
            token,
            total_miner: 0,
            total_models: 0,
            total_infer: 0,
            miner_minimum_stake: min_stake,
            unstake_delay_time,
            reward_per_epoch,
            min_fee_to_use,
            last_epoch: 0,
            epoch_duration,
            last_time: now,
            inference_number: 0,
            assignment_number: 0,
            l2_owner: admin,
            treasury: treasury_address,
            fee_l2_percentage,
            fee_treasury_percentage,
            fee_ratio_miner_validator,
            submit_duration,
            commit_duration,
            reveal_duration,
            penalty_duration,
            miner_requirement,
            blocks_per_epoch,
            fine_percentage,
            dao_token_reward,
            dao_token_percentage,
        },
    )
}

/// Fails with `NeedToWait` while an epoch boundary is due.
pub fn only_updated_epoch(acc: &SolLearnInfo, now: u64) -> (r: Result<(), SolLearnError>)
    requires
        acc.wf(),
        now >= acc.last_time,
    ensures
        r == (if acc.epoch_pending(now) {
            Err::<(), SolLearnError>(SolLearnError::NeedToWait)
        } else {
            Ok(())
        }),
{
    if (now - acc.last_time) / acc.epoch_duration > 0 {
        Err(SolLearnError::NeedToWait)
    } else {
        Ok(())
    }
}

/// Who may change a parameter: the admin, and only while no epoch boundary
/// is due.
pub open spec fn admin_gate(acc: SolLearnInfo, signer: Key, now: u64) -> Result<(), SolLearnError> {
    if signer != acc.admin {
        Err(SolLearnError::Unauthorized)
    } else if acc.epoch_pending(now) {
        Err(SolLearnError::NeedToWait)
    } else {
        Ok(())
    }
}

fn check_admin(acc: &SolLearnInfo, signer: &Key, now: u64) -> (r: Result<(), SolLearnError>)
    requires
        acc.wf(),
        now >= acc.last_time,
    ensures
        r == admin_gate(*acc, *signer, now),
{
    if !key_eq(signer, &acc.admin) {
        return Err(SolLearnError::Unauthorized);
    }
    only_updated_epoch(acc, now)
}

/// Advances the epoch counter on request, by every whole epoch elapsed at
/// `now` (the same advance `touch_epoch` makes lazily), and records the miner
/// count and the reward rate of the epoch being closed. `epoch_id` must name
/// the current epoch.
pub fn update_epoch(acc: &mut SolLearnInfo, epoch_id: u64, now: u64) -> (r: Result<
    MinerEpochState,
    SolLearnError,
>)
    requires
        old(acc).wf(),
        old(acc).can_touch(now),
        old(acc).reward_per_epoch * old(acc).blocks_per_epoch / (BLOCK_PER_YEAR as int) <= u64::MAX,
    ensures
        !old(acc).epoch_pending(now) ==> r == Err::<MinerEpochState, SolLearnError>(
            SolLearnError::EpochRewardUpToDate,
        ),
        old(acc).epoch_pending(now) && epoch_id != old(acc).last_epoch ==> r == Err::<
            MinerEpochState,
            SolLearnError,
        >(SolLearnError::InvalidEpochId),
        r.is_err() ==> *final(acc) == *old(acc),
        old(acc).epoch_pending(now) && epoch_id == old(acc).last_epoch ==> {
            &&& r == Ok::<MinerEpochState, SolLearnError>(
                (MinerEpochState {
                    total_miner: old(acc).total_miner,
                    epoch_reward: (old(acc).reward_per_epoch * old(acc).blocks_per_epoch
                        / BLOCK_PER_YEAR as int) as u64,
                }),
            )
            &&& *final(acc) == old(acc).epoch_after(now)
            &&& final(acc).last_epoch == old(acc).last_epoch + old(acc).epochs_due(now)
        },
        final(acc).wf(),
{
    let passed = (now - acc.last_time) / acc.epoch_duration;
    if passed == 0 {
        return Err(SolLearnError::EpochRewardUpToDate);
    }
    if epoch_id != acc.last_epoch {
        return Err(SolLearnError::InvalidEpochId);
    }
    proof {
        assert(acc.reward_per_epoch as int * acc.blocks_per_epoch as int <= u64::MAX as int
            * u64::MAX as int) by (nonlinear_arith)
            requires
                acc.blocks_per_epoch as int <= u64::MAX,
                acc.reward_per_epoch as int <= u64::MAX,
                acc.blocks_per_epoch >= 0,
                acc.reward_per_epoch >= 0,
        ;
    }
    let reward = (acc.reward_per_epoch as u128 * acc.blocks_per_epoch as u128
        / BLOCK_PER_YEAR as u128) as u64;
    touch_epoch(acc, now);
    Ok(MinerEpochState { total_miner: acc.total_miner, epoch_reward: reward })
}

/// The outcome of a parameter change whose new value must satisfy `valid`.
pub open spec fn admin_update(
    acc: SolLearnInfo,
    signer: Key,
    now: u64,
    valid: bool,
) -> Result<(), SolLearnError> {
    match admin_gate(acc, signer, now) {
        Err(e) => Err(e),
        Ok(_) => if valid {
            Ok(())
        } else {
            Err(SolLearnError::InvalidParameter)
        },
    }
}

/// Sets the minimum stake a miner must hold to join. Admin only, and only while no epoch boundary is due.
pub fn set_miner_min_stake(acc: &mut SolLearnInfo, signer: Key, now: u64, data: u64) -> (r: Result<
    (),
    SolLearnError,
>)
    requires
        old(acc).wf(),
        now >= old(acc).last_time,
    ensures
        r == admin_update(*old(acc), signer, now, true),
        r.is_err() ==> *final(acc) == *old(acc),
        r.is_ok() ==> *final(acc) == (SolLearnInfo { miner_minimum_stake: data, ..*old(acc) }),
        final(acc).wf(),
{
    check_admin(acc, &signer, now)?;
    acc.miner_minimum_stake = data;
    Ok(())
}

/// Sets the fine charged on a slash, in basis points of the minimum stake. Admin only, and only while no epoch boundary is due.
pub fn set_fine_percentage(acc: &mut SolLearnInfo, signer: Key, now: u64, fine_percentage: u16) -> (r: Result<
    (),
    SolLearnError,
>)
    requires
        old(acc).wf(),
        now >= old(acc).last_time,
    ensures
        r == admin_update(*old(acc), signer, now, bp_ok(fine_percentage)),
        r.is_err() ==> *final(acc) == *old(acc),
        r.is_ok() ==> *final(acc) == (SolLearnInfo { fine_percentage: fine_percentage, ..*old(acc) }),
        final(acc).wf(),
{
    check_admin(acc, &signer, now)?;
    if !(fine_percentage <= 10000) {
        return Err(SolLearnError::InvalidParameter);
    }
    acc.fine_percentage = fine_percentage;
    Ok(())
}

/// Sets how long a slashed miner must wait before joining again. Admin only, and only while no epoch boundary is due.
pub fn set_penalty_duration(acc: &mut SolLearnInfo, signer: Key, now: u64, penalty_duration: u64) -> (r: Result<
    (),
    SolLearnError,
>)
    requires
        old(acc).wf(),
        now >= old(acc).last_time,
    ensures
        r == admin_update(*old(acc), signer, now, true),
        r.is_err() ==> *final(acc) == *old(acc),
        r.is_ok() ==> *final(acc) == (SolLearnInfo { penalty_duration: penalty_duration, ..*old(acc) }),
        final(acc).wf(),
{
    check_admin(acc, &signer, now)?;
    acc.penalty_duration = penalty_duration;
    Ok(())
}

/// Sets the scoring fee, the least value an inference request must pay. Admin only, and only while no epoch boundary is due.
pub fn set_min_fee_to_use(acc: &mut SolLearnInfo, signer: Key, now: u64, min_fee_to_use: u64) -> (r: Result<
    (),
    SolLearnError,
>)
    requires
        old(acc).wf(),
        now >= old(acc).last_time,
    ensures
        r == admin_update(*old(acc), signer, now, min_fee_to_use > 0),
        r.is_err() ==> *final(acc) == *old(acc),
        r.is_ok() ==> *final(acc) == (SolLearnInfo { min_fee_to_use: min_fee_to_use, ..*old(acc) }),
        final(acc).wf(),
{
    check_admin(acc, &signer, now)?;
    if !(min_fee_to_use > 0) {
        return Err(SolLearnError::InvalidParameter);
    }
    acc.min_fee_to_use = min_fee_to_use;
    Ok(())
}

/// Sets the recipient of the layer-2 fee. Admin only, and only while no epoch boundary is due.
pub fn set_l2_owner(acc: &mut SolLearnInfo, signer: Key, now: u64, l2_owner_address: Key) -> (r: Result<
    (),
    SolLearnError,
>)
    requires
        old(acc).wf(),
        now >= old(acc).last_time,
    ensures
        r == admin_update(*old(acc), signer, now, true),
        r.is_err() ==> *final(acc) == *old(acc),
        r.is_ok() ==> *final(acc) == (SolLearnInfo { l2_owner: l2_owner_address, ..*old(acc) }),
        final(acc).wf(),
{
    check_admin(acc, &signer, now)?;
    acc.l2_owner = l2_owner_address;
    Ok(())
}

/// Sets the recipient of the treasury fee and of fines. Admin only, and only while no epoch boundary is due.
pub fn set_treasury_address(acc: &mut SolLearnInfo, signer: Key, now: u64, treasury_address: Key) -> (r: Result<
    (),
    SolLearnError,
>)
    requires
        old(acc).wf(),
        now >= old(acc).last_time,
    ensures
        r == admin_update(*old(acc), signer, now, true),
        r.is_err() ==> *final(acc) == *old(acc),
        r.is_ok() ==> *final(acc) == (SolLearnInfo { treasury: treasury_address, ..*old(acc) }),
        final(acc).wf(),
{
    check_admin(acc, &signer, now)?;
    acc.treasury = treasury_address;
    Ok(())
}

/// Sets the seizer's share of the reward pool, in basis points. Admin only, and only while no epoch boundary is due.
pub fn set_fee_ratio_miner_validator(acc: &mut SolLearnInfo, signer: Key, now: u64, new_ratio: u16) -> (r: Result<
    (),
    SolLearnError,
>)
    requires
        old(acc).wf(),
        now >= old(acc).last_time,
    ensures
        r == admin_update(*old(acc), signer, now, bp_ok(new_ratio)),
        r.is_err() ==> *final(acc) == *old(acc),
        r.is_ok() ==> *final(acc) == (SolLearnInfo { fee_ratio_miner_validator: new_ratio, ..*old(acc) }),
        final(acc).wf(),
{
    check_admin(acc, &signer, now)?;
    if !(new_ratio <= 10000) {
        return Err(SolLearnError::InvalidParameter);
    }
    acc.fee_ratio_miner_validator = new_ratio;
    Ok(())
}

/// Sets the governance-token reward per resolved inference. Admin only, and only while no epoch boundary is due.
pub fn set_dao_token_reward(acc: &mut SolLearnInfo, signer: Key, now: u64, new_dao_token_reward: u64) -> (r: Result<
    (),
    SolLearnError,
>)
    requires
        old(acc).wf(),
        now >= old(acc).last_time,
    ensures
        r == admin_update(*old(acc), signer, now, true),
        r.is_err() ==> *final(acc) == *old(acc),
        r.is_ok() ==> *final(acc) == (SolLearnInfo { dao_token_reward: new_dao_token_reward, ..*old(acc) }),
        final(acc).wf(),
{
    check_admin(acc, &signer, now)?;
    acc.dao_token_reward = new_dao_token_reward;
    Ok(())
}

/// The id the next inference request must carry.
pub fn next_inference_id(acc: &SolLearnInfo) -> (r: u64)
    requires
        acc.inference_number < u64::MAX,
    ensures
        r == acc.inference_number + 1,
{
    acc.inference_number + 1
}

/// The id the next assignment will get.
pub fn next_assignment_id(acc: &SolLearnInfo) -> (r: u64)
    requires
        acc.assignment_number < u64::MAX,
    ensures
        r == acc.assignment_number + 1,
{
    acc.assignment_number + 1
}

/// The id of the epoch after the current one.
pub fn next_epoch_id(acc: &SolLearnInfo) -> (r: u64)
    requires
        acc.last_epoch < u64::MAX,
    ensures
        r == acc.last_epoch + 1,
{
    acc.last_epoch + 1
}

} // verus!
