//! The miner ledger: registration, joining a roster, top-ups, unstaking,
//! reward claims and slashing.
use crate::error::SolLearnError;
use crate::hash::{key_eq, key_is_zero, random_number, random_spec, Key};
use crate::registry::{find_key, lemma_push_no_dup, lemma_remove_no_dup, MinersOfModel, Models};
use crate::state::{touch_epoch, SolLearnInfo, PERCENTAGE_DENOMINATOR};
use vstd::prelude::*;

verus! {

/// The ledger entry of one miner.
#[derive(PartialEq, Eq, Clone, Copy, Debug)]
pub struct MinerInfo {
    pub miner: Key,
    /// The model whose roster the miner joins.
    pub model: Key,
    pub stake_amount: u64,
    /// The epoch up to which rewards have been accounted.
    pub last_epoch: u64,
    /// The time before which the miner may not join (after a slash).
    pub active_time: u64,
    pub is_active: bool,
    /// When the unstaked stake may be claimed; 0 when not unstaking.
    pub unstaking_time: u64,
    /// Reward accrued and not yet claimed.
    pub reward: u64,
}

/// Reward earned since the miner's last accounted epoch: one
/// `reward_per_epoch` per epoch elapsed.
pub open spec fn pending_reward(acc: SolLearnInfo, m: MinerInfo) -> int {
    if acc.last_epoch >= m.last_epoch {
        (acc.last_epoch - m.last_epoch) * acc.reward_per_epoch
    } else {
        0
    }
}

/// The fine charged on a fined slash.
pub open spec fn fine_spec(acc: SolLearnInfo) -> u64 {
    (acc.miner_minimum_stake * acc.fine_percentage / 10000) as u64
}

fn pending(acc: &SolLearnInfo, m: &MinerInfo) -> (r: u64)
    requires
        pending_reward(*acc, *m) <= u64::MAX,
    ensures
        r == pending_reward(*acc, *m),
{
    if acc.last_epoch >= m.last_epoch {
        (acc.last_epoch - m.last_epoch) * acc.reward_per_epoch
    } else {
        0
    }
}

/// Registers a miner with `stake_amount` and assigns it a model drawn from
/// the registry with seed `(0, now)`. The miner starts inactive.
pub fn miner_register(
    acc: &mut SolLearnInfo,
    models: &Models,
    miner: Key,
    stake_amount: u64,
    now: u64,
) -> (r: Result<MinerInfo, SolLearnError>)
    requires
        old(acc).total_miner < u64::MAX,
    ensures
        stake_amount < old(acc).miner_minimum_stake ==> r == Err::<MinerInfo, SolLearnError>(
            SolLearnError::MustGreatThanMinStake,
        ),
        stake_amount >= old(acc).miner_minimum_stake && models.data@.len() == 0 ==> r == Err::<
            MinerInfo,
            SolLearnError,
        >(SolLearnError::NoModelRegistered),
        r.is_ok() <==> stake_amount >= old(acc).miner_minimum_stake && models.data@.len() > 0,
        r.is_err() ==> *final(acc) == *old(acc),
        r.is_ok() ==> {
            &&& r.unwrap() == (MinerInfo {
                miner,
                model: models.data@[random_spec(0, now, models.data@.len() as u64) as int],
                stake_amount,
                last_epoch: 0,
                active_time: 0,
                is_active: false,
                unstaking_time: 0,
                reward: 0,
            })
            &&& *final(acc) == (SolLearnInfo { total_miner: (old(acc).total_miner + 1) as u64, ..*old(acc) })
        },
{
    if stake_amount < acc.miner_minimum_stake {
        return Err(SolLearnError::MustGreatThanMinStake);
    }
    let n = models.data.len();
    if n == 0 {
        return Err(SolLearnError::NoModelRegistered);
    }
    let idx = random_number(0, now, n as u64);
    let model = models.data[idx as usize];
    acc.total_miner = acc.total_miner + 1;
    Ok(
        MinerInfo {
            miner,
            model,
            stake_amount,
            last_epoch: 0,
            active_time: 0,
            is_active: false,
            unstaking_time: 0,
            reward: 0,
        },
    )
}

/// Why joining would be refused, checked in this order.
pub open spec fn join_error(acc: SolLearnInfo, m: MinerInfo, roster: MinersOfModel, now: u64) -> Option<
    SolLearnError,
> {
    if m.is_active {
        Some(SolLearnError::AlreadyJoined)
    } else if m.active_time > now {
        Some(SolLearnError::NotActiveYet)
    } else if m.stake_amount < acc.miner_minimum_stake {
        Some(SolLearnError::MustGreatThanMinStake)
    } else if roster.model != m.model {
        Some(SolLearnError::Unauthorized)
    } else if roster.data@.contains(m.miner) {
        Some(SolLearnError::AlreadyJoined)
    } else {
        None
    }
}

/// Activates a miner: appends it to its model's roster, cancels any
/// unstaking, and starts its reward accounting at the current epoch.
pub fn join_for_minting(
    acc: &mut SolLearnInfo,
    miner: &mut MinerInfo,
    roster: &mut MinersOfModel,
    now: u64,
) -> (r: Result<(), SolLearnError>)
    requires
        old(acc).wf(),
        old(acc).can_touch(now),
        old(roster).wf(),
    ensures
        r.is_err() <==> join_error(*old(acc), *old(miner), *old(roster), now).is_some(),
        r.is_err() ==> r == Err::<(), SolLearnError>(
            join_error(*old(acc), *old(miner), *old(roster), now).unwrap(),
        ),
        r.is_err() ==> *final(acc) == *old(acc) && *final(miner) == *old(miner) && final(roster).data@ == old(roster).data@,
        r.is_ok() ==> {
            &&& old(miner).stake_amount >= old(acc).miner_minimum_stake
            &&& *final(acc) == old(acc).epoch_after(now)
            &&& final(roster).data@ == old(roster).data@.push(old(miner).miner)
            &&& *final(miner) == (MinerInfo {
                last_epoch: final(acc).last_epoch,
                is_active: true,
                unstaking_time: 0,
                ..*old(miner)
            })
        },
        final(roster).model == old(roster).model,
        final(roster).wf(),
        final(acc).wf(),
{
    if miner.is_active {
        return Err(SolLearnError::AlreadyJoined);
    }
    if miner.active_time > now {
        return Err(SolLearnError::NotActiveYet);
    }
    if miner.stake_amount < acc.miner_minimum_stake {
        return Err(SolLearnError::MustGreatThanMinStake);
    }
    if !key_eq(&roster.model, &miner.model) {
        return Err(SolLearnError::Unauthorized);
    }
    if find_key(&roster.data, &miner.miner).is_some() {
        return Err(SolLearnError::AlreadyJoined);
    }
    touch_epoch(acc, now);
    proof {
        lemma_push_no_dup(roster.data@, miner.miner);
    }
    roster.data.push(miner.miner);
    miner.last_epoch = acc.last_epoch;
    miner.is_active = true;
    miner.unstaking_time = 0;
    Ok(())
}

/// Adds `topup_amount` to the miner's stake.
pub fn topup(miner: &mut MinerInfo, topup_amount: u64)
    requires
        old(miner).stake_amount + topup_amount <= u64::MAX,
    ensures
        *final(miner) == (MinerInfo {
            stake_amount: (old(miner).stake_amount + topup_amount) as u64,
            ..*old(miner)
        }),
{
    miner.stake_amount = miner.stake_amount + topup_amount;
}

/// Why an unstake request would be refused, checked in this order.
pub open spec fn unstake_error(m: MinerInfo, roster: MinersOfModel, model_index: u64) -> Option<
    SolLearnError,
> {
    if m.stake_amount == 0 {
        Some(SolLearnError::StakingZeroValue)
    } else if m.unstaking_time != 0 {
        Some(SolLearnError::StillUnstaking)
    } else if m.is_active && roster.model != m.model {
        Some(SolLearnError::Unauthorized)
    } else if m.is_active && model_index >= roster.data@.len() {
        Some(SolLearnError::InvalidModelIndex)
    } else if m.is_active && roster.data@[model_index as int] != m.miner {
        Some(SolLearnError::MinerNotRegistered)
    } else {
        None
    }
}

/// Starts unstaking: the stake becomes claimable `unstake_delay_time` after
/// `now`. An active miner first banks its pending reward, is deactivated,
/// and is removed from its roster at `model_index`.
pub fn miner_unstake(
    acc: &mut SolLearnInfo,
    miner: &mut MinerInfo,
    roster: &mut MinersOfModel,
    model_index: u64,
    now: u64,
) -> (r: Result<(), SolLearnError>)
    requires
        old(acc).wf(),
        old(acc).can_touch(now),
        old(roster).wf(),
        now + old(acc).unstake_delay_time <= u64::MAX,
        old(miner).reward + pending_reward(old(acc).epoch_after(now), *old(miner)) <= u64::MAX,
    ensures
        r.is_err() <==> unstake_error(*old(miner), *old(roster), model_index).is_some(),
        r.is_err() ==> r == Err::<(), SolLearnError>(
            unstake_error(*old(miner), *old(roster), model_index).unwrap(),
        ),
        r.is_err() ==> *final(acc) == *old(acc) && *final(miner) == *old(miner) && final(roster).data@ == old(roster).data@,
        r.is_ok() ==> {
            &&& *final(acc) == old(acc).epoch_after(now)
            &&& if old(miner).is_active {
                &&& final(roster).data@ == old(roster).data@.remove(model_index as int)
                &&& !final(roster).data@.contains(old(miner).miner)
                &&& *final(miner) == (MinerInfo {
                    unstaking_time: (now + old(acc).unstake_delay_time) as u64,
                    reward: (old(miner).reward + pending_reward(*final(acc), *old(miner))) as u64,
                    is_active: false,
                    ..*old(miner)
                })
            } else {
                &&& final(roster).data@ == old(roster).data@
                &&& *final(miner) == (MinerInfo {
                    unstaking_time: (now + old(acc).unstake_delay_time) as u64,
                    ..*old(miner)
                })
            }
        },
        final(roster).model == old(roster).model,
        final(roster).wf(),
        final(acc).wf(),
{
    if miner.stake_amount == 0 {
        return Err(SolLearnError::StakingZeroValue);
    }
    if miner.unstaking_time != 0 {
        return Err(SolLearnError::StillUnstaking);
    }
    if miner.is_active {
        if !key_eq(&roster.model, &miner.model) {
            return Err(SolLearnError::Unauthorized);
        }
        if model_index >= roster.data.len() as u64 {
            return Err(SolLearnError::InvalidModelIndex);
        }
        if !key_eq(&roster.data[model_index as usize], &miner.miner) {
            return Err(SolLearnError::MinerNotRegistered);
        }
    }
    touch_epoch(acc, now);
    miner.unstaking_time = now + acc.unstake_delay_time;
    if miner.is_active {
        let earned = pending(acc, miner);
        miner.reward = miner.reward + earned;
        proof {
            lemma_remove_no_dup(roster.data@, model_index as int);
        }
        roster.data.remove(model_index as usize);
        miner.is_active = false;
    }
    Ok(())
}

/// Why claiming the unstaked stake would be refused, checked in this order.
pub open spec fn claim_unstaked_error(m: MinerInfo, now: u64) -> Option<SolLearnError> {
    if m.is_active {
        Some(SolLearnError::AlreadyActivated)
    } else if m.unstaking_time == 0 || m.unstaking_time > now {
        Some(SolLearnError::CanNotClaim)
    } else if m.stake_amount == 0 {
        Some(SolLearnError::NothingToClaim)
    } else {
        None
    }
}

/// Releases the whole stake once the unstaking delay has passed. Returns the
/// amount to transfer from the vault to the miner.
pub fn miner_claim_unstaked(miner: &mut MinerInfo, now: u64) -> (r: Result<u64, SolLearnError>)
    ensures
        r.is_err() <==> claim_unstaked_error(*old(miner), now).is_some(),
        r.is_err() ==> r == Err::<u64, SolLearnError>(
            claim_unstaked_error(*old(miner), now).unwrap(),
        ) && *final(miner) == *old(miner),
        r.is_ok() ==> r.unwrap() == old(miner).stake_amount && *final(miner) == (MinerInfo {
            stake_amount: 0,
            unstaking_time: 0,
            ..*old(miner)
        }),
{
    if miner.is_active {
        return Err(SolLearnError::AlreadyActivated);
    }
    if miner.unstaking_time == 0 || miner.unstaking_time > now {
        return Err(SolLearnError::CanNotClaim);
    }
    let amount = miner.stake_amount;
    if amount == 0 {
        return Err(SolLearnError::NothingToClaim);
    }
    miner.stake_amount = 0;
    miner.unstaking_time = 0;
    Ok(amount)
}

/// The reward a claim at `now` would pay: what is banked plus, for an
/// active miner, what it earned since its last accounted epoch.
pub open spec fn claimable_reward(acc: SolLearnInfo, m: MinerInfo, now: u64) -> int {
    m.reward + if m.is_active {
        pending_reward(acc.epoch_after(now), m)
    } else {
        0
    }
}

/// Pays out the miner's reward after advancing the epoch. Returns the amount
/// to transfer from the vault to the miner.
pub fn miner_claim_reward(acc: &mut SolLearnInfo, miner: &mut MinerInfo, now: u64) -> (r: Result<
    u64,
    SolLearnError,
>)
    requires
        old(acc).wf(),
        old(acc).can_touch(now),
        claimable_reward(*old(acc), *old(miner), now) <= u64::MAX,
    ensures
        r.is_err() <==> claimable_reward(*old(acc), *old(miner), now) == 0,
        r.is_err() ==> r == Err::<u64, SolLearnError>(SolLearnError::NothingToClaim)
            && *final(acc) == *old(acc) && *final(miner) == *old(miner),
        r.is_ok() ==> {
            &&& r.unwrap() == claimable_reward(*old(acc), *old(miner), now)
            &&& *final(acc) == old(acc).epoch_after(now)
            &&& *final(miner) == (MinerInfo {
                reward: 0,
                last_epoch: final(acc).last_epoch,
                ..*old(miner)
            })
        },
        final(acc).wf(),
{
    let ghost old_acc = *acc;
    let mut after = *acc;
    touch_epoch(&mut after, now);
    let mut reward = miner.reward;
    if miner.is_active {
        reward = reward + pending(&after, miner);
    }
    if reward == 0 {
        return Err(SolLearnError::NothingToClaim);
    }
    *acc = after;
    miner.reward = 0;
    miner.last_epoch = acc.last_epoch;
    Ok(reward)
}

/// A roster with `k` taken out, if it is there.
pub open spec fn roster_without(s: Seq<Key>, k: Key) -> Seq<Key> {
    if s.contains(k) {
        s.remove(s.index_of(k))
    } else {
        s
    }
}

/// The ledger entry after a slash at `now`.
pub open spec fn slashed(m: MinerInfo, is_fined: bool, acc: SolLearnInfo, now: u64) -> MinerInfo {
    let fine: u64 = if is_fined {
        fine_spec(acc)
    } else {
        0
    };
    MinerInfo {
        active_time: (now + acc.penalty_duration) as u64,
        is_active: false,
        stake_amount: if m.stake_amount < fine {
            0
        } else {
            (m.stake_amount - fine) as u64
        },
        ..m
    }
}

/// Slashes a miner: takes it out of its roster if it is there, deactivates
/// it, and bars it from joining until `now + penalty_duration`. A fined
/// slash also takes the fine (capped at the stake) out of the stake; the
/// fine is returned, for the vault to send to the treasury.
pub fn _slash_miner(
    miner: &mut MinerInfo,
    is_fined: bool,
    acc: &SolLearnInfo,
    roster: &mut MinersOfModel,
    now: u64,
) -> (r: u64)
    requires
        acc.wf(),
        old(roster).wf(),
        now + acc.penalty_duration <= u64::MAX,
    ensures
        final(roster).data@ == roster_without(old(roster).data@, old(miner).miner),
        !final(roster).data@.contains(old(miner).miner),
        final(roster).model == old(roster).model,
        final(roster).wf(),
        r == if is_fined {
            fine_spec(*acc)
        } else {
            0
        },
        *final(miner) == slashed(*old(miner), is_fined, *acc, now),
{
    match find_key(&roster.data, &miner.miner) {
        Some(i) => {
            proof {
                lemma_remove_no_dup(roster.data@, i as int);
                roster.data@.index_of_first_ensures(miner.miner);
            }
            roster.data.remove(i);
        },
        None => {},
    }
    miner.active_time = now + acc.penalty_duration;
    miner.is_active = false;
    if is_fined {
        proof {
            assert(acc.miner_minimum_stake * acc.fine_percentage <= acc.miner_minimum_stake * 10000)
                by (nonlinear_arith)
                requires
                    acc.fine_percentage <= 10000,
            ;
        }
        let fine = (acc.miner_minimum_stake as u128 * acc.fine_percentage as u128
            / PERCENTAGE_DENOMINATOR as u128) as u64;
        if miner.stake_amount < fine {
            miner.stake_amount = 0;
        } else {
            miner.stake_amount = miner.stake_amount - fine;
        }
        fine
    } else {
        0
    }
}

/// Slashes the miner `target` by admin decision; returns the fine.
pub fn slash_miner_by_admin(
    acc: &SolLearnInfo,
    miner: &mut MinerInfo,
    roster: &mut MinersOfModel,
    signer: Key,
    target: Key,
    is_fined: bool,
    now: u64,
) -> (r: Result<u64, SolLearnError>)
    requires
        acc.wf(),
        old(roster).wf(),
        now + acc.penalty_duration <= u64::MAX,
    ensures
        r.is_err() <==> (signer != acc.admin || crate::hash::is_zero_key(target) || old(miner).miner
            != target || old(roster).model != old(miner).model),
        r.is_err() ==> r == Err::<u64, SolLearnError>(SolLearnError::Unauthorized) && *final(miner)
            == *old(miner) && final(roster).data@ == old(roster).data@,
        r.is_ok() ==> {
            &&& r.unwrap() == if is_fined {
                fine_spec(*acc)
            } else {
                0
            }
            &&& *final(miner) == slashed(*old(miner), is_fined, *acc, now)
            &&& final(roster).data@ == roster_without(old(roster).data@, target)
            &&& !final(roster).data@.contains(target)
        },
        final(roster).model == old(roster).model,
        final(roster).wf(),
{
    if !key_eq(&signer, &acc.admin) || key_is_zero(&target) || !key_eq(&miner.miner, &target)
        || !key_eq(&roster.model, &miner.model) {
        return Err(SolLearnError::Unauthorized);
    }
    Ok(_slash_miner(miner, is_fined, acc, roster, now))
}

/// A miner becomes active only with at least the minimum stake, and only
/// from inactive; joining leaves its stake as it was.
pub proof fn lemma_join_needs_min_stake(
    acc: SolLearnInfo,
    m: MinerInfo,
    roster: MinersOfModel,
    now: u64,
)
    requires
        join_error(acc, m, roster, now).is_none(),
    ensures
        m.stake_amount >= acc.miner_minimum_stake,
        !m.is_active,
        !roster.data@.contains(m.miner),
{
}

/// Joining keeps a roster free of duplicates, and the miner is then in it
/// exactly once.
pub proof fn lemma_join_roster_unique(
    acc: SolLearnInfo,
    m: MinerInfo,
    roster: MinersOfModel,
    now: u64,
)
    requires
        roster.wf(),
        join_error(acc, m, roster, now).is_none(),
    ensures
        roster.data@.push(m.miner).no_duplicates(),
        forall|i: int|
            0 <= i < roster.data@.len() + 1 && roster.data@.push(m.miner)[i] == m.miner ==> i
                == roster.data@.len(),
{
    lemma_push_no_dup(roster.data@, m.miner);
    assert forall|i: int|
        0 <= i < roster.data@.len() + 1 && roster.data@.push(m.miner)[i] == m.miner implies i
        == roster.data@.len() by {
        if i < roster.data@.len() {
            assert(roster.data@[i] == m.miner);
            assert(roster.data@.contains(m.miner));
        }
    }
}

/// A slash takes the miner out of a duplicate-free roster (if it was there)
/// and leaves the others, in order, still without duplicates.
pub proof fn lemma_slash_roster(s: Seq<Key>, k: Key)
    requires
        s.no_duplicates(),
    ensures
        roster_without(s, k).no_duplicates(),
        !roster_without(s, k).contains(k),
        forall|x: Key| x != k ==> (roster_without(s, k).contains(x) <==> s.contains(x)),
{
    if s.contains(k) {
        s.index_of_first_ensures(k);
        lemma_remove_no_dup(s, s.index_of(k));
    }
}

/// A slash never takes more than the stake: a fined slash lowers the stake
/// by the fine or to zero, an unfined one leaves it.
pub proof fn lemma_slash_stake(m: MinerInfo, is_fined: bool, acc: SolLearnInfo, now: u64)
    ensures
        slashed(m, is_fined, acc, now).stake_amount <= m.stake_amount,
        is_fined ==> slashed(m, is_fined, acc, now).stake_amount == m.stake_amount - if fine_spec(
            acc,
        ) < m.stake_amount {
            fine_spec(acc) as int
        } else {
            m.stake_amount as int
        },
        !is_fined ==> slashed(m, is_fined, acc, now).stake_amount == m.stake_amount,
        !slashed(m, is_fined, acc, now).is_active,
{
}

} // verus!
