//! The executors that permissionless callers run to drain the task queue:
//! each takes the task at the back, checks its kind and the records it
//! names, and carries it out.
use crate::error::SolLearnError;
use crate::hash::{is_zero_key, key_eq, key_is_zero, Key};
use crate::inference::{Assignment, AssignmentView};
use crate::miner::{_slash_miner, fine_spec, roster_without, slashed, MinerInfo};
use crate::registry::MinersOfModel;
use crate::state::SolLearnInfo;
use crate::task::{u64_at, TaskAction, Tasks};
use vstd::prelude::*;

verus! {

/// Why the payment at the back of the queue cannot be made to `recipient`
/// (through `asg` when it names an assignment), checked in this order.
pub open spec fn pay_miner_error(
    records: Seq<Seq<u8>>,
    asg: AssignmentView,
    recipient: Key,
    assignment_id: u64,
) -> Option<SolLearnError> {
    if records.len() == 0 || records.last()[0] != 1 {
        Some(SolLearnError::NoValidTask)
    } else if records.last()[1] == 1 {
        if asg.id != assignment_id || u64_at(records.last(), 2) != assignment_id {
            Some(SolLearnError::WrongAssignmentId)
        } else if recipient != asg.worker {
            Some(SolLearnError::WrongRecipient)
        } else {
            None
        }
    } else if recipient@ != records.last().subrange(2, 34) {
        Some(SolLearnError::WrongRecipient)
    } else {
        None
    }
}

/// Executes the payment at the back of the queue. A payment to an
/// assignment goes to its worker and records the vote it carries; a payment
/// to a fixed recipient goes to that recipient. Returns the amount the vault
/// transfers to `recipient`.
pub fn pay_miner(
    tasks: &mut Tasks,
    assignment: &mut Assignment,
    recipient: Key,
    assignment_id: u64,
) -> (r: Result<u64, SolLearnError>)
    requires
        old(tasks).wf(),
    ensures
        r.is_err() <==> pay_miner_error(old(tasks)@, old(assignment)@, recipient, assignment_id).is_some(),
        r.is_err() ==> r == Err::<u64, SolLearnError>(
            pay_miner_error(old(tasks)@, old(assignment)@, recipient, assignment_id).unwrap(),
        ) && final(tasks)@ == old(tasks)@ && final(assignment)@ == old(assignment)@,
        r.is_ok() ==> {
            let last = old(tasks)@.last();
            &&& final(tasks)@ == old(tasks)@.drop_last()
            &&& if last[1] == 1 {
                &&& r.unwrap() == u64_at(last, 10)
                &&& final(assignment)@ == if last[18] > 0 {
                    AssignmentView { vote: last[18], ..old(assignment)@ }
                } else {
                    old(assignment)@
                }
            } else {
                &&& r.unwrap() == u64_at(last, 34)
                &&& final(assignment)@ == old(assignment)@
            }
        },
        final(tasks).wf(),
{
    let t = match tasks.last_task() {
        None => {
            return Err(SolLearnError::NoValidTask);
        },
        Some(t) => t,
    };
    let action = t.decode();
    match action {
        TaskAction::PayByAssignment { assignment_id: id, amount, vote } => {
            if assignment.id != assignment_id || id != assignment_id {
                return Err(SolLearnError::WrongAssignmentId);
            }
            if !key_eq(&recipient, &assignment.worker) {
                return Err(SolLearnError::WrongRecipient);
            }
            if vote > 0 {
                assignment.vote = vote;
            }
            let _ = tasks.pop_task();
            Ok(amount)
        },
        TaskAction::PayToRecipient { recipient: to, amount } => {
            if !key_eq(&recipient, &to) {
                proof {
                    if recipient@ == to@ {
                        vstd::array::axiom_array_ext_equal(recipient, to);
                        assert(recipient@ =~= to@);
                    }
                }
                return Err(SolLearnError::WrongRecipient);
            }
            let _ = tasks.pop_task();
            Ok(amount)
        },
        _ => Err(SolLearnError::NoValidTask),
    }
}

/// Why the slash at the back of the queue cannot be carried out on `miner`
/// (through `asg` when it names an assignment), checked in this order.
pub open spec fn slash_miner_error(
    records: Seq<Seq<u8>>,
    miner: MinerInfo,
    roster: MinersOfModel,
    asg: AssignmentView,
    assignment_id: u64,
) -> Option<SolLearnError> {
    if records.len() == 0 || records.last()[0] != 2 {
        Some(SolLearnError::NoValidTask)
    } else if records.last()[1] == 1 {
        if miner.miner@ != records.last().subrange(2, 34) || roster.model != miner.model {
            Some(SolLearnError::Unauthorized)
        } else {
            None
        }
    } else if asg.id != assignment_id || u64_at(records.last(), 2) != assignment_id {
        Some(SolLearnError::Unauthorized)
    } else if records.last()[11] == 1 && !is_zero_key(asg.commitment) {
        None
    } else if asg.worker != miner.miner || roster.model != miner.model {
        Some(SolLearnError::Unauthorized)
    } else {
        None
    }
}

/// Whether the slash at the back of the queue is a commit-checked one whose
/// assignment did commit, so that running it slashes nobody.
pub open spec fn slash_skipped(records: Seq<Seq<u8>>, asg: AssignmentView) -> bool {
    records.last()[1] != 1 && records.last()[11] == 1 && !is_zero_key(asg.commitment)
}

/// Whether the slash at the back of the queue is fined.
pub open spec fn slash_fined(records: Seq<Seq<u8>>) -> bool {
    if records.last()[1] == 1 {
        records.last()[34] == 1
    } else {
        records.last()[10] == 1
    }
}

/// Executes the slash at the back of the queue. A slash naming a miner
/// applies to that miner; one naming an assignment applies to its worker,
/// records the vote it carries, and is skipped when it only targets empty
/// commitments and the assignment did commit. Returns the fine the vault
/// transfers to the treasury.
pub fn slash_miner(
    acc: &SolLearnInfo,
    tasks: &mut Tasks,
    miner: &mut MinerInfo,
    roster: &mut MinersOfModel,
    assignment: &mut Assignment,
    assignment_id: u64,
    now: u64,
) -> (r: Result<u64, SolLearnError>)
    requires
        acc.wf(),
        old(tasks).wf(),
        old(roster).wf(),
        now + acc.penalty_duration <= u64::MAX,
    ensures
        r.is_err() <==> slash_miner_error(old(tasks)@, *old(miner), *old(roster), old(assignment)@, assignment_id).is_some(),
        r.is_err() ==> r == Err::<u64, SolLearnError>(
            slash_miner_error(old(tasks)@, *old(miner), *old(roster), old(assignment)@, assignment_id).unwrap(),
        ) && final(tasks)@ == old(tasks)@ && final(assignment)@ == old(assignment)@ && *final(miner)
            == *old(miner) && final(roster).data@ == old(roster).data@,
        r.is_ok() && slash_skipped(old(tasks)@, old(assignment)@) ==> {
            &&& r.unwrap() == 0
            &&& final(tasks)@ == old(tasks)@.drop_last()
            &&& final(assignment)@ == old(assignment)@
            &&& *final(miner) == *old(miner)
            &&& final(roster).data@ == old(roster).data@
        },
        r.is_ok() && !slash_skipped(old(tasks)@, old(assignment)@) ==> {
            let last = old(tasks)@.last();
            let fined = slash_fined(old(tasks)@);
            &&& final(tasks)@ == old(tasks)@.drop_last()
            &&& r.unwrap() == if fined {
                fine_spec(*acc)
            } else {
                0
            }
            &&& *final(miner) == slashed(*old(miner), fined, *acc, now)
            &&& final(roster).data@ == roster_without(old(roster).data@, old(miner).miner)
            &&& final(assignment)@ == if last[1] != 1 && last[12] > 0 {
                AssignmentView { vote: last[12], ..old(assignment)@ }
            } else {
                old(assignment)@
            }
        },
        final(roster).model == old(roster).model,
        final(roster).wf(),
        final(tasks).wf(),
{
    let t = match tasks.last_task() {
        None => {
            return Err(SolLearnError::NoValidTask);
        },
        Some(t) => t,
    };
    let action = t.decode();
    match action {
        TaskAction::SlashByMiner { miner: target, is_fined } => {
            if !key_eq(&miner.miner, &target) || !key_eq(&roster.model, &miner.model) {
                proof {
                    if miner.miner@ == target@ {
                        vstd::array::axiom_array_ext_equal(miner.miner, target);
                        assert(miner.miner@ =~= target@);
                    }
                }
                return Err(SolLearnError::Unauthorized);
            }
            let _ = tasks.pop_task();
            Ok(_slash_miner(miner, is_fined, acc, roster, now))
        },
        TaskAction::SlashByAssignment { assignment_id: id, is_fined, check_empty_commit, vote } => {
            if assignment.id != assignment_id || id != assignment_id {
                return Err(SolLearnError::Unauthorized);
            }
            if check_empty_commit && !key_is_zero(&assignment.commitment) {
                let _ = tasks.pop_task();
                return Ok(0);
            }
            if !key_eq(&assignment.worker, &miner.miner) || !key_eq(&roster.model, &miner.model) {
                return Err(SolLearnError::Unauthorized);
            }
            if vote > 0 {
                assignment.vote = vote;
            }
            let _ = tasks.pop_task();
            Ok(_slash_miner(miner, is_fined, acc, roster, now))
        },
        _ => Err(SolLearnError::NoValidTask),
    }
}

} // verus!
