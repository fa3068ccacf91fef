//! Revealing commitments and resolving an inference: digest-majority
//! voting, the split of the reward pool, refunds, and the payout and slash
//! tasks each outcome queues.
use crate::error::SolLearnError;
use crate::hash::{commitment_hash, commitment_spec, digest_spec, is_zero_key, key_eq, key_is_zero, solution_digest, Key};
use crate::inference::{
    submit_error,
    bp_amount, bp_of, new_zero_key, outcome, position_of, zero_key, Assignment, AssignmentView,
    tally_wf, Inference, InferenceView, VotingInfo, ROLE_VALIDATOR, STATUS_COMMIT, STATUS_KILLED,
    STATUS_PROCESSED, STATUS_REVEAL, STATUS_SOLVING, VOTE_APPROVAL, VOTE_DISAPPROVAL,
};
use crate::state::SolLearnInfo;
use crate::task::{encode_spec, TaskAction, Tasks};
use vstd::prelude::*;

verus! {

/// How many entries of `s` equal `d`.
pub open spec fn count_of(s: Seq<Key>, d: Key) -> nat
    decreases s.len(),
{
    if s.len() == 0 {
        0
    } else {
        count_of(s.drop_last(), d) + if s.last() == d {
            1nat
        } else {
            0nat
        }
    }
}

/// Over the first `i` entries: the index of the first non-zero digest with
/// the highest count in all of `s` (-1 if none), and that count.
pub open spec fn best_upto(s: Seq<Key>, i: nat) -> (int, nat)
    decreases i,
{
    if i == 0 {
        (-1, 0)
    } else {
        let (b, c) = best_upto(s, (i - 1) as nat);
        let x = s[i - 1];
        if !is_zero_key(x) && count_of(s, x) > c {
            (i - 1, count_of(s, x))
        } else {
            (b, c)
        }
    }
}

/// The most voted non-zero digest of `s` (the first to appear among equally
/// voted ones; zero when every entry is zero) and its count.
pub open spec fn most_voted(s: Seq<Key>) -> (Key, nat) {
    let (b, c) = best_upto(s, s.len());
    (if b >= 0 { s[b] } else { zero_key() }, c)
}

pub proof fn lemma_count_bound(s: Seq<Key>, d: Key)
    ensures
        count_of(s, d) <= s.len(),
    decreases s.len(),
{
    if s.len() > 0 {
        lemma_count_bound(s.drop_last(), d);
    }
}

pub proof fn lemma_best_upto(s: Seq<Key>, i: nat)
    requires
        i <= s.len(),
    ensures
        -1 <= best_upto(s, i).0 < i,
        best_upto(s, i).0 == -1 <==> best_upto(s, i).1 == 0,
        best_upto(s, i).0 >= 0 ==> !is_zero_key(s[best_upto(s, i).0]) && count_of(
            s,
            s[best_upto(s, i).0],
        ) == best_upto(s, i).1,
        forall|j: int| 0 <= j < i && !is_zero_key(s[j]) ==> count_of(s, #[trigger] s[j]) <= best_upto(s, i).1,
        best_upto(s, i).1 <= s.len(),
    decreases i,
{
    if i > 0 {
        lemma_best_upto(s, (i - 1) as nat);
        lemma_count_bound(s, s[i - 1]);
        let x = s[i - 1];
        if !is_zero_key(x) {
            lemma_count_positive(s, i - 1);
        }
    }
}

/// A digest that occurs in `s` is counted at least once.
pub proof fn lemma_count_positive(s: Seq<Key>, j: int)
    requires
        0 <= j < s.len(),
    ensures
        count_of(s, s[j]) >= 1,
    decreases s.len(),
{
    if j < s.len() - 1 {
        lemma_count_positive(s.drop_last(), j);
        assert(s.drop_last()[j] == s[j]);
    }
}

/// The most voted digest occurs that many times, no non-zero digest occurs
/// more often, and a zero count means no non-zero digest at all.
pub proof fn lemma_most_voted(s: Seq<Key>)
    ensures
        most_voted(s).1 > 0 ==> !is_zero_key(most_voted(s).0) && count_of(s, most_voted(s).0)
            == most_voted(s).1,
        forall|j: int| 0 <= j < s.len() && !is_zero_key(s[j]) ==> count_of(s, #[trigger] s[j]) <= most_voted(s).1,
        most_voted(s).1 <= s.len(),
{
    lemma_best_upto(s, s.len());
}

/// How many entries of `s` equal `d`.
pub fn count_digest(s: &Vec<Key>, d: &Key) -> (r: u64)
    ensures
        r == count_of(s@, *d),
{
    let mut c: u64 = 0;
    let mut i: usize = 0;
    while i < s.len()
        invariant
            0 <= i <= s@.len(),
            c == count_of(s@.subrange(0, i as int), *d),
            c <= i,
        decreases s@.len() - i,
    {
        assert(s@.subrange(0, i + 1).drop_last() =~= s@.subrange(0, i as int));
        if key_eq(&s[i], d) {
            c = c + 1;
        }
        i = i + 1;
    }
    assert(s@.subrange(0, s@.len() as int) =~= s@);
    c
}

/// The most voted non-zero digest and its count.
pub fn find_most_voted_digest(list_digests: &Vec<Key>) -> (r: (Key, u64))
    ensures
        r.0 == most_voted(list_digests@).0,
        r.1 == most_voted(list_digests@).1,
{
    let s = list_digests;
    let mut best: Option<usize> = None;
    let mut max_count: u64 = 0;
    let mut i: usize = 0;
    while i < s.len()
        invariant
            0 <= i <= s@.len(),
            best_upto(s@, i as nat).1 == max_count,
            best_upto(s@, i as nat).0 == match best {
                Some(b) => b as int,
                None => -1,
            },
            best.is_some() ==> best.unwrap() < i,
        decreases s@.len() - i,
    {
        let c = count_digest(s, &s[i]);
        if !key_is_zero(&s[i]) && c > max_count {
            best = Some(i);
            max_count = c;
        }
        i = i + 1;
    }
    match best {
        Some(b) => (s[b], max_count),
        None => (new_zero_key(), max_count),
    }
}

/// The smallest count that is at least two thirds of `x`.
pub open spec fn threshold(x: nat) -> nat {
    (2 * x + 2) / 3
}

/// Votes needed for a digest majority among `x` assignments: two thirds,
/// rounded up.
pub fn get_threshold_value(x: u64) -> (r: u64)
    requires
        x <= u64::MAX / 2,
    ensures
        r == threshold(x as nat),
        3 * r >= 2 * x,
{
    x * 2 / 3 + if x % 3 == 0 {
        0
    } else {
        1
    }
}

/// Whether the seizer's digest is `d`.
pub open spec fn miner_matches(inf: InferenceView, d: Key) -> bool {
    match inf.miner_assignment {
        Some(a) => inf.assignments.contains(a) && inf.digests[inf.assignments.index_of(a)] == d,
        None => false,
    }
}

/// The seizer's pay when `c` assignments agree on `d`.
pub open spec fn fee_for_miner(acc: SolLearnInfo, inf: InferenceView, d: Key, c: nat) -> u64 {
    if miner_matches(inf, d) {
        if c > 1 {
            bp_of(inf.value, acc.fee_ratio_miner_validator)
        } else {
            inf.value
        }
    } else {
        0
    }
}

/// Each agreeing validator's pay when `c` assignments agree on `d`.
pub open spec fn share_per_validator(acc: SolLearnInfo, inf: InferenceView, d: Key, c: nat) -> u64 {
    if miner_matches(inf, d) {
        if c > 1 {
            ((inf.value - fee_for_miner(acc, inf, d, c)) as int / ((c - 1) as int)) as u64
        } else {
            0
        }
    } else if c > 0 {
        (inf.value as int / (c as int)) as u64
    } else {
        0
    }
}

/// The task for assignment `i` once the majority digest `d` is known: pay
/// and approve it if it agrees, slash it with a fine otherwise.
pub open spec fn assignment_action(acc: SolLearnInfo, inf: InferenceView, d: Key, c: nat, i: int) -> TaskAction {
    if inf.digests[i] != d {
        TaskAction::SlashByAssignment {
            assignment_id: inf.assignments[i],
            is_fined: true,
            check_empty_commit: false,
            vote: VOTE_DISAPPROVAL,
        }
    } else {
        TaskAction::PayByAssignment {
            assignment_id: inf.assignments[i],
            amount: if inf.miner_assignment == Some(inf.assignments[i]) {
                fee_for_miner(acc, inf, d, c)
            } else {
                share_per_validator(acc, inf, d, c)
            },
            vote: VOTE_APPROVAL,
        }
    }
}

/// Payments of the two fees that are not zero.
pub open spec fn fee_actions(acc: SolLearnInfo, inf: InferenceView) -> Seq<TaskAction> {
    (if inf.fee_l2 > 0 {
        seq![TaskAction::PayToRecipient { recipient: acc.l2_owner, amount: inf.fee_l2 }]
    } else {
        Seq::empty()
    }) + (if inf.fee_treasury > 0 {
        seq![TaskAction::PayToRecipient { recipient: acc.treasury, amount: inf.fee_treasury }]
    } else {
        Seq::empty()
    })
}

/// The tasks queued when the majority digest `d` has `c` votes.
pub open spec fn payout_actions(acc: SolLearnInfo, inf: InferenceView, d: Key, c: nat) -> Seq<TaskAction> {
    Seq::new(inf.assignments.len(), |i: int| assignment_action(acc, inf, d, c, i)) + fee_actions(
        acc,
        inf,
    )
}

/// Slashes, without fine, of every assignment that revealed nothing, among
/// the first `i`.
pub open spec fn unrevealed_upto(inf: InferenceView, i: nat) -> Seq<TaskAction>
    decreases i,
{
    if i == 0 {
        Seq::empty()
    } else {
        unrevealed_upto(inf, (i - 1) as nat) + if is_zero_key(inf.digests[i - 1]) {
            seq![
                TaskAction::SlashByAssignment {
                    assignment_id: inf.assignments[i - 1],
                    is_fined: false,
                    check_empty_commit: false,
                    vote: 0,
                },
            ]
        } else {
            Seq::empty()
        }
    }
}

/// Slashes, without fine, of every assignment that did not commit (checked
/// when the task runs).
pub open spec fn uncommitted_actions(inf: InferenceView) -> Seq<TaskAction> {
    Seq::new(
        inf.assignments.len(),
        |i: int|
            TaskAction::SlashByAssignment {
                assignment_id: inf.assignments[i],
                is_fined: false,
                check_empty_commit: true,
                vote: 0,
            },
    )
}

/// Whether the votes on `inf` reach the majority threshold.
pub open spec fn has_majority(inf: InferenceView) -> bool {
    let c = most_voted(inf.digests).1;
    c > 0 && c >= threshold(inf.assignments.len())
}

/// Tallying the reveals: with a majority, pay out and close; without one,
/// refund the creator, slash the silent assignments, and close.
pub open spec fn tally(acc: SolLearnInfo, inf: InferenceView) -> (InferenceView, Seq<TaskAction>, u64) {
    let closed = InferenceView { status: STATUS_PROCESSED, ..inf };
    if has_majority(inf) {
        let (d, c) = most_voted(inf.digests);
        (closed, payout_actions(acc, inf, d, c), 0)
    } else {
        (closed, unrevealed_upto(inf, inf.assignments.len()), inf.refund_total())
    }
}

/// The reveal phase: tallied once the deadline has passed or every
/// committed validator has revealed.
pub open spec fn reveal_stage(
    acc: SolLearnInfo,
    inf: InferenceView,
    voting: VotingInfo,
    now: u64,
) -> (InferenceView, Seq<TaskAction>, u64) {
    if now > inf.reveal_timeout || voting.total_reveal == voting.total_commit {
        tally(acc, inf)
    } else {
        (inf, Seq::empty(), 0)
    }
}

/// What resolving does at `now`: the request afterwards, the tasks queued,
/// and the refund owed to the creator.
pub open spec fn resolve_spec(
    acc: SolLearnInfo,
    inf: InferenceView,
    voting: VotingInfo,
    now: u64,
) -> (InferenceView, Seq<TaskAction>, u64) {
    if inf.status == STATUS_SOLVING {
        if now > inf.submit_timeout && inf.processed_miner.is_some() {
            (
                InferenceView { status: STATUS_KILLED, ..inf },
                seq![TaskAction::SlashByMiner { miner: inf.processed_miner.unwrap(), is_fined: true }],
                inf.refund_total(),
            )
        } else {
            (inf, Seq::empty(), 0)
        }
    } else if inf.status == STATUS_COMMIT {
        if now > inf.commit_timeout {
            if voting.total_commit + 1 >= inf.assignments.len() {
                reveal_stage(acc, InferenceView { status: STATUS_REVEAL, ..inf }, voting, now)
            } else {
                (
                    InferenceView { status: STATUS_PROCESSED, ..inf },
                    uncommitted_actions(inf),
                    inf.refund_total(),
                )
            }
        } else {
            (inf, Seq::empty(), 0)
        }
    } else if inf.status == STATUS_REVEAL {
        reveal_stage(acc, inf, voting, now)
    } else {
        (inf, Seq::empty(), 0)
    }
}

/// The records of a sequence of actions.
pub open spec fn encode_all(actions: Seq<TaskAction>) -> Seq<Seq<u8>> {
    actions.map_values(|a: TaskAction| encode_spec(a))
}

pub proof fn lemma_encode_all_push(s: Seq<TaskAction>, a: TaskAction)
    ensures
        encode_all(s.push(a)) == encode_all(s).push(encode_spec(a)),
{
    assert(encode_all(s.push(a)) =~= encode_all(s).push(encode_spec(a)));
}

pub proof fn lemma_encode_all_concat(s: Seq<TaskAction>, t: Seq<TaskAction>)
    ensures
        encode_all(s + t) == encode_all(s) + encode_all(t),
{
    assert(encode_all(s + t) =~= encode_all(s) + encode_all(t));
}

/// Queues one action.
fn push_action(tasks: &mut Tasks, a: TaskAction)
    requires
        old(tasks).wf(),
    ensures
        final(tasks).wf(),
        final(tasks)@ == old(tasks)@.push(encode_spec(a)),
{
    let t = a.encode();
    tasks.push_task(t);
}

/// Queues the fee payments that are due.
fn push_fee_actions(acc: &SolLearnInfo, inference: &Inference, tasks: &mut Tasks)
    requires
        old(tasks).wf(),
    ensures
        final(tasks).wf(),
        final(tasks)@ == old(tasks)@ + encode_all(fee_actions(*acc, inference@)),
{
    let ghost start = tasks@;
    let ghost l2 = if inference.fee_l2 > 0 {
        seq![TaskAction::PayToRecipient { recipient: acc.l2_owner, amount: inference.fee_l2 }]
    } else {
        Seq::<TaskAction>::empty()
    };
    if inference.fee_l2 > 0 {
        push_action(
            tasks,
            TaskAction::PayToRecipient { recipient: acc.l2_owner, amount: inference.fee_l2 },
        );
    }
    assert(tasks@ =~= start + encode_all(l2));
    let ghost mid = tasks@;
    if inference.fee_treasury > 0 {
        push_action(
            tasks,
            TaskAction::PayToRecipient { recipient: acc.treasury, amount: inference.fee_treasury },
        );
    }
    proof {
        let tr = if inference.fee_treasury > 0 {
            seq![TaskAction::PayToRecipient { recipient: acc.treasury, amount: inference.fee_treasury }]
        } else {
            Seq::<TaskAction>::empty()
        };
        assert(tasks@ =~= mid + encode_all(tr));
        lemma_encode_all_concat(l2, tr);
        assert(fee_actions(*acc, inference@) == l2 + tr);
    }
}

/// Whether the seizer's digest is `d`.
fn miner_digest_matches(inference: &Inference, d: &Key) -> (r: bool)
    requires
        inference@.wf(),
    ensures
        r == miner_matches(inference@, *d),
{
    match inference.miner_assignment {
        None => false,
        Some(a) => match position_of(&inference.assignments, a) {
            None => false,
            Some(k) => {
                proof {
                    inference@.assignments.index_of_first_ensures(a);
                }
                key_eq(&inference.digests[k], d)
            },
        },
    }
}

/// Tallies the revealed digests. With a majority, queues the payouts and
/// slashes of `payout_actions`, closes the request and returns `true`;
/// without one, changes nothing and returns `false`.
pub fn filter_commitment(acc: &SolLearnInfo, inference: &mut Inference, tasks: &mut Tasks) -> (r: bool)
    requires
        acc.wf(),
        old(inference)@.wf(),
        old(tasks).wf(),
        old(inference)@.assignments.len() <= u64::MAX / 2,
    ensures
        r == has_majority(old(inference)@),
        !r ==> final(inference)@ == old(inference)@ && final(tasks)@ == old(tasks)@,
        r ==> final(inference)@ == (InferenceView { status: STATUS_PROCESSED, ..old(inference)@ })
            && final(tasks)@ == old(tasks)@ + encode_all(
            payout_actions(
                *acc,
                old(inference)@,
                most_voted(old(inference)@.digests).0,
                most_voted(old(inference)@.digests).1,
            ),
        ),
        final(inference)@.wf(),
        final(tasks).wf(),
{
    let (d, c) = find_most_voted_digest(&inference.digests);
    let n = inference.assignments.len();
    let th = get_threshold_value(n as u64);
    if c == 0 || c < th {
        return false;
    }
    let ghost inf0 = inference@;
    let ghost cn = c as nat;
    proof {
        lemma_most_voted(inf0.digests);
    }
    let matches = miner_digest_matches(inference, &d);
    let p = inference.value;
    let fee: u64 = if matches {
        if c > 1 {
            bp_amount(p, acc.fee_ratio_miner_validator)
        } else {
            p
        }
    } else {
        0
    };
    let share: u64 = if matches {
        if c > 1 {
            (p - fee) / (c - 1)
        } else {
            0
        }
    } else {
        p / c
    };
    assert(fee == fee_for_miner(*acc, inf0, d, cn));
    assert(share == share_per_validator(*acc, inf0, d, cn));
    let ghost all = Seq::new(n as nat, |i: int| assignment_action(*acc, inf0, d, cn, i));
    let ghost start = tasks@;
    let mut i: usize = 0;
    while i < n
        invariant
            0 <= i <= n,
            n == inf0.assignments.len(),
            inference@ == inf0,
            inf0.wf(),
            fee == fee_for_miner(*acc, inf0, d, cn),
            share == share_per_validator(*acc, inf0, d, cn),
            all == Seq::new(n as nat, |i: int| assignment_action(*acc, inf0, d, cn, i)),
            tasks.wf(),
            tasks@ == start + encode_all(all.subrange(0, i as int)),
        decreases n - i,
    {
        let aid = inference.assignments[i];
        let action = if !key_eq(&inference.digests[i], &d) {
            TaskAction::SlashByAssignment {
                assignment_id: aid,
                is_fined: true,
                check_empty_commit: false,
                vote: VOTE_DISAPPROVAL,
            }
        } else {
            let amount = if inference.miner_assignment == Some(aid) {
                fee
            } else {
                share
            };
            TaskAction::PayByAssignment { assignment_id: aid, amount, vote: VOTE_APPROVAL }
        };
        assert(action == assignment_action(*acc, inf0, d, cn, i as int));
        push_action(tasks, action);
        proof {
            assert(all.subrange(0, i + 1) =~= all.subrange(0, i as int).push(action));
            lemma_encode_all_push(all.subrange(0, i as int), action);
        }
        i = i + 1;
    }
    assert(all.subrange(0, n as int) =~= all);
    let ghost mid = tasks@;
    push_fee_actions(acc, inference, tasks);
    proof {
        lemma_encode_all_concat(all, fee_actions(*acc, inf0));
    }
    inference.status = STATUS_PROCESSED;
    true
}

/// Queues a slash without fine of every assignment with an empty digest.
fn push_unrevealed(inference: &Inference, tasks: &mut Tasks)
    requires
        old(tasks).wf(),
        inference@.wf(),
    ensures
        final(tasks).wf(),
        final(tasks)@ == old(tasks)@ + encode_all(
            unrevealed_upto(inference@, inference@.assignments.len()),
        ),
{
    let ghost start = tasks@;
    let n = inference.assignments.len();
    let mut i: usize = 0;
    while i < n
        invariant
            0 <= i <= n,
            n == inference@.assignments.len(),
            inference@.wf(),
            tasks.wf(),
            tasks@ == start + encode_all(unrevealed_upto(inference@, i as nat)),
        decreases n - i,
    {
        if key_is_zero(&inference.digests[i]) {
            let a = TaskAction::SlashByAssignment {
                assignment_id: inference.assignments[i],
                is_fined: false,
                check_empty_commit: false,
                vote: 0,
            };
            push_action(tasks, a);
            proof {
                lemma_encode_all_push(unrevealed_upto(inference@, i as nat), a);
            }
        }
        proof {
            assert(unrevealed_upto(inference@, (i + 1) as nat) =~= unrevealed_upto(inference@, i as nat)
                + if is_zero_key(inference@.digests[i as int]) {
                seq![
                    TaskAction::SlashByAssignment {
                        assignment_id: inference@.assignments[i as int],
                        is_fined: false,
                        check_empty_commit: false,
                        vote: 0,
                    },
                ]
            } else {
                Seq::empty()
            });
        }
        i = i + 1;
    }
}

/// Queues a commit-checked slash without fine of every assignment.
fn push_uncommitted(inference: &Inference, tasks: &mut Tasks)
    requires
        old(tasks).wf(),
        inference@.wf(),
    ensures
        final(tasks).wf(),
        final(tasks)@ == old(tasks)@ + encode_all(uncommitted_actions(inference@)),
{
    let ghost start = tasks@;
    let ghost all = uncommitted_actions(inference@);
    let n = inference.assignments.len();
    let mut i: usize = 0;
    while i < n
        invariant
            0 <= i <= n,
            n == inference@.assignments.len(),
            all == uncommitted_actions(inference@),
            tasks.wf(),
            tasks@ == start + encode_all(all.subrange(0, i as int)),
        decreases n - i,
    {
        let a = TaskAction::SlashByAssignment {
            assignment_id: inference.assignments[i],
            is_fined: false,
            check_empty_commit: true,
            vote: 0,
        };
        push_action(tasks, a);
        proof {
            assert(all.subrange(0, i + 1) =~= all.subrange(0, i as int).push(a));
            lemma_encode_all_push(all.subrange(0, i as int), a);
        }
        i = i + 1;
    }
    assert(all.subrange(0, n as int) =~= all);
}

/// The reveal phase of `resolve_spec`.
fn reveal_stage_exec(
    acc: &SolLearnInfo,
    inference: &mut Inference,
    voting: &VotingInfo,
    tasks: &mut Tasks,
    now: u64,
) -> (r: u64)
    requires
        acc.wf(),
        old(inference)@.wf(),
        old(tasks).wf(),
        old(inference)@.assignments.len() <= u64::MAX / 2,
    ensures
        (final(inference)@, r) == (reveal_stage(*acc, old(inference)@, *voting, now).0, reveal_stage(
            *acc,
            old(inference)@,
            *voting,
            now,
        ).2),
        final(tasks)@ == old(tasks)@ + encode_all(reveal_stage(*acc, old(inference)@, *voting, now).1),
        final(inference)@.wf(),
        final(tasks).wf(),
{
    if now > inference.reveal_timeout || voting.total_reveal == voting.total_commit {
        if filter_commitment(acc, inference, tasks) {
            0
        } else {
            push_unrevealed(inference, tasks);
            inference.status = STATUS_PROCESSED;
            inference.value + inference.fee_l2 + inference.fee_treasury
        }
    } else {
        assert(tasks@ =~= old(tasks)@ + encode_all(Seq::empty()));
        0
    }
}

/// Advances a request whose deadlines have passed, as `resolve_spec` says,
/// and returns the refund owed to its creator.
fn resolve_core(
    acc: &SolLearnInfo,
    inference: &mut Inference,
    voting: &VotingInfo,
    tasks: &mut Tasks,
    now: u64,
) -> (r: u64)
    requires
        acc.wf(),
        old(inference)@.wf(),
        old(tasks).wf(),
        old(inference)@.assignments.len() <= u64::MAX / 2,
    ensures
        final(inference)@ == resolve_spec(*acc, old(inference)@, *voting, now).0,
        r == resolve_spec(*acc, old(inference)@, *voting, now).2,
        final(tasks)@ == old(tasks)@ + encode_all(resolve_spec(*acc, old(inference)@, *voting, now).1),
        final(inference)@.wf(),
        final(tasks).wf(),
{
    if inference.status == STATUS_SOLVING {
        if now > inference.submit_timeout && inference.processed_miner.is_some() {
            inference.status = STATUS_KILLED;
            let m = inference.processed_miner.unwrap();
            let a = TaskAction::SlashByMiner { miner: m, is_fined: true };
            push_action(tasks, a);
            assert(encode_all(seq![a]) =~= seq![encode_spec(a)]);
            return inference.value + inference.fee_l2 + inference.fee_treasury;
        }
    } else if inference.status == STATUS_COMMIT {
        if now > inference.commit_timeout {
            if voting.total_commit as u128 + 1 >= inference.assignments.len() as u128 {
                inference.status = STATUS_REVEAL;
                return reveal_stage_exec(acc, inference, voting, tasks, now);
            } else {
                push_uncommitted(inference, tasks);
                inference.status = STATUS_PROCESSED;
                return inference.value + inference.fee_l2 + inference.fee_treasury;
            }
        }
    } else if inference.status == STATUS_REVEAL {
        return reveal_stage_exec(acc, inference, voting, tasks, now);
    }
    assert(tasks@ =~= old(tasks)@ + encode_all(Seq::empty()));
    0
}

/// Advances the request `inference_id` as far as its deadlines and tallies
/// allow (see `resolve_spec`), queueing the resulting payout and slash
/// tasks. Returns the refund the vault owes the creator (0 if none).
pub fn resolve_inference(
    acc: &SolLearnInfo,
    inference: &mut Inference,
    voting: &VotingInfo,
    tasks: &mut Tasks,
    inference_id: u64,
    now: u64,
) -> (r: Result<u64, SolLearnError>)
    requires
        acc.wf(),
        old(inference)@.wf(),
        old(tasks).wf(),
        old(inference)@.assignments.len() <= u64::MAX / 2,
    ensures
        old(inference).id != inference_id ==> r == Err::<u64, SolLearnError>(
            SolLearnError::WrongInferenceId,
        ) && final(inference)@ == old(inference)@ && final(tasks)@ == old(tasks)@,
        old(inference).id == inference_id ==> {
            let (inf, actions, refund) = resolve_spec(*acc, old(inference)@, *voting, now);
            &&& r == Ok::<u64, SolLearnError>(refund)
            &&& final(inference)@ == inf
            &&& final(tasks)@ == old(tasks)@ + encode_all(actions)
        },
        final(inference)@.wf(),
        final(tasks).wf(),
{
    if inference.id != inference_id {
        return Err(SolLearnError::WrongInferenceId);
    }
    Ok(resolve_core(acc, inference, voting, tasks, now))
}

/// Once a request is processed or killed, resolving it again changes
/// nothing, queues nothing and refunds nothing.
pub proof fn lemma_resolve_idempotent(
    acc: SolLearnInfo,
    inf: InferenceView,
    voting: VotingInfo,
    now: u64,
)
    requires
        inf.status == STATUS_PROCESSED || inf.status == STATUS_KILLED,
    ensures
        resolve_spec(acc, inf, voting, now) == (inf, Seq::<TaskAction>::empty(), 0u64),
{
}

/// Every resolution that changes the status leaves the request processed or
/// killed, or in the reveal phase; and from either terminal status a second
/// resolution is a no-op.
pub proof fn lemma_resolve_twice(
    acc: SolLearnInfo,
    inf: InferenceView,
    voting: VotingInfo,
    now: u64,
    later: u64,
)
    requires
        resolve_spec(acc, inf, voting, now).0.status == STATUS_PROCESSED
            || resolve_spec(acc, inf, voting, now).0.status == STATUS_KILLED,
    ensures
        resolve_spec(acc, resolve_spec(acc, inf, voting, now).0, voting, later) == (
            resolve_spec(acc, inf, voting, now).0,
            Seq::<TaskAction>::empty(),
            0u64,
        ),
{
}

/// The checks of a reveal that come before the commitment is opened, in
/// this order. A slot already holding a digest means the assignment has
/// revealed before.
pub open spec fn reveal_precheck(
    inf: InferenceView,
    asg: AssignmentView,
    voting: VotingInfo,
    signer: Key,
    assignment_id: u64,
    inference_id: u64,
    now: u64,
) -> Option<SolLearnError> {
    if asg.id != assignment_id || asg.worker != signer || asg.inference_id != inference_id || inf.id
        != inference_id || !inf.assignments.contains(assignment_id) || asg.role != ROLE_VALIDATOR
        || is_zero_key(asg.commitment) {
        Some(SolLearnError::Unauthorized)
    } else if !is_zero_key(inf.digests[inf.assignments.index_of(assignment_id)]) {
        Some(SolLearnError::InvalidReveal)
    } else if now > inf.reveal_timeout {
        Some(SolLearnError::DeadlinePassed)
    } else if inf.status != STATUS_COMMIT && inf.status != STATUS_REVEAL {
        Some(SolLearnError::Unauthorized)
    } else if voting.total_reveal >= voting.total_commit {
        Some(SolLearnError::Unauthorized)
    } else {
        None
    }
}

/// Why a reveal would be refused: the prechecks, then a commitment that is
/// not the hash of `(nonce, signer, data)`.
pub open spec fn reveal_error(
    inf: InferenceView,
    asg: AssignmentView,
    voting: VotingInfo,
    signer: Key,
    assignment_id: u64,
    inference_id: u64,
    nonce: u64,
    data: Seq<u8>,
    now: u64,
) -> Option<SolLearnError> {
    match reveal_precheck(inf, asg, voting, signer, assignment_id, inference_id, now) {
        Some(e) => Some(e),
        None => if asg.commitment@ != commitment_spec(nonce, signer, data) {
            Some(SolLearnError::InvalidReveal)
        } else {
            None
        },
    }
}

/// The request once assignment `assignment_id` has revealed digest `d`.
pub open spec fn revealed(inf: InferenceView, assignment_id: u64, d: Key) -> InferenceView {
    InferenceView {
        status: STATUS_REVEAL,
        digests: inf.digests.update(inf.assignments.index_of(assignment_id), d),
        ..inf
    }
}

/// The request, tasks and refund after a reveal: when the last validator
/// has revealed the request is resolved on the spot.
pub open spec fn after_reveal(
    acc: SolLearnInfo,
    inf: InferenceView,
    voting: VotingInfo,
    now: u64,
) -> (InferenceView, Seq<TaskAction>, u64) {
    if voting.total_reveal + 1 == inf.assignments.len() {
        resolve_spec(acc, inf, voting, now)
    } else {
        (inf, Seq::empty(), 0)
    }
}

/// A validator opens its commitment with `nonce` and `data`; its digest
/// fills its slot. Returns the refund owed to the creator if the reveal
/// completed the tally and no majority was found (else 0).
pub fn reveal_solution(
    acc: &SolLearnInfo,
    inference: &mut Inference,
    assignment: &mut Assignment,
    voting: &mut VotingInfo,
    tasks: &mut Tasks,
    signer: Key,
    assignment_id: u64,
    inference_id: u64,
    nonce: u64,
    data: Vec<u8>,
    now: u64,
) -> (r: Result<u64, SolLearnError>)
    requires
        acc.wf(),
        old(inference)@.wf(),
        old(tasks).wf(),
        old(inference)@.assignments.len() <= u64::MAX / 2,
        tally_wf(*old(voting), old(inference)@),
    ensures
        r.is_err() <==> reveal_error(
            old(inference)@,
            old(assignment)@,
            *old(voting),
            signer,
            assignment_id,
            inference_id,
            nonce,
            data@,
            now,
        ).is_some(),
        r.is_err() ==> r == Err::<u64, SolLearnError>(
            reveal_error(
                old(inference)@,
                old(assignment)@,
                *old(voting),
                signer,
                assignment_id,
                inference_id,
                nonce,
                data@,
                now,
            ).unwrap(),
        ),
        r.is_err() ==> final(inference)@ == old(inference)@ && final(assignment)@ == old(assignment)@
            && *final(voting) == *old(voting) && final(tasks)@ == old(tasks)@,
        r.is_ok() ==> {
            let d = final(assignment).digest;
            let v1 = VotingInfo { total_reveal: (old(voting).total_reveal + 1) as u64, ..*old(voting) };
            let (inf, actions, refund) = after_reveal(
                *acc,
                revealed(old(inference)@, assignment_id, d),
                v1,
                now,
            );
            &&& d@ == digest_spec(inference_id, data@)
            &&& final(assignment)@ == (AssignmentView {
                reveal_nonce: nonce,
                output: data@,
                digest: d,
                ..old(assignment)@
            })
            &&& *final(voting) == v1
            &&& final(inference)@ == inf
            &&& r == Ok::<u64, SolLearnError>(refund)
            &&& final(tasks)@ == old(tasks)@ + encode_all(actions)
        },
        r.is_ok() && final(voting).total_reveal + 1 == final(inference)@.assignments.len()
            ==> final(inference)@.status == STATUS_PROCESSED,
        final(inference)@.wf(),
        final(tasks).wf(),
        tally_wf(*final(voting), final(inference)@),
{
    if assignment.id != assignment_id || !key_eq(&assignment.worker, &signer)
        || assignment.inference_id != inference_id || inference.id != inference_id
        || assignment.role != ROLE_VALIDATOR || key_is_zero(&assignment.commitment) {
        return Err(SolLearnError::Unauthorized);
    }
    let idx = match position_of(&inference.assignments, assignment_id) {
        Some(i) => i,
        None => {
            return Err(SolLearnError::Unauthorized);
        },
    };
    proof {
        inference@.assignments.index_of_first_ensures(assignment_id);
    }
    if !key_is_zero(&inference.digests[idx]) {
        return Err(SolLearnError::InvalidReveal);
    }
    if now > inference.reveal_timeout {
        return Err(SolLearnError::DeadlinePassed);
    }
    if inference.status != STATUS_COMMIT && inference.status != STATUS_REVEAL {
        return Err(SolLearnError::Unauthorized);
    }
    if voting.total_reveal >= voting.total_commit {
        return Err(SolLearnError::Unauthorized);
    }
    let opened = commitment_hash(nonce, &signer, &data);
    if !key_eq(&opened, &assignment.commitment) {
        proof {
            if opened@ == assignment.commitment@ {
                vstd::array::axiom_array_ext_equal(opened, assignment.commitment);
                assert(opened@ =~= assignment.commitment@);
            }
        }
        return Err(SolLearnError::InvalidReveal);
    }
    let d = solution_digest(inference_id, &data);
    inference.status = STATUS_REVEAL;
    inference.digests.set(idx, d);
    assignment.reveal_nonce = nonce;
    assignment.output = data;
    assignment.digest = d;
    voting.total_reveal = voting.total_reveal + 1;
    if voting.total_reveal as u128 + 1 == inference.assignments.len() as u128 {
        let refund = resolve_core(acc, inference, voting, tasks, now);
        Ok(refund)
    } else {
        assert(tasks@ =~= old(tasks)@ + encode_all(Seq::empty()));
        Ok(0)
    }
}

/// Resolving never touches the committee or its digests.
pub proof fn lemma_resolve_keeps_votes(
    acc: SolLearnInfo,
    inf: InferenceView,
    voting: VotingInfo,
    now: u64,
)
    ensures
        resolve_spec(acc, inf, voting, now).0 == (InferenceView {
            status: resolve_spec(acc, inf, voting, now).0.status,
            ..inf
        }),
{
}

/// A validator that has revealed (with a non-zero digest) and tries to
/// reveal again is refused with `InvalidReveal`, whatever it sends and
/// whenever it tries.
pub proof fn lemma_double_reveal(
    acc: SolLearnInfo,
    inf: InferenceView,
    asg: AssignmentView,
    voting: VotingInfo,
    signer: Key,
    assignment_id: u64,
    inference_id: u64,
    nonce: u64,
    data: Seq<u8>,
    now: u64,
    d: Key,
    nonce2: u64,
    data2: Seq<u8>,
    now2: u64,
)
    requires
        inf.wf(),
        reveal_error(inf, asg, voting, signer, assignment_id, inference_id, nonce, data, now).is_none(),
        d@ == digest_spec(inference_id, data),
        !is_zero_key(d),
    ensures
        ({
            let asg1 = AssignmentView { reveal_nonce: nonce, output: data, digest: d, ..asg };
            let v1 = VotingInfo { total_reveal: (voting.total_reveal + 1) as u64, ..voting };
            let inf1 = after_reveal(acc, revealed(inf, assignment_id, d), v1, now).0;
            reveal_error(inf1, asg1, v1, signer, assignment_id, inference_id, nonce2, data2, now2)
                == Some(SolLearnError::InvalidReveal)
        }),
{
    let v1 = VotingInfo { total_reveal: (voting.total_reveal + 1) as u64, ..voting };
    let inf0 = revealed(inf, assignment_id, d);
    lemma_resolve_keeps_votes(acc, inf0, v1, now);
    inf.assignments.index_of_first_ensures(assignment_id);
}

/// Opening a commitment succeeds exactly with the nonce, identity and
/// output it was made from: once the prechecks pass, a reveal whose hash is
/// the commitment is accepted, and one whose hash differs (any field
/// altered, barring a hash collision) is refused with `InvalidReveal`.
pub proof fn lemma_commit_reveal_round_trip(
    inf: InferenceView,
    asg: AssignmentView,
    voting: VotingInfo,
    signer: Key,
    assignment_id: u64,
    inference_id: u64,
    now: u64,
    committed_nonce: u64,
    committed_worker: Key,
    committed_data: Seq<u8>,
    nonce: u64,
    data: Seq<u8>,
)
    requires
        reveal_precheck(inf, asg, voting, signer, assignment_id, inference_id, now).is_none(),
        asg.commitment@ == commitment_spec(committed_nonce, committed_worker, committed_data),
    ensures
        nonce == committed_nonce && signer == committed_worker && data == committed_data
            ==> reveal_error(inf, asg, voting, signer, assignment_id, inference_id, nonce, data, now)
            .is_none(),
        commitment_spec(nonce, signer, data) != commitment_spec(
            committed_nonce,
            committed_worker,
            committed_data,
        ) ==> reveal_error(inf, asg, voting, signer, assignment_id, inference_id, nonce, data, now)
            == Some(SolLearnError::InvalidReveal),
{
}

/// The amount an action pays out (0 for a slash or an assignment creation).
pub open spec fn paid_by(a: TaskAction) -> int {
    match a {
        TaskAction::PayByAssignment { amount, .. } => amount as int,
        TaskAction::PayToRecipient { amount, .. } => amount as int,
        _ => 0,
    }
}

/// The total paid out by a sequence of actions.
pub open spec fn paid_total(actions: Seq<TaskAction>) -> int
    decreases actions.len(),
{
    if actions.len() == 0 {
        0
    } else {
        paid_total(actions.drop_last()) + paid_by(actions.last())
    }
}

pub proof fn lemma_paid_total_concat(s: Seq<TaskAction>, t: Seq<TaskAction>)
    ensures
        paid_total(s + t) == paid_total(s) + paid_total(t),
    decreases t.len(),
{
    if t.len() == 0 {
        assert(s + t =~= s);
    } else {
        lemma_paid_total_concat(s, t.drop_last());
        assert((s + t).drop_last() =~= s + t.drop_last());
    }
}

/// Sequences of slashes pay nothing.
pub open spec fn pays_nothing(actions: Seq<TaskAction>) -> bool {
    forall|i: int| 0 <= i < actions.len() ==> paid_by(#[trigger] actions[i]) == 0
}

pub proof fn lemma_pays_nothing(actions: Seq<TaskAction>)
    requires
        pays_nothing(actions),
    ensures
        paid_total(actions) == 0,
    decreases actions.len(),
{
    if actions.len() > 0 {
        assert(paid_by(actions[actions.len() - 1]) == 0);
        assert forall|i: int| 0 <= i < actions.drop_last().len() implies paid_by(
            #[trigger] actions.drop_last()[i],
        ) == 0 by {
            assert(actions.drop_last()[i] == actions[i]);
        }
        lemma_pays_nothing(actions.drop_last());
    }
}

pub proof fn lemma_unrevealed_pays_nothing(inf: InferenceView, i: nat)
    requires
        i <= inf.assignments.len(),
        inf.wf(),
    ensures
        pays_nothing(unrevealed_upto(inf, i)),
    decreases i,
{
    if i > 0 {
        lemma_unrevealed_pays_nothing(inf, (i - 1) as nat);
        let prev = unrevealed_upto(inf, (i - 1) as nat);
        let cur = unrevealed_upto(inf, i);
        assert forall|j: int| 0 <= j < cur.len() implies paid_by(#[trigger] cur[j]) == 0 by {
            if j < prev.len() {
                assert(cur[j] == prev[j]);
            }
        }
    }
}

/// The position of the seizer's assignment (-1 before a seizure).
pub open spec fn miner_index(inf: InferenceView) -> int {
    match inf.miner_assignment {
        Some(a) => inf.assignments.index_of(a),
        None => -1,
    }
}

/// The sum of the first `k` assignment payouts, in closed form.
proof fn lemma_assignment_payouts(
    acc: SolLearnInfo,
    inf: InferenceView,
    d: Key,
    c: nat,
    k: nat,
)
    requires
        inf.wf(),
        k <= inf.assignments.len(),
    ensures
        ({
            let all = Seq::new(inf.assignments.len(), |i: int| assignment_action(acc, inf, d, c, i));
            let m = miner_index(inf);
            let miner_in = miner_matches(inf, d) && m < k;
            let cnt = count_of(inf.digests.subrange(0, k as int), d);
            &&& cnt >= if miner_in { 1nat } else { 0nat }
            &&& paid_total(all.subrange(0, k as int)) == (if miner_in {
                fee_for_miner(acc, inf, d, c) as int
            } else {
                0
            }) + share_per_validator(acc, inf, d, c) * (cnt - if miner_in {
                1int
            } else {
                0int
            })
        }),
    decreases k,
{
    let all = Seq::new(inf.assignments.len(), |i: int| assignment_action(acc, inf, d, c, i));
    let fee = fee_for_miner(acc, inf, d, c) as int;
    let share = share_per_validator(acc, inf, d, c) as int;
    if inf.miner_assignment.is_some() {
        inf.assignments.index_of_first_ensures(inf.miner_assignment.unwrap());
    }
    let m = miner_index(inf);
    if k == 0 {
        assert(all.subrange(0, 0) =~= Seq::<TaskAction>::empty());
        assert(inf.digests.subrange(0, 0) =~= Seq::<Key>::empty());
    } else {
        let j = (k - 1) as nat;
        lemma_assignment_payouts(acc, inf, d, c, j);
        assert(all.subrange(0, k as int).drop_last() =~= all.subrange(0, j as int));
        assert(inf.digests.subrange(0, k as int).drop_last() =~= inf.digests.subrange(0, j as int));
        let miner_in_j = miner_matches(inf, d) && m < j;
        let miner_in_k = miner_matches(inf, d) && m < k;
        let cnt_j = count_of(inf.digests.subrange(0, j as int), d);
        let cnt_k = count_of(inf.digests.subrange(0, k as int), d);
        let a = all[j as int];
        assert(a == assignment_action(acc, inf, d, c, j as int));
        if inf.digests[j as int] != d {
            assert(cnt_k == cnt_j);
            assert(paid_by(a) == 0);
            if miner_matches(inf, d) {
                assert(m != j);
            }
        } else {
            assert(cnt_k == cnt_j + 1);
            if inf.miner_assignment == Some(inf.assignments[j as int]) {
                assert(m == j);
                assert(miner_matches(inf, d));
                assert(paid_by(a) == fee);
            } else {
                assert(paid_by(a) == share);
                if miner_matches(inf, d) {
                    assert(m != j);
                }
            }
            let bj: int = if miner_in_j {
                1
            } else {
                0
            };
            let x = cnt_j - bj;
            assert(share * (x + 1) == share * x + share) by (nonlinear_arith);
        }
    }
}

/// A majority payout pays at most the reward pool to the committee, plus
/// the two fees.
pub proof fn lemma_payouts_within_value(acc: SolLearnInfo, inf: InferenceView)
    requires
        acc.wf(),
        inf.wf(),
        has_majority(inf),
    ensures
        paid_total(payout_actions(acc, inf, most_voted(inf.digests).0, most_voted(inf.digests).1))
            <= inf.value + inf.fee_l2 + inf.fee_treasury,
{
    let (d, c) = most_voted(inf.digests);
    let n = inf.assignments.len();
    let all = Seq::new(n, |i: int| assignment_action(acc, inf, d, c, i));
    lemma_most_voted(inf.digests);
    lemma_assignment_payouts(acc, inf, d, c, n);
    assert(all.subrange(0, n as int) =~= all);
    assert(inf.digests.subrange(0, n as int) =~= inf.digests);
    let p = inf.value as int;
    let fee = fee_for_miner(acc, inf, d, c) as int;
    let share = share_per_validator(acc, inf, d, c) as int;
    if inf.miner_assignment.is_some() {
        inf.assignments.index_of_first_ensures(inf.miner_assignment.unwrap());
    }
    if miner_matches(inf, d) {
        if c > 1 {
            let ratio = acc.fee_ratio_miner_validator as int;
            assert(p * ratio / 10000 <= p) by (nonlinear_arith)
                requires
                    ratio <= 10000,
                    ratio >= 0,
                    p >= 0,
            {
                assert(p * ratio <= p * 10000);
            }
            assert(fee == p * ratio / 10000);
            let q = c as int - 1;
            assert(share * q <= p - fee) by (nonlinear_arith)
                requires
                    share == (p - fee) / q,
                    q > 0,
                    p - fee >= 0,
            ;
        }
    } else {
        assert(share * c <= p) by (nonlinear_arith)
            requires
                share == p / (c as int),
                c > 0,
                p >= 0,
        ;
    }
    let fees = fee_actions(acc, inf);
    lemma_paid_total_concat(all, fees);
    let l2 = if inf.fee_l2 > 0 {
        seq![TaskAction::PayToRecipient { recipient: acc.l2_owner, amount: inf.fee_l2 }]
    } else {
        Seq::<TaskAction>::empty()
    };
    let tr = if inf.fee_treasury > 0 {
        seq![TaskAction::PayToRecipient { recipient: acc.treasury, amount: inf.fee_treasury }]
    } else {
        Seq::<TaskAction>::empty()
    };
    lemma_paid_total_concat(l2, tr);
    assert(paid_total(Seq::<TaskAction>::empty()) == 0);
    if inf.fee_l2 > 0 {
        assert(l2.drop_last() =~= Seq::<TaskAction>::empty());
        assert(paid_total(l2) == paid_total(l2.drop_last()) + paid_by(l2.last()));
    }
    if inf.fee_treasury > 0 {
        assert(tr.drop_last() =~= Seq::<TaskAction>::empty());
        assert(paid_total(tr) == paid_total(tr.drop_last()) + paid_by(tr.last()));
    }
    assert(paid_total(l2) <= inf.fee_l2);
    assert(paid_total(tr) <= inf.fee_treasury);
    assert(fees == l2 + tr);
}

/// Whatever a resolution does, what it pays out plus what it refunds is at
/// most what the creator put in after the scoring fee: the reward pool plus
/// the two fees.
pub proof fn lemma_resolution_within_funds(
    acc: SolLearnInfo,
    inf: InferenceView,
    voting: VotingInfo,
    now: u64,
)
    requires
        acc.wf(),
        inf.wf(),
    ensures
        paid_total(resolve_spec(acc, inf, voting, now).1) + resolve_spec(acc, inf, voting, now).2
            <= inf.value + inf.fee_l2 + inf.fee_treasury,
{
    let (inf2, actions, refund) = resolve_spec(acc, inf, voting, now);
    let r3 = InferenceView { status: STATUS_REVEAL, ..inf };
    assert(r3.wf());
    if has_majority(inf) {
        lemma_payouts_within_value(acc, inf);
    } else {
        lemma_unrevealed_pays_nothing(inf, inf.assignments.len());
    }
    if has_majority(r3) {
        lemma_payouts_within_value(acc, r3);
    } else {
        lemma_unrevealed_pays_nothing(r3, r3.assignments.len());
    }
    assert(pays_nothing(uncommitted_actions(inf)));
    let k = seq![TaskAction::SlashByMiner { miner: inf.processed_miner.unwrap(), is_fined: true }];
    assert(pays_nothing(k));
    assert(pays_nothing(Seq::<TaskAction>::empty()));
    lemma_pays_nothing(uncommitted_actions(inf));
    lemma_pays_nothing(k);
    lemma_pays_nothing(Seq::<TaskAction>::empty());
    if !has_majority(inf) {
        lemma_pays_nothing(unrevealed_upto(inf, inf.assignments.len()));
    }
    if !has_majority(r3) {
        lemma_pays_nothing(unrevealed_upto(r3, r3.assignments.len()));
    }
}

/// The submission deadline is inclusive: a seizer that may submit at some
/// time may still submit exactly at the deadline, is refused one slot
/// later, and from then on resolving kills the request, refunds the creator
/// and queues a fined slash of the seizer (while at the deadline itself
/// resolving changes nothing).
pub proof fn lemma_submit_deadline(
    acc: SolLearnInfo,
    inf: InferenceView,
    asg: AssignmentView,
    voting: VotingInfo,
    signer: Key,
    assignment_id: u64,
    inference_id: u64,
    some_time: u64,
)
    requires
        inf.wf(),
        submit_error(inf, asg, signer, assignment_id, inference_id, some_time).is_none(),
        inf.submit_timeout < u64::MAX,
    ensures
        submit_error(inf, asg, signer, assignment_id, inference_id, inf.submit_timeout).is_none(),
        submit_error(inf, asg, signer, assignment_id, inference_id, (inf.submit_timeout + 1) as u64)
            == Some(SolLearnError::DeadlinePassed),
        resolve_spec(acc, inf, voting, inf.submit_timeout) == (inf, Seq::<TaskAction>::empty(), 0u64),
        resolve_spec(acc, inf, voting, (inf.submit_timeout + 1) as u64) == (
            InferenceView { status: STATUS_KILLED, ..inf },
            seq![TaskAction::SlashByMiner { miner: inf.processed_miner.unwrap(), is_fined: true }],
            inf.refund_total(),
        ),
{
}

} // verus!
