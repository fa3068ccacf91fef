//! Inference requests and committee assignments: creating a request,
//! materializing assignments, seizing the miner role, submitting a solution
//! and committing.
use crate::error::SolLearnError;
use crate::hash::{digest_spec, is_zero_key, key_eq, key_is_zero, solution_digest, Key};
use crate::registry::{
    committee_spec, find_key, roster_after_selection, select_committee, MinersOfModel, Models,
};
use crate::state::{SolLearnInfo, PERCENTAGE_DENOMINATOR};
use crate::task::{decodes_to, encode_spec, TaskAction, Tasks};
use vstd::prelude::*;

verus! {

/// Inference status codes.
pub const STATUS_SOLVING: u8 = 1;
pub const STATUS_COMMIT: u8 = 2;
pub const STATUS_REVEAL: u8 = 3;
pub const STATUS_PROCESSED: u8 = 4;
pub const STATUS_KILLED: u8 = 5;

/// Assignment roles.
pub const ROLE_VALIDATOR: u8 = 1;
pub const ROLE_MINER: u8 = 2;

/// Votes recorded on assignments.
pub const VOTE_DISAPPROVAL: u8 = 1;
pub const VOTE_APPROVAL: u8 = 2;

/// One inference request.
pub struct Inference {
    pub id: u64,
    /// The committee's assignment ids, in draw order.
    pub assignments: Vec<u64>,
    /// One digest per assignment, zero until submitted or revealed.
    pub digests: Vec<Key>,
    pub input: Vec<u8>,
    /// The reward pool left after the scoring fee and the two fees.
    pub value: u64,
    pub fee_l2: u64,
    pub fee_treasury: u64,
    pub model_address: Key,
    pub submit_timeout: u64,
    pub commit_timeout: u64,
    pub reveal_timeout: u64,
    pub status: u8,
    pub creator: Key,
    /// The miner that seized the miner role, and its assignment.
    pub processed_miner: Option<Key>,
    pub miner_assignment: Option<u64>,
    pub referrer: Key,
}

pub struct InferenceView {
    pub id: u64,
    pub assignments: Seq<u64>,
    pub digests: Seq<Key>,
    pub input: Seq<u8>,
    pub value: u64,
    pub fee_l2: u64,
    pub fee_treasury: u64,
    pub model_address: Key,
    pub submit_timeout: u64,
    pub commit_timeout: u64,
    pub reveal_timeout: u64,
    pub status: u8,
    pub creator: Key,
    pub processed_miner: Option<Key>,
    pub miner_assignment: Option<u64>,
    pub referrer: Key,
}

impl View for Inference {
    type V = InferenceView;

    open spec fn view(&self) -> InferenceView {
        InferenceView {
            id: self.id,
            assignments: self.assignments@,
            digests: self.digests@,
            input: self.input@,
            value: self.value,
            fee_l2: self.fee_l2,
            fee_treasury: self.fee_treasury,
            model_address: self.model_address,
            submit_timeout: self.submit_timeout,
            commit_timeout: self.commit_timeout,
            reveal_timeout: self.reveal_timeout,
            status: self.status,
            creator: self.creator,
            processed_miner: self.processed_miner,
            miner_assignment: self.miner_assignment,
            referrer: self.referrer,
        }
    }
}

impl InferenceView {
    /// Digests align with assignments, assignment ids are distinct, the
    /// seizer's assignment belongs to the committee, and the refundable total
    /// fits in a `u64`.
    pub open spec fn wf(&self) -> bool {
        &&& self.digests.len() == self.assignments.len()
        &&& self.assignments.no_duplicates()
        &&& self.processed_miner.is_some() == self.miner_assignment.is_some()
        &&& self.miner_assignment.is_some() ==> self.assignments.contains(
            self.miner_assignment.unwrap(),
        )
        &&& self.value + self.fee_l2 + self.fee_treasury <= u64::MAX
    }

    /// What the creator gets back on a refund.
    pub open spec fn refund_total(&self) -> u64 {
        (self.value + self.fee_l2 + self.fee_treasury) as u64
    }
}

/// A committee member's work on one inference.
pub struct Assignment {
    pub id: u64,
    pub inference_id: u64,
    pub commitment: Key,
    pub digest: Key,
    pub reveal_nonce: u64,
    pub worker: Key,
    pub role: u8,
    pub vote: u8,
    pub output: Vec<u8>,
}

pub struct AssignmentView {
    pub id: u64,
    pub inference_id: u64,
    pub commitment: Key,
    pub digest: Key,
    pub reveal_nonce: u64,
    pub worker: Key,
    pub role: u8,
    pub vote: u8,
    pub output: Seq<u8>,
}

impl View for Assignment {
    type V = AssignmentView;

    open spec fn view(&self) -> AssignmentView {
        AssignmentView {
            id: self.id,
            inference_id: self.inference_id,
            commitment: self.commitment,
            digest: self.digest,
            reveal_nonce: self.reveal_nonce,
            worker: self.worker,
            role: self.role,
            vote: self.vote,
            output: self.output@,
        }
    }
}

/// Commit and reveal tallies of one inference.
#[derive(PartialEq, Eq, Structural, Clone, Copy, Debug)]
pub struct VotingInfo {
    pub total_commit: u64,
    pub total_reveal: u64,
}

impl VotingInfo {
    pub fn new() -> (r: VotingInfo)
        ensures
            r.total_commit == 0 && r.total_reveal == 0,
            forall|inf: InferenceView| inf.assignments.len() >= 1 ==> #[trigger] tally_wf(r, inf),
    {
        VotingInfo { total_commit: 0, total_reveal: 0 }
    }
}

/// The all-zero key.
pub open spec fn zero_key() -> Key {
    choose|k: Key| is_zero_key(k)
}

/// A zero key, which is the only one.
pub fn new_zero_key() -> (r: Key)
    ensures
        r == zero_key(),
        is_zero_key(r),
{
    let z: Key = [0u8; 32];
    assert(is_zero_key(z));
    proof {
        lemma_zero_key_unique(z);
    }
    z
}

/// Any all-zero key is `zero_key()`.
pub proof fn lemma_zero_key_unique(k: Key)
    requires
        is_zero_key(k),
    ensures
        k == zero_key(),
        is_zero_key(zero_key()),
{
    let z = zero_key();
    assert(is_zero_key(z));
    assert(k@ =~= z@);
    vstd::array::axiom_array_ext_equal(k, z);
}

/// `bp` basis points of `x`, rounded down.
pub open spec fn bp_of(x: u64, bp: u16) -> u64 {
    (x * bp / 10000) as u64
}

pub fn bp_amount(x: u64, bp: u16) -> (r: u64)
    requires
        bp <= 10000,
    ensures
        r == bp_of(x, bp),
        r <= x,
{
    proof {
        assert(x * bp <= x * 10000) by (nonlinear_arith)
            requires
                bp <= 10000,
        ;
    }
    (x as u128 * bp as u128 / PERCENTAGE_DENOMINATOR as u128) as u64
}

/// The scoring fee taken from a payment of `value`: `minimum_fee`, which
/// the payment must cover.
pub fn validate_enough_fee_to_use(minimum_fee: u64, value: u64) -> (r: Result<u64, SolLearnError>)
    ensures
        value < minimum_fee ==> r == Err::<u64, SolLearnError>(SolLearnError::FeeTooLow),
        value >= minimum_fee ==> r == Ok::<u64, SolLearnError>(minimum_fee),
{
    if value < minimum_fee {
        return Err(SolLearnError::FeeTooLow);
    }
    Ok(minimum_fee)
}

/// Why `infer` would be refused, checked in this order.
pub open spec fn infer_error(
    acc: SolLearnInfo,
    models: Seq<Key>,
    roster: MinersOfModel,
    inference_id: u64,
    value: u64,
    model: Key,
) -> Option<SolLearnError> {
    if !models.contains(model) {
        Some(SolLearnError::ModelNotExist)
    } else if roster.model != model {
        Some(SolLearnError::Unauthorized)
    } else if value < acc.min_fee_to_use {
        Some(SolLearnError::FeeTooLow)
    } else if inference_id != acc.inference_number + 1 {
        Some(SolLearnError::WrongInferenceId)
    } else if roster.data@.len() == 0 {
        Some(SolLearnError::NoMinerAvailable)
    } else if roster.data@.len() < acc.miner_requirement {
        Some(SolLearnError::InsufficientMinersForCommittee)
    } else {
        None
    }
}

/// The assignment-creation records queued for a committee whose first
/// assignment id is `first_id`.
pub open spec fn create_tasks(first_id: u64, inference_id: u64, committee: Seq<Key>) -> Seq<
    Seq<u8>,
> {
    Seq::new(
        committee.len(),
        |i: int|
            encode_spec(
                TaskAction::CreateAssignment {
                    assignment_id: (first_id + i) as u64,
                    inference_id,
                    worker: committee[i],
                    role: ROLE_VALIDATOR,
                },
            ),
    )
}

/// The consecutive assignment ids `first_id, first_id + 1, ...`, `n` of them.
pub open spec fn id_range(first_id: u64, n: nat) -> Seq<u64> {
    Seq::new(n, |i: int| (first_id + i) as u64)
}

/// The request `infer` creates.
pub open spec fn new_inference(
    acc: SolLearnInfo,
    inference_id: u64,
    creator: Key,
    input: Seq<u8>,
    value: u64,
    model: Key,
    now: u64,
) -> InferenceView {
    let rest = (value - acc.min_fee_to_use) as u64;
    let fee_l2 = bp_of(rest, acc.fee_l2_percentage);
    let fee_treasury = bp_of(rest, acc.fee_treasury_percentage);
    let submit = (now + acc.submit_duration) as u64;
    let commit = (submit + acc.commit_duration) as u64;
    InferenceView {
        id: inference_id,
        assignments: id_range((acc.assignment_number + 1) as u64, acc.miner_requirement as nat),
        digests: Seq::new(acc.miner_requirement as nat, |i: int| zero_key()),
        input,
        value: (rest - fee_l2 - fee_treasury) as u64,
        fee_l2,
        fee_treasury,
        model_address: model,
        submit_timeout: submit,
        commit_timeout: commit,
        reveal_timeout: (commit + acc.reveal_duration) as u64,
        status: STATUS_SOLVING,
        creator,
        processed_miner: None,
        miner_assignment: None,
        referrer: zero_key(),
    }
}

/// Opens an inference request paid with `value`: takes the scoring fee,
/// splits the layer-2 and treasury fees off the rest, draws a committee
/// from the model's roster and queues one assignment-creation task per
/// member. The caller transfers `value` into the vault.
pub fn infer(
    acc: &mut SolLearnInfo,
    models: &Models,
    roster: &mut MinersOfModel,
    tasks: &mut Tasks,
    inference_id: u64,
    creator: Key,
    input: Vec<u8>,
    value: u64,
    model: Key,
    now: u64,
) -> (r: Result<Inference, SolLearnError>)
    requires
        old(acc).wf(),
        old(roster).wf(),
        old(tasks).wf(),
        old(acc).inference_number < u64::MAX,
        old(acc).assignment_number + old(acc).miner_requirement <= u64::MAX,
        now + old(acc).submit_duration + old(acc).commit_duration + old(acc).reveal_duration
            <= u64::MAX,
    ensures
        r.is_err() <==> infer_error(*old(acc), models.data@, *old(roster), inference_id, value, model).is_some(),
        r.is_err() ==> r == Err::<Inference, SolLearnError>(
            infer_error(*old(acc), models.data@, *old(roster), inference_id, value, model).unwrap(),
        ),
        r.is_err() ==> *final(acc) == *old(acc) && final(roster).data@ == old(roster).data@
            && final(tasks)@ == old(tasks)@,
        r.is_ok() ==> {
            let n = old(acc).miner_requirement as nat;
            &&& r.unwrap()@ == new_inference(*old(acc), inference_id, creator, input@, value, model, now)
            &&& r.unwrap()@.wf()
            &&& r.unwrap()@.assignments.len() == old(acc).miner_requirement
            &&& *final(acc) == (SolLearnInfo {
                inference_number: (old(acc).inference_number + 1) as u64,
                assignment_number: (old(acc).assignment_number + n) as u64,
                ..*old(acc)
            })
            &&& final(roster).data@ == roster_after_selection(old(roster).data@, n, now)
            &&& final(tasks)@ == old(tasks)@ + create_tasks(
                (old(acc).assignment_number + 1) as u64,
                inference_id,
                committee_spec(old(roster).data@, n, now),
            )
        },
        final(roster).model == old(roster).model,
        final(roster).wf(),
        final(tasks).wf(),
{
    if find_key(&models.data, &model).is_none() {
        return Err(SolLearnError::ModelNotExist);
    }
    if !key_eq(&roster.model, &model) {
        return Err(SolLearnError::Unauthorized);
    }
    let scoring_fee = validate_enough_fee_to_use(acc.min_fee_to_use, value)?;
    if inference_id != acc.inference_number + 1 {
        return Err(SolLearnError::WrongInferenceId);
    }
    let roster_len = roster.data.len();
    assert(roster_len <= u64::MAX);
    let committee = select_committee(roster, acc.miner_requirement, now)?;
    proof {
        crate::registry::lemma_selection_keeps_roster(
            old(roster).data@,
            acc.miner_requirement as nat,
            now,
        );
    }
    let rest = value - scoring_fee;
    let fee_l2 = bp_amount(rest, acc.fee_l2_percentage);
    let fee_treasury = bp_amount(rest, acc.fee_treasury_percentage);
    proof {
        let l = acc.fee_l2_percentage as int;
        let t = acc.fee_treasury_percentage as int;
        assert(rest * l / 10000 + rest * t / 10000 <= rest) by (nonlinear_arith)
            requires
                l + t <= 10000,
                l >= 0,
                t >= 0,
                rest >= 0,
        {
            assert(rest * l / 10000 + rest * t / 10000 <= (rest * l + rest * t) / 10000);
            assert(rest * l + rest * t == rest * (l + t));
            assert(rest * (l + t) <= rest * 10000);
        }
    }
    let n = acc.miner_requirement;
    let first_id = acc.assignment_number + 1;
    let ghost start = tasks@;
    let mut assignments: Vec<u64> = Vec::new();
    let mut digests: Vec<Key> = Vec::new();
    let mut i: usize = 0;
    while i < committee.len()
        invariant
            0 <= i <= committee@.len(),
            committee@.len() == n,
            first_id == old(acc).assignment_number + 1,
            first_id + n <= u64::MAX + 1,
            tasks.wf(),
            tasks@ == start + create_tasks(first_id, inference_id, committee@).subrange(0, i as int),
            assignments@ == id_range(first_id, i as nat),
            digests@ == Seq::new(i as nat, |j: int| zero_key()),
        decreases committee@.len() - i,
    {
        let action = TaskAction::CreateAssignment {
            assignment_id: first_id + i as u64,
            inference_id,
            worker: committee[i],
            role: ROLE_VALIDATOR,
        };
        let t = action.encode();
        tasks.push_task(t);
        assignments.push(first_id + i as u64);
        digests.push(new_zero_key());
        i = i + 1;
        assert(tasks@ =~= start + create_tasks(first_id, inference_id, committee@).subrange(
            0,
            i as int,
        ));
        assert(assignments@ =~= id_range(first_id, i as nat));
        assert(digests@ =~= Seq::new(i as nat, |j: int| zero_key()));
    }
    assert(create_tasks(first_id, inference_id, committee@).subrange(0, n as int) =~= create_tasks(
        first_id,
        inference_id,
        committee@,
    ));
    acc.inference_number = acc.inference_number + 1;
    acc.assignment_number = acc.assignment_number + n as u64;
    let submit = now + acc.submit_duration;
    let commit = submit + acc.commit_duration;
    let inference = Inference {
        id: inference_id,
        assignments,
        digests,
        input,
        value: rest - fee_l2 - fee_treasury,
        fee_l2,
        fee_treasury,
        model_address: model,
        submit_timeout: submit,
        commit_timeout: commit,
        reveal_timeout: commit + acc.reveal_duration,
        status: STATUS_SOLVING,
        creator,
        processed_miner: None,
        miner_assignment: None,
        referrer: new_zero_key(),
    };
    proof {
        assert(inference@.digests =~= new_inference(*old(acc), inference_id, creator, input@, value, model, now).digests);
        assert(inference@ == new_inference(*old(acc), inference_id, creator, input@, value, model, now));
    }
    Ok(inference)
}

/// `Ok` when no error applies, else the error.
pub open spec fn outcome(e: Option<SolLearnError>) -> Result<(), SolLearnError> {
    match e {
        Some(err) => Err(err),
        None => Ok(()),
    }
}

/// The position of the first occurrence of `x`, if any.
pub fn position_of(v: &Vec<u64>, x: u64) -> (r: Option<usize>)
    ensures
        r.is_none() ==> !v@.contains(x),
        r.is_some() ==> r.unwrap() < v@.len() && v@[r.unwrap() as int] == x && forall|j: int|
            0 <= j < r.unwrap() ==> v@[j] != x,
{
    let mut i: usize = 0;
    while i < v.len()
        invariant
            0 <= i <= v@.len(),
            forall|j: int| 0 <= j < i ==> v@[j] != x,
        decreases v@.len() - i,
    {
        if v[i] == x {
            return Some(i);
        }
        i = i + 1;
    }
    None
}

/// In a sequence without duplicates, the first occurrence is the only one.
pub proof fn lemma_unique_position(s: Seq<u64>, i: int, x: u64)
    requires
        s.no_duplicates(),
        0 <= i < s.len(),
        s[i] == x,
    ensures
        s.index_of(x) == i,
{
    s.index_of_first_ensures(x);
}

/// Why a top-up would be refused, checked in this order.
pub open spec fn topup_infer_error(inf: InferenceView, inference_id: u64, value: u64) -> Option<
    SolLearnError,
> {
    if value == 0 {
        Some(SolLearnError::ZeroValue)
    } else if inf.id != inference_id {
        Some(SolLearnError::WrongInferenceId)
    } else if inf.status != STATUS_SOLVING {
        Some(SolLearnError::InferMustBeSolvingState)
    } else {
        None
    }
}

/// Adds `value` to the reward pool of a request that is still being solved.
/// The caller transfers `value` into the vault.
pub fn topup_infer(inference: &mut Inference, inference_id: u64, value: u64) -> (r: Result<
    (),
    SolLearnError,
>)
    requires
        old(inference)@.wf(),
        old(inference)@.refund_total() + value <= u64::MAX,
    ensures
        r == outcome(topup_infer_error(old(inference)@, inference_id, value)),
        r.is_err() ==> final(inference)@ == old(inference)@,
        r.is_ok() ==> final(inference)@ == (InferenceView {
            value: (old(inference).value + value) as u64,
            ..old(inference)@
        }),
        final(inference)@.wf(),
{
    if value == 0 {
        return Err(SolLearnError::ZeroValue);
    }
    if inference.id != inference_id {
        return Err(SolLearnError::WrongInferenceId);
    }
    if inference.status != STATUS_SOLVING {
        return Err(SolLearnError::InferMustBeSolvingState);
    }
    inference.value = inference.value + value;
    Ok(())
}

/// Whether the task at the back of the queue is the creation of
/// `assignment_id`.
pub open spec fn create_assignment_error(records: Seq<Seq<u8>>, assignment_id: u64) -> Option<
    SolLearnError,
> {
    if records.len() == 0 || records.last()[0] != 0 {
        Some(SolLearnError::NoValidTask)
    } else if crate::task::u64_at(records.last(), 1) != assignment_id {
        Some(SolLearnError::WrongAssignmentId)
    } else {
        None
    }
}

/// Executes the assignment-creation task at the back of the queue, which
/// must be the one for `assignment_id`.
pub fn create_assignment(tasks: &mut Tasks, assignment_id: u64) -> (r: Result<
    Assignment,
    SolLearnError,
>)
    requires
        old(tasks).wf(),
    ensures
        r.is_err() <==> create_assignment_error(old(tasks)@, assignment_id).is_some(),
        r.is_err() ==> r == Err::<Assignment, SolLearnError>(
            create_assignment_error(old(tasks)@, assignment_id).unwrap(),
        ) && final(tasks)@ == old(tasks)@,
        r.is_ok() ==> {
            let a = r.unwrap()@;
            &&& final(tasks)@ == old(tasks)@.drop_last()
            &&& decodes_to(
                old(tasks)@.last(),
                TaskAction::CreateAssignment {
                    assignment_id,
                    inference_id: a.inference_id,
                    worker: a.worker,
                    role: a.role,
                },
            )
            &&& a.id == assignment_id
            &&& a.commitment == zero_key()
            &&& a.digest == zero_key()
            &&& a.reveal_nonce == 0
            &&& a.vote == 0
            &&& a.output.len() == 0
        },
        final(tasks).wf(),
{
    let t = match tasks.last_task() {
        None => {
            return Err(SolLearnError::NoValidTask);
        },
        Some(t) => t,
    };
    let action = t.decode();
    match action {
        TaskAction::CreateAssignment { assignment_id: id, inference_id, worker, role } => {
            if id != assignment_id {
                return Err(SolLearnError::WrongAssignmentId);
            }
            let _ = tasks.pop_task();
            Ok(
                Assignment {
                    id,
                    inference_id,
                    commitment: new_zero_key(),
                    digest: new_zero_key(),
                    reveal_nonce: 0,
                    worker,
                    role,
                    vote: 0,
                    output: Vec::new(),
                },
            )
        },
        _ => Err(SolLearnError::NoValidTask),
    }
}

/// Why seizing the miner role would be refused, checked in this order.
pub open spec fn seize_error(
    inf: InferenceView,
    asg: AssignmentView,
    signer: Key,
    assignment_id: u64,
    inference_id: u64,
) -> Option<SolLearnError> {
    if asg.id != assignment_id || asg.worker != signer || asg.inference_id != inference_id
        || inf.id != inference_id || !inf.assignments.contains(assignment_id) {
        Some(SolLearnError::Unauthorized)
    } else if inf.status != STATUS_SOLVING {
        Some(SolLearnError::InferMustBeSolvingState)
    } else if inf.processed_miner.is_some() {
        Some(SolLearnError::InferenceSeized)
    } else {
        None
    }
}

/// The request after `signer` seizes the miner role with `assignment_id`.
pub open spec fn seized(inf: InferenceView, signer: Key, assignment_id: u64) -> InferenceView {
    InferenceView {
        processed_miner: Some(signer),
        miner_assignment: Some(assignment_id),
        ..inf
    }
}

fn ids_match(
    inference: &Inference,
    assignment: &Assignment,
    signer: &Key,
    assignment_id: u64,
    inference_id: u64,
) -> (r: bool)
    ensures
        r == (assignment.id == assignment_id && assignment.worker == *signer
            && assignment.inference_id == inference_id && inference.id == inference_id
            && inference@.assignments.contains(assignment_id)),
{
    assignment.id == assignment_id && key_eq(&assignment.worker, signer) && assignment.inference_id
        == inference_id && inference.id == inference_id && position_of(
        &inference.assignments,
        assignment_id,
    ).is_some()
}

/// A committee member takes the miner role of a request being solved; only
/// the first one to ask gets it.
pub fn seize_miner_role(
    inference: &mut Inference,
    assignment: &mut Assignment,
    signer: Key,
    assignment_id: u64,
    inference_id: u64,
) -> (r: Result<(), SolLearnError>)
    requires
        old(inference)@.wf(),
    ensures
        r == outcome(seize_error(old(inference)@, old(assignment)@, signer, assignment_id, inference_id)),
        r.is_err() ==> final(inference)@ == old(inference)@ && final(assignment)@ == old(assignment)@,
        r.is_ok() ==> final(inference)@ == seized(old(inference)@, signer, assignment_id)
            && final(assignment)@ == (AssignmentView { role: ROLE_MINER, ..old(assignment)@ }),
        final(inference)@.wf(),
{
    if !ids_match(inference, assignment, &signer, assignment_id, inference_id) {
        return Err(SolLearnError::Unauthorized);
    }
    if inference.status != STATUS_SOLVING {
        return Err(SolLearnError::InferMustBeSolvingState);
    }
    if inference.processed_miner.is_some() {
        return Err(SolLearnError::InferenceSeized);
    }
    assignment.role = ROLE_MINER;
    inference.processed_miner = Some(signer);
    inference.miner_assignment = Some(assignment_id);
    Ok(())
}

/// Once one seizure has succeeded, no later seizure of the same request
/// succeeds, whoever asks and with whichever assignment.
pub proof fn lemma_single_seizure(
    inf: InferenceView,
    asg: AssignmentView,
    signer: Key,
    assignment_id: u64,
    inference_id: u64,
    asg2: AssignmentView,
    signer2: Key,
    assignment_id2: u64,
    inference_id2: u64,
)
    requires
        seize_error(inf, asg, signer, assignment_id, inference_id).is_none(),
    ensures
        seize_error(seized(inf, signer, assignment_id), asg2, signer2, assignment_id2, inference_id2).is_some(),
{
}

/// Why a solution submission would be refused, checked in this order.
pub open spec fn submit_error(
    inf: InferenceView,
    asg: AssignmentView,
    signer: Key,
    assignment_id: u64,
    inference_id: u64,
    now: u64,
) -> Option<SolLearnError> {
    if asg.id != assignment_id || asg.inference_id != inference_id || inf.id != inference_id
        || asg.worker != signer || asg.role != ROLE_MINER || asg.output.len() != 0 || inf.status
        != STATUS_SOLVING || inf.miner_assignment != Some(assignment_id) {
        Some(SolLearnError::Unauthorized)
    } else if now > inf.submit_timeout {
        Some(SolLearnError::DeadlinePassed)
    } else {
        None
    }
}

/// The seizer submits its output: its digest goes into its slot, its
/// commitment is the digest itself, and the request moves to the commit
/// phase.
pub fn submit_solution(
    inference: &mut Inference,
    assignment: &mut Assignment,
    signer: Key,
    assignment_id: u64,
    inference_id: u64,
    data: Vec<u8>,
    now: u64,
) -> (r: Result<(), SolLearnError>)
    requires
        old(inference)@.wf(),
    ensures
        r == outcome(
            submit_error(old(inference)@, old(assignment)@, signer, assignment_id, inference_id, now),
        ),
        r.is_err() ==> final(inference)@ == old(inference)@ && final(assignment)@ == old(assignment)@,
        r.is_ok() ==> {
            let d = final(assignment).digest;
            &&& d@ == digest_spec(inference_id, data@)
            &&& final(assignment)@ == (AssignmentView {
                digest: d,
                commitment: d,
                output: data@,
                ..old(assignment)@
            })
            &&& final(inference)@ == (InferenceView {
                status: STATUS_COMMIT,
                digests: old(inference)@.digests.update(
                    old(inference)@.assignments.index_of(assignment_id),
                    d,
                ),
                ..old(inference)@
            })
        },
        final(inference)@.wf(),
{
    if assignment.id != assignment_id || assignment.inference_id != inference_id || inference.id
        != inference_id || !key_eq(&assignment.worker, &signer) || assignment.role != ROLE_MINER
        || assignment.output.len() != 0 || inference.status != STATUS_SOLVING
        || inference.miner_assignment != Some(assignment_id) {
        return Err(SolLearnError::Unauthorized);
    }
    if now > inference.submit_timeout {
        return Err(SolLearnError::DeadlinePassed);
    }
    let idx = match position_of(&inference.assignments, assignment_id) {
        Some(i) => i,
        None => {
            return Err(SolLearnError::Unauthorized);
        },
    };
    proof {
        lemma_unique_position(inference@.assignments, idx as int, assignment_id);
    }
    let d = solution_digest(inference_id, &data);
    assignment.digest = d;
    assignment.commitment = d;
    assignment.output = data;
    inference.digests.set(idx, d);
    inference.status = STATUS_COMMIT;
    Ok(())
}

/// The tallies of a request stay within its committee: at most one
/// commitment per validator (every member but the seizer), and no more
/// reveals than commitments. A fresh `VotingInfo` meets this for any
/// committee of at least one member.
pub open spec fn tally_wf(v: VotingInfo, inf: InferenceView) -> bool {
    &&& v.total_reveal <= v.total_commit
    &&& v.total_commit + 1 <= inf.assignments.len()
}

/// Why a commitment would be refused, checked in this order. A commitment
/// for which the tally has no room left is refused too.
pub open spec fn commit_error(
    inf: InferenceView,
    asg: AssignmentView,
    voting: VotingInfo,
    signer: Key,
    assignment_id: u64,
    inference_id: u64,
    commitment: Key,
    now: u64,
) -> Option<SolLearnError> {
    if asg.id != assignment_id || asg.worker != signer || asg.inference_id != inference_id || inf.id
        != inference_id || !inf.assignments.contains(assignment_id) || asg.role != ROLE_VALIDATOR
        || !is_zero_key(asg.commitment) || inf.status != STATUS_COMMIT || voting.total_commit + 1
        >= inf.assignments.len() {
        Some(SolLearnError::Unauthorized)
    } else if is_zero_key(commitment) {
        Some(SolLearnError::ZeroValue)
    } else if now > inf.commit_timeout {
        Some(SolLearnError::DeadlinePassed)
    } else {
        None
    }
}

/// A validator publishes its commitment. When every validator of the
/// committee has committed, the request moves to the reveal phase.
pub fn commit(
    inference: &mut Inference,
    assignment: &mut Assignment,
    voting: &mut VotingInfo,
    signer: Key,
    assignment_id: u64,
    inference_id: u64,
    commitment: Key,
    now: u64,
) -> (r: Result<(), SolLearnError>)
    requires
        old(inference)@.wf(),
        tally_wf(*old(voting), old(inference)@),
    ensures
        r == outcome(
            commit_error(
                old(inference)@,
                old(assignment)@,
                *old(voting),
                signer,
                assignment_id,
                inference_id,
                commitment,
                now,
            ),
        ),
        r.is_err() ==> final(inference)@ == old(inference)@ && final(assignment)@ == old(assignment)@
            && *final(voting) == *old(voting),
        r.is_ok() ==> {
            &&& final(assignment)@ == (AssignmentView { commitment, ..old(assignment)@ })
            &&& *final(voting) == (VotingInfo {
                total_commit: (old(voting).total_commit + 1) as u64,
                ..*old(voting)
            })
            &&& final(inference)@ == if final(voting).total_commit + 1 == old(
                inference,
            )@.assignments.len() {
                InferenceView { status: STATUS_REVEAL, ..old(inference)@ }
            } else {
                old(inference)@
            }
        },
        final(inference)@.wf(),
        tally_wf(*final(voting), final(inference)@),
{
    if !ids_match(inference, assignment, &signer, assignment_id, inference_id) || assignment.role
        != ROLE_VALIDATOR || !key_is_zero(&assignment.commitment) || inference.status
        != STATUS_COMMIT || voting.total_commit as u128 + 1 >= inference.assignments.len() as u128 {
        return Err(SolLearnError::Unauthorized);
    }
    if key_is_zero(&commitment) {
        return Err(SolLearnError::ZeroValue);
    }
    if now > inference.commit_timeout {
        return Err(SolLearnError::DeadlinePassed);
    }
    assignment.commitment = commitment;
    voting.total_commit = voting.total_commit + 1;
    if voting.total_commit as u128 + 1 == inference.assignments.len() as u128 {
        inference.status = STATUS_REVEAL;
    }
    Ok(())
}

/// A readable field of an assignment.
#[derive(PartialEq, Eq, Structural, Clone, Copy, Debug)]
pub enum AssignmentField {
    InferenceId,
    Worker,
    Role,
    Vote,
    RevealNonce,
    Output,
    Commitment,
    Digest,
}

/// The bytes of one field of an assignment: integers little-endian, keys
/// and digests as their 32 bytes, role and vote as one byte.
pub open spec fn field_bytes(asg: AssignmentView, field: AssignmentField) -> Seq<u8> {
    match field {
        AssignmentField::InferenceId => vstd::bytes::spec_u64_to_le_bytes(asg.inference_id),
        AssignmentField::Worker => asg.worker@,
        AssignmentField::Role => seq![asg.role],
        AssignmentField::Vote => seq![asg.vote],
        AssignmentField::RevealNonce => vstd::bytes::spec_u64_to_le_bytes(asg.reveal_nonce),
        AssignmentField::Output => asg.output,
        AssignmentField::Commitment => asg.commitment@,
        AssignmentField::Digest => asg.digest@,
    }
}

/// Reads one field of assignment `assignment_id`.
pub fn get_assignment(assignment: &Assignment, assignment_id: u64, field: AssignmentField) -> (r: Result<
    Vec<u8>,
    SolLearnError,
>)
    ensures
        assignment.id != assignment_id ==> r == Err::<Vec<u8>, SolLearnError>(
            SolLearnError::Unauthorized,
        ),
        assignment.id == assignment_id ==> r.is_ok() && r.unwrap()@ == field_bytes(
            assignment@,
            field,
        ),
{
    if assignment.id != assignment_id {
        return Err(SolLearnError::Unauthorized);
    }
    let mut out: Vec<u8> = Vec::new();
    match field {
        AssignmentField::InferenceId => crate::hash::push_u64_le(&mut out, assignment.inference_id),
        AssignmentField::Worker => crate::hash::push_key(&mut out, &assignment.worker),
        AssignmentField::Role => out.push(assignment.role),
        AssignmentField::Vote => out.push(assignment.vote),
        AssignmentField::RevealNonce => crate::hash::push_u64_le(&mut out, assignment.reveal_nonce),
        AssignmentField::Output => {
            let mut i: usize = 0;
            while i < assignment.output.len()
                invariant
                    0 <= i <= assignment.output@.len(),
                    out@ == assignment.output@.subrange(0, i as int),
                decreases assignment.output@.len() - i,
            {
                out.push(assignment.output[i]);
                i = i + 1;
                assert(out@ =~= assignment.output@.subrange(0, i as int));
            }
            assert(assignment.output@.subrange(0, assignment.output@.len() as int)
                =~= assignment.output@);
        },
        AssignmentField::Commitment => crate::hash::push_key(&mut out, &assignment.commitment),
        AssignmentField::Digest => crate::hash::push_key(&mut out, &assignment.digest),
    }
    assert(out@ =~= field_bytes(assignment@, field));
    Ok(out)
}

/// What a new request holds for refunds and payouts is exactly what its
/// creator paid in less the scoring fee: reward pool plus the two fees.
pub proof fn lemma_new_request_funds(
    acc: SolLearnInfo,
    inference_id: u64,
    creator: Key,
    input: Seq<u8>,
    value: u64,
    model: Key,
    now: u64,
)
    requires
        acc.wf(),
        value >= acc.min_fee_to_use,
    ensures
        ({
            let inf = new_inference(acc, inference_id, creator, input, value, model, now);
            &&& inf.value + inf.fee_l2 + inf.fee_treasury + acc.min_fee_to_use == value
            &&& inf.value + inf.fee_l2 + inf.fee_treasury <= u64::MAX
        }),
{
    let rest = (value - acc.min_fee_to_use) as int;
    let l = acc.fee_l2_percentage as int;
    let t = acc.fee_treasury_percentage as int;
    assert(rest * l / 10000 + rest * t / 10000 <= rest) by (nonlinear_arith)
        requires
            l + t <= 10000,
            l >= 0,
            t >= 0,
            rest >= 0,
    {
        assert(rest * l / 10000 + rest * t / 10000 <= (rest * l + rest * t) / 10000);
        assert(rest * l + rest * t == rest * (l + t));
        assert(rest * (l + t) <= rest * 10000);
    }
    assert(rest * l / 10000 >= 0 && rest * t / 10000 >= 0) by (nonlinear_arith)
        requires
            l >= 0,
            t >= 0,
            rest >= 0,
    ;
}

} // verus!

