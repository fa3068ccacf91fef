use solearn::agent::infer_request;
use solearn::dao::{calculate_transferred_dao_token, calculate_user_dao_token_received};
use solearn::error::SolLearnError;
use solearn::executor::{pay_miner, slash_miner};
use solearn::hash::{commitment_hash, key_eq, random_number, seed_from_digest, solution_digest, Key};
use solearn::inference::{bp_amount, create_assignment, validate_enough_fee_to_use, Assignment};
use solearn::miner::{
    _slash_miner, join_for_minting, miner_claim_unstaked, miner_register, miner_unstake,
    slash_miner_by_admin, MinerInfo,
};
use solearn::registry::{add_model, remove_model, select_committee, MinersOfModel, Models};
use solearn::state::{
    initialize, next_assignment_id, next_epoch_id, next_inference_id, only_updated_epoch,
    set_dao_token_reward, set_fee_ratio_miner_validator, set_fine_percentage, set_l2_owner,
    set_min_fee_to_use, set_miner_min_stake, set_penalty_duration, set_treasury_address,
    touch_epoch, update_epoch, DAOTokenPercentage, MinerEpochState, SolLearnInfo,
};
use solearn::task::{FnType, Task, TaskAction, Tasks};

const ADMIN: Key = [9; 32];
const TREASURY: Key = [8; 32];
const MODEL_A: Key = [0xAA; 32];
const M1: Key = [1; 32];
const M2: Key = [2; 32];
const M3: Key = [3; 32];

fn hex(s: &str) -> Key {
    let mut k = [0u8; 32];
    for i in 0..32 {
        k[i] = u8::from_str_radix(&s[2 * i..2 * i + 2], 16).unwrap();
    }
    k
}

fn dao(user: u16, referrer: u16, referee: u16, l2: u16) -> DAOTokenPercentage {
    DAOTokenPercentage {
        miner_percentage: 0,
        user_percentage: user,
        referrer_percentage: referrer,
        referee_percentage: referee,
        l2_owner_percentage: l2,
    }
}

fn params() -> SolLearnInfo {
    initialize(
        ADMIN, [6; 32], 0, 7, 10, 100, 10, TREASURY, 500, 500, 6000, 10, 20, 30, 50, 3, 100,
        1000, 1000, dao(2000, 300, 200, 100), 40,
    )
    .unwrap()
}

fn blank_assignment(id: u64, worker: Key) -> Assignment {
    Assignment {
        id,
        inference_id: 1,
        commitment: [0; 32],
        digest: [0; 32],
        reveal_nonce: 0,
        worker,
        role: 1,
        vote: 0,
        output: Vec::new(),
    }
}

fn all_actions() -> Vec<TaskAction> {
    vec![
        TaskAction::CreateAssignment { assignment_id: 7, inference_id: 300, worker: M1, role: 1 },
        TaskAction::PayByAssignment { assignment_id: u64::MAX, amount: 123456789, vote: 2 },
        TaskAction::PayToRecipient { recipient: TREASURY, amount: 5 },
        TaskAction::SlashByMiner { miner: M2, is_fined: true },
        TaskAction::SlashByMiner { miner: M3, is_fined: false },
        TaskAction::SlashByAssignment { assignment_id: 9, is_fined: true, check_empty_commit: false, vote: 1 },
        TaskAction::SlashByAssignment { assignment_id: 10, is_fined: false, check_empty_commit: true, vote: 0 },
    ]
}

#[test]
fn task_records_round_trip() {
    for a in all_actions() {
        let t = a.encode();
        assert_eq!(t.to_bytes().len(), 50);
        assert_eq!(t.fn_type(), a.kind());
        assert_eq!(t.decode(), a);
        assert_eq!(t.data().len(), 49);
    }
}

#[test]
fn task_record_layout() {
    let t = TaskAction::CreateAssignment { assignment_id: 7, inference_id: 300, worker: M1, role: 1 }.encode();
    let b = t.to_bytes();
    assert_eq!(b[0], 0);
    assert_eq!(&b[1..9], &7u64.to_le_bytes());
    assert_eq!(&b[9..17], &300u64.to_le_bytes());
    assert_eq!(&b[17..49], &M1);
    assert_eq!(b[49], 1);
    let p = TaskAction::PayByAssignment { assignment_id: 3, amount: 54, vote: 2 }.encode().to_bytes();
    assert_eq!(p[0], 1);
    assert_eq!(p[1], 1);
    assert_eq!(&p[2..10], &3u64.to_le_bytes());
    assert_eq!(&p[10..18], &54u64.to_le_bytes());
    assert_eq!(p[18], 2);
    assert!(p[19..].iter().all(|x| *x == 0));
    let s = TaskAction::SlashByAssignment { assignment_id: 4, is_fined: true, check_empty_commit: true, vote: 1 }
        .encode()
        .to_bytes();
    assert_eq!(&s[..13], &[2, 0, 4, 0, 0, 0, 0, 0, 0, 0, 1, 1, 1]);
}

#[test]
fn task_new_pads_payload() {
    let t = Task::new(FnType::SlashMiner, vec![1, 2, 3]);
    let b = t.to_bytes();
    assert_eq!(b.len(), 50);
    assert_eq!(&b[..4], &[2, 1, 2, 3]);
    assert!(b[4..].iter().all(|x| *x == 0));
    assert_eq!(t.fn_type(), FnType::SlashMiner);
    let mut d = vec![1, 2, 3];
    d.resize(49, 0);
    assert_eq!(t.data(), d);
}

#[test]
fn queue_is_last_in_first_out() {
    let mut q = Tasks::new();
    assert_eq!(q.get_task_count(), 0);
    assert!(q.pop_task().is_none());
    assert_eq!(q.only_empty_tasks(), Ok(()));
    let acts = all_actions();
    for a in &acts {
        q.push_task(a.encode());
        assert_eq!(q.to_bytes().len() % 50, 0);
    }
    assert_eq!(q.get_task_count(), acts.len() as u64);
    assert_eq!(q.to_bytes().len(), 50 * acts.len());
    assert_eq!(q.only_empty_tasks(), Err(SolLearnError::MustWaitTasks));
    for a in acts.iter().rev() {
        assert_eq!(q.last_task().unwrap().decode(), *a);
        let t = q.pop_task().unwrap();
        assert_eq!(t.decode(), *a);
        assert_eq!(q.to_bytes().len() % 50, 0);
    }
    assert_eq!(q.get_task_count(), 0);
}

#[test]
fn hashes_match_keccak_vectors() {
    let d = solution_digest(1, &b"y".to_vec());
    assert_eq!(d, hex("b43f96d515b01ba1e048cb592b380b53d6c7df8233a957e5df27c05b36078e91"));
    let c = commitment_hash(42, &M2, &b"y".to_vec());
    assert_eq!(c, hex("2e25b4e416de6c0de08eff960e995249f896c890f64e1a387c17e485eefee578"));
    assert_ne!(commitment_hash(42, &M3, &b"y".to_vec()), c);
    assert_ne!(solution_digest(2, &b"y".to_vec()), d);
}

#[test]
fn random_draw_from_timestamp() {
    assert_eq!(random_number(0, 0, 7), 3);
    assert_eq!(random_number(5, 1000, 1000), 31);
    assert_eq!(random_number(5, 1000, 0), 0);
    for r in 1..20u64 {
        assert!(random_number(3, 77, r) < r);
    }
    let mut digest = [0u8; 32];
    digest[24] = 10;
    digest[25] = 1;
    assert_eq!(seed_from_digest(&digest, 1000), 266);
    assert_eq!(seed_from_digest(&digest, 0), 0);
}

#[test]
fn committee_draw_is_deterministic() {
    let mut r = MinersOfModel { model: MODEL_A, data: vec![M1, M2, M3] };
    assert_eq!(select_committee(&mut r, 3, 100), Ok(vec![M1, M3, M2]));
    assert_eq!(r.data, vec![M1, M3, M2]);
    let mut r = MinersOfModel { model: MODEL_A, data: vec![M1, M2, M3] };
    assert_eq!(select_committee(&mut r, 2, 0), Ok(vec![M3, M2]));
    assert_eq!(r.data, vec![M1, M3, M2]);
    let mut r = MinersOfModel { model: MODEL_A, data: vec![M1] };
    assert_eq!(select_committee(&mut r, 2, 0), Err(SolLearnError::InsufficientMinersForCommittee));
    assert_eq!(r.data, vec![M1]);
    let mut r = MinersOfModel { model: MODEL_A, data: vec![] };
    assert_eq!(select_committee(&mut r, 1, 0), Err(SolLearnError::NoMinerAvailable));
}

#[test]
fn initialize_validates_parameters() {
    let bad = initialize(
        ADMIN, [6; 32], 0, 7, 10, 100, 10, TREASURY, 6000, 5000, 6000, 10, 20, 30, 50, 3, 100,
        1000, 0, dao(0, 0, 0, 0), 40,
    );
    assert_eq!(bad, Err(SolLearnError::InvalidParameter));
    let no_committee = initialize(
        ADMIN, [6; 32], 0, 7, 10, 100, 10, TREASURY, 500, 500, 6000, 10, 20, 30, 50, 0, 100,
        1000, 0, dao(0, 0, 0, 0), 40,
    );
    assert_eq!(no_committee, Err(SolLearnError::InvalidParameter));
    let acc = params();
    assert_eq!(acc.l2_owner, ADMIN);
    assert_eq!(acc.miner_requirement, 3);
    assert_eq!(next_inference_id(&acc), 1);
    assert_eq!(next_assignment_id(&acc), 1);
    assert_eq!(next_epoch_id(&acc), 1);
}

#[test]
fn lazy_epoch_advance() {
    let mut acc = params();
    touch_epoch(&mut acc, 9);
    assert_eq!((acc.last_epoch, acc.last_time), (0, 0));
    touch_epoch(&mut acc, 25);
    assert_eq!((acc.last_epoch, acc.last_time), (2, 25));
    touch_epoch(&mut acc, 34);
    assert_eq!((acc.last_epoch, acc.last_time), (2, 25));
}

#[test]
fn explicit_epoch_update() {
    let mut acc = params();
    acc.reward_per_epoch = 15768000;
    assert_eq!(update_epoch(&mut acc, 0, 9), Err(SolLearnError::EpochRewardUpToDate));
    assert_eq!(update_epoch(&mut acc, 3, 35), Err(SolLearnError::InvalidEpochId));
    assert_eq!(acc.last_epoch, 0);
    // Three epochs are due at 35: all three are counted.
    let st = update_epoch(&mut acc, 0, 35).unwrap();
    assert_eq!(st, MinerEpochState { total_miner: 0, epoch_reward: 100 });
    assert_eq!((acc.last_epoch, acc.last_time), (3, 35));
    // The lazy advance runs on the same clock and does not count them again.
    touch_epoch(&mut acc, 44);
    assert_eq!((acc.last_epoch, acc.last_time), (3, 35));
    touch_epoch(&mut acc, 45);
    assert_eq!((acc.last_epoch, acc.last_time), (4, 45));
    assert_eq!(update_epoch(&mut acc, 4, 50), Err(SolLearnError::EpochRewardUpToDate));
    assert_eq!(only_updated_epoch(&acc, 54), Ok(()));
    assert_eq!(only_updated_epoch(&acc, 55), Err(SolLearnError::NeedToWait));
}

#[test]
fn admin_setters() {
    let mut acc = params();
    assert_eq!(set_miner_min_stake(&mut acc, M1, 0, 5), Err(SolLearnError::Unauthorized));
    assert_eq!(set_miner_min_stake(&mut acc, ADMIN, 100, 5), Err(SolLearnError::NeedToWait));
    assert_eq!(acc.miner_minimum_stake, 100);
    assert_eq!(set_miner_min_stake(&mut acc, ADMIN, 0, 5), Ok(()));
    assert_eq!(acc.miner_minimum_stake, 5);
    assert_eq!(set_fine_percentage(&mut acc, ADMIN, 0, 10001), Err(SolLearnError::InvalidParameter));
    assert_eq!(set_fine_percentage(&mut acc, ADMIN, 0, 2500), Ok(()));
    assert_eq!(acc.fine_percentage, 2500);
    assert_eq!(set_penalty_duration(&mut acc, ADMIN, 0, 77), Ok(()));
    assert_eq!(acc.penalty_duration, 77);
    assert_eq!(set_min_fee_to_use(&mut acc, ADMIN, 0, 0), Err(SolLearnError::InvalidParameter));
    assert_eq!(set_min_fee_to_use(&mut acc, ADMIN, 0, 20), Ok(()));
    assert_eq!(acc.min_fee_to_use, 20);
    assert_eq!(set_l2_owner(&mut acc, ADMIN, 0, M3), Ok(()));
    assert_eq!(acc.l2_owner, M3);
    assert_eq!(set_treasury_address(&mut acc, ADMIN, 0, M2), Ok(()));
    assert_eq!(acc.treasury, M2);
    assert_eq!(set_fee_ratio_miner_validator(&mut acc, ADMIN, 0, 10001), Err(SolLearnError::InvalidParameter));
    assert_eq!(set_fee_ratio_miner_validator(&mut acc, ADMIN, 0, 5000), Ok(()));
    assert_eq!(acc.fee_ratio_miner_validator, 5000);
    assert_eq!(set_dao_token_reward(&mut acc, ADMIN, 0, 9), Ok(()));
    assert_eq!(acc.dao_token_reward, 9);
}

#[test]
fn model_registry() {
    let mut acc = params();
    let mut models = Models::new();
    assert!(matches!(add_model(&mut acc, &mut models, M1, MODEL_A), Err(SolLearnError::Unauthorized)));
    let roster = add_model(&mut acc, &mut models, ADMIN, MODEL_A).unwrap();
    assert_eq!(roster.model, MODEL_A);
    assert!(roster.data.is_empty());
    assert!(matches!(add_model(&mut acc, &mut models, ADMIN, MODEL_A), Err(SolLearnError::ModelAlreadyExists)));
    let other = add_model(&mut acc, &mut models, ADMIN, M2).unwrap();
    assert_eq!(acc.total_models, 2);
    assert_eq!(remove_model(&mut acc, &mut models, &roster, ADMIN, M3), Err(SolLearnError::ModelNotExist));
    assert_eq!(remove_model(&mut acc, &mut models, &other, ADMIN, MODEL_A), Err(SolLearnError::Unauthorized));
    assert_eq!(remove_model(&mut acc, &mut models, &roster, M1, MODEL_A), Err(SolLearnError::Unauthorized));
    assert_eq!(remove_model(&mut acc, &mut models, &roster, ADMIN, MODEL_A), Ok(()));
    assert_eq!(models.data, vec![M2]);
    assert_eq!(acc.total_models, 1);
}

#[test]
fn slashing_rules() {
    let mut acc = params();
    let mut models = Models::new();
    let mut roster = add_model(&mut acc, &mut models, ADMIN, MODEL_A).unwrap();
    let mut m: MinerInfo = miner_register(&mut acc, &models, M1, 105, 0).unwrap();
    join_for_minting(&mut acc, &mut m, &mut roster, 0).unwrap();
    assert_eq!(slash_miner_by_admin(&acc, &mut m, &mut roster, M2, M1, true, 5), Err(SolLearnError::Unauthorized));
    assert_eq!(slash_miner_by_admin(&acc, &mut m, &mut roster, ADMIN, [0; 32], true, 5), Err(SolLearnError::Unauthorized));
    assert_eq!(slash_miner_by_admin(&acc, &mut m, &mut roster, ADMIN, M2, true, 5), Err(SolLearnError::Unauthorized));
    assert_eq!(slash_miner_by_admin(&acc, &mut m, &mut roster, ADMIN, M1, true, 5), Ok(10));
    assert_eq!(m.stake_amount, 95);
    assert_eq!(m.active_time, 55);
    assert!(roster.data.is_empty());
    let fine = _slash_miner(&mut m, true, &acc, &mut roster, 6);
    assert_eq!(fine, 10);
    assert_eq!(m.stake_amount, 85);
    let mut poor = m;
    poor.stake_amount = 3;
    assert_eq!(_slash_miner(&mut poor, true, &acc, &mut roster, 6), 10);
    assert_eq!(poor.stake_amount, 0);
    assert_eq!(_slash_miner(&mut poor, false, &acc, &mut roster, 6), 0);
}

#[test]
fn executors_check_kind_and_target() {
    let acc = params();
    let mut q = Tasks::new();
    let mut a = blank_assignment(4, M1);
    let mut roster = MinersOfModel { model: MODEL_A, data: vec![M1] };
    let mut m = MinerInfo {
        miner: M1,
        model: MODEL_A,
        stake_amount: 100,
        last_epoch: 0,
        active_time: 0,
        is_active: true,
        unstaking_time: 0,
        reward: 0,
    };
    assert_eq!(pay_miner(&mut q, &mut a, M1, 4), Err(SolLearnError::NoValidTask));
    q.push_task(TaskAction::SlashByAssignment { assignment_id: 4, is_fined: true, check_empty_commit: false, vote: 1 }.encode());
    assert_eq!(pay_miner(&mut q, &mut a, M1, 4), Err(SolLearnError::NoValidTask));
    assert_eq!(q.get_task_count(), 1);
    assert_eq!(slash_miner(&acc, &mut q, &mut m, &mut roster, &mut a, 5, 0), Err(SolLearnError::Unauthorized));
    let mut other = m;
    other.miner = M2;
    assert_eq!(slash_miner(&acc, &mut q, &mut other, &mut roster, &mut a, 4, 0), Err(SolLearnError::Unauthorized));
    assert_eq!(q.get_task_count(), 1);
    assert_eq!(slash_miner(&acc, &mut q, &mut m, &mut roster, &mut a, 4, 0), Ok(10));
    assert_eq!(a.vote, 1);
    assert_eq!(m.stake_amount, 90);
    q.push_task(TaskAction::PayByAssignment { assignment_id: 4, amount: 18, vote: 2 }.encode());
    assert_eq!(slash_miner(&acc, &mut q, &mut m, &mut roster, &mut a, 4, 0), Err(SolLearnError::NoValidTask));
    assert_eq!(pay_miner(&mut q, &mut a, M1, 5), Err(SolLearnError::WrongAssignmentId));
    assert_eq!(pay_miner(&mut q, &mut a, M2, 4), Err(SolLearnError::WrongRecipient));
    assert_eq!(pay_miner(&mut q, &mut a, M1, 4), Ok(18));
    assert_eq!(a.vote, 2);
    q.push_task(TaskAction::PayToRecipient { recipient: TREASURY, amount: 5 }.encode());
    assert_eq!(pay_miner(&mut q, &mut a, M1, 4), Err(SolLearnError::WrongRecipient));
    assert_eq!(pay_miner(&mut q, &mut a, TREASURY, 0), Ok(5));
}

#[test]
fn fees_and_dao_shares() {
    assert_eq!(validate_enough_fee_to_use(10, 9), Err(SolLearnError::FeeTooLow));
    assert_eq!(validate_enough_fee_to_use(10, 10), Ok(10));
    assert_eq!(bp_amount(100, 500), 5);
    assert_eq!(bp_amount(90, 6000), 54);
    assert_eq!(bp_amount(u64::MAX, 10000), u64::MAX);
    let acc = params();
    let s = calculate_transferred_dao_token(&acc, false);
    assert_eq!((s.l2_owner, s.referee, s.referrer), (10, 0, 0));
    let s = calculate_transferred_dao_token(&acc, true);
    assert_eq!((s.l2_owner, s.referee, s.referrer), (10, 20, 30));
    assert_eq!(calculate_user_dao_token_received(&acc, 0), 0);
    assert_eq!(calculate_user_dao_token_received(&acc, 11), 0);
    assert_eq!(calculate_user_dao_token_received(&acc, 5), 100);
    assert_eq!(calculate_user_dao_token_received(&acc, 10), 200);
}

#[test]
fn key_comparison() {
    assert!(key_eq(&M1, &M1));
    assert!(!key_eq(&M1, &M2));
}

#[test]
fn agent_request_prepends_prompt() {
    let prompt = b"You are terse. ".to_vec();
    let (data, rest) = infer_request(&prompt, 3, &b"x".to_vec(), 113).unwrap();
    assert_eq!(data, b"You are terse. x".to_vec());
    assert_eq!(rest, 110);
    assert_eq!(infer_request(&prompt, 3, &b"x".to_vec(), 2), Err(SolLearnError::InsufficientFunds));
    assert_eq!(infer_request(&vec![], 0, &vec![], 0), Ok((vec![], 0)));
}

#[test]
fn unstake_rejections() {
    let mut acc = params();
    let mut models = Models::new();
    let mut roster = add_model(&mut acc, &mut models, ADMIN, MODEL_A).unwrap();
    let mut m1 = miner_register(&mut acc, &models, M1, 100, 0).unwrap();
    let mut m2 = miner_register(&mut acc, &models, M2, 100, 0).unwrap();
    join_for_minting(&mut acc, &mut m1, &mut roster, 0).unwrap();
    join_for_minting(&mut acc, &mut m2, &mut roster, 0).unwrap();
    assert_eq!(miner_claim_unstaked(&mut m1, 0), Err(SolLearnError::AlreadyActivated));
    assert_eq!(miner_unstake(&mut acc, &mut m1, &mut roster, 2, 0), Err(SolLearnError::InvalidModelIndex));
    assert_eq!(miner_unstake(&mut acc, &mut m1, &mut roster, 1, 0), Err(SolLearnError::MinerNotRegistered));
    assert_eq!(roster.data, vec![M1, M2]);
    assert_eq!(miner_unstake(&mut acc, &mut m2, &mut roster, 1, 0), Ok(()));
    assert_eq!(roster.data, vec![M1]);
    assert_eq!(miner_unstake(&mut acc, &mut m2, &mut roster, 0, 0), Err(SolLearnError::StillUnstaking));
    assert_eq!(miner_claim_unstaked(&mut m2, 40), Ok(100));
    assert_eq!(miner_unstake(&mut acc, &mut m2, &mut roster, 0, 41), Err(SolLearnError::StakingZeroValue));
    assert_eq!(miner_claim_unstaked(&mut m2, 41), Err(SolLearnError::CanNotClaim));
}

#[test]
fn assignment_creation_rejections() {
    let mut q = Tasks::new();
    assert!(matches!(create_assignment(&mut q, 1), Err(SolLearnError::NoValidTask)));
    q.push_task(TaskAction::PayToRecipient { recipient: TREASURY, amount: 5 }.encode());
    assert!(matches!(create_assignment(&mut q, 1), Err(SolLearnError::NoValidTask)));
    q.push_task(TaskAction::CreateAssignment { assignment_id: 2, inference_id: 1, worker: M1, role: 1 }.encode());
    assert!(matches!(create_assignment(&mut q, 1), Err(SolLearnError::WrongAssignmentId)));
    assert_eq!(q.get_task_count(), 2);
    let a = create_assignment(&mut q, 2).unwrap();
    assert_eq!((a.id, a.inference_id, a.worker, a.role, a.vote), (2, 1, M1, 1, 0));
    assert_eq!(a.commitment, [0; 32]);
    assert!(a.output.is_empty());
    assert_eq!(q.get_task_count(), 1);
}
