use solearn::error::SolLearnError;
use solearn::executor::{pay_miner, slash_miner};
use solearn::hash::{commitment_hash, Key};
use solearn::inference::{
    commit, create_assignment, infer, seize_miner_role, submit_solution, Assignment, Inference,
    VotingInfo,
};
use solearn::miner::{join_for_minting, miner_claim_reward, miner_claim_unstaked, miner_register, miner_unstake, topup, MinerInfo};
use solearn::registry::{add_model, MinersOfModel, Models};
use solearn::resolve::{resolve_inference, reveal_solution};
use solearn::state::{initialize, DAOTokenPercentage, SolLearnInfo};
use solearn::task::{TaskAction, Tasks};

const ADMIN: Key = [9; 32];
const TOKEN: Key = [6; 32];
const TREASURY: Key = [8; 32];
const USER: Key = [7; 32];
const MODEL_A: Key = [0xAA; 32];
const M1: Key = [1; 32];
const M2: Key = [2; 32];
const M3: Key = [3; 32];

fn hex(s: &str) -> Key {
    let mut k = [0u8; 32];
    for i in 0..32 {
        k[i] = u8::from_str_radix(&s[2 * i..2 * i + 2], 16).unwrap();
    }
    k
}

fn params() -> SolLearnInfo {
    let dao = DAOTokenPercentage {
        miner_percentage: 0,
        user_percentage: 0,
        referrer_percentage: 0,
        referee_percentage: 0,
        l2_owner_percentage: 0,
    };
    initialize(
        ADMIN, TOKEN, 0, 7, 10, 100, 10, TREASURY, 500, 500, 6000, 10, 20, 30, 50, 3, 100,
        1000, 0, dao, 40,
    )
    .unwrap()
}

struct World {
    acc: SolLearnInfo,
    models: Models,
    roster: MinersOfModel,
    miners: Vec<MinerInfo>,
    tasks: Tasks,
}

fn world(stakes: &[(Key, u64)]) -> World {
    let mut acc = params();
    let mut models = Models::new();
    let mut roster = add_model(&mut acc, &mut models, ADMIN, MODEL_A).unwrap();
    let mut miners = Vec::new();
    for (key, stake) in stakes {
        let mut m = miner_register(&mut acc, &models, *key, *stake, 0).unwrap();
        join_for_minting(&mut acc, &mut m, &mut roster, 0).unwrap();
        miners.push(m);
    }
    World { acc, models, roster, miners, tasks: Tasks::new() }
}

fn three_miners() -> World {
    world(&[(M1, 100), (M2, 100), (M3, 100)])
}

/// Opens inference 1 paying 110 at time 0 and materializes its three
/// assignments; returns them indexed by assignment id - 1.
fn open_request(w: &mut World) -> (Inference, Vec<Assignment>) {
    let inf = infer(
        &mut w.acc, &w.models, &mut w.roster, &mut w.tasks, 1, USER, b"x".to_vec(), 110, MODEL_A, 0,
    )
    .unwrap();
    let a3 = create_assignment(&mut w.tasks, 3).unwrap();
    let a2 = create_assignment(&mut w.tasks, 2).unwrap();
    let a1 = create_assignment(&mut w.tasks, 1).unwrap();
    (inf, vec![a1, a2, a3])
}

fn blank_assignment() -> Assignment {
    Assignment {
        id: 0,
        inference_id: 0,
        commitment: [0; 32],
        digest: [0; 32],
        reveal_nonce: 0,
        worker: [0; 32],
        role: 0,
        vote: 0,
        output: Vec::new(),
    }
}

fn index_of_worker(asgs: &[Assignment], worker: Key) -> usize {
    asgs.iter().position(|a| a.worker == worker).unwrap()
}

#[test]
fn happy_path_three_of_three() {
    let mut w = three_miners();
    let mut inf = infer(
        &mut w.acc, &w.models, &mut w.roster, &mut w.tasks, 1, USER, b"x".to_vec(), 110, MODEL_A, 0,
    )
    .unwrap();
    assert_eq!(inf.value, 90);
    assert_eq!(inf.fee_l2, 5);
    assert_eq!(inf.fee_treasury, 5);
    assert_eq!(inf.assignments, vec![1, 2, 3]);
    assert_eq!(inf.digests.len(), 3);
    assert_eq!(inf.status, 1);
    assert_eq!((inf.submit_timeout, inf.commit_timeout, inf.reveal_timeout), (10, 30, 60));
    assert_eq!(w.tasks.get_task_count(), 3);
    assert_eq!(w.acc.inference_number, 1);
    assert_eq!(w.acc.assignment_number, 3);
    // Draws at time 0 take M3, then M2, then M1.
    assert_eq!(w.roster.data, vec![M3, M2, M1]);

    let mut a3 = create_assignment(&mut w.tasks, 3).unwrap();
    let mut a2 = create_assignment(&mut w.tasks, 2).unwrap();
    let mut a1 = create_assignment(&mut w.tasks, 1).unwrap();
    assert_eq!((a1.worker, a2.worker, a3.worker), (M3, M2, M1));
    assert_eq!(w.tasks.get_task_count(), 0);

    seize_miner_role(&mut inf, &mut a3, M1, 3, 1).unwrap();
    submit_solution(&mut inf, &mut a3, M1, 3, 1, b"y".to_vec(), 1).unwrap();
    let d = hex("b43f96d515b01ba1e048cb592b380b53d6c7df8233a957e5df27c05b36078e91");
    assert_eq!(a3.digest, d);
    assert_eq!(a3.commitment, d);
    assert_eq!(inf.status, 2);

    let mut voting = VotingInfo::new();
    let c2 = commitment_hash(42, &M2, &b"y".to_vec());
    let c3 = commitment_hash(43, &M3, &b"y".to_vec());
    commit(&mut inf, &mut a2, &mut voting, M2, 2, 1, c2, 2).unwrap();
    assert_eq!(inf.status, 2);
    commit(&mut inf, &mut a1, &mut voting, M3, 1, 1, c3, 3).unwrap();
    assert_eq!(inf.status, 3);

    let r = reveal_solution(&w.acc, &mut inf, &mut a2, &mut voting, &mut w.tasks, M2, 2, 1, 42, b"y".to_vec(), 4);
    assert_eq!(r, Ok(0));
    assert_eq!(inf.status, 3);
    let r = reveal_solution(&w.acc, &mut inf, &mut a1, &mut voting, &mut w.tasks, M3, 1, 1, 43, b"y".to_vec(), 5);
    assert_eq!(r, Ok(0));
    assert_eq!(inf.digests, vec![d, d, d]);
    assert_eq!(inf.status, 4);

    // Queued in order: assignments 1, 2, 3, then the two fees.
    assert_eq!(w.tasks.get_task_count(), 5);
    let mut total: u64 = 0;
    let treasury_pay = pay_miner(&mut w.tasks, &mut a1, TREASURY, 0).unwrap();
    let l2_pay = pay_miner(&mut w.tasks, &mut a1, ADMIN, 0).unwrap();
    assert_eq!((treasury_pay, l2_pay), (5, 5));
    let m1_pay = pay_miner(&mut w.tasks, &mut a3, M1, 3).unwrap();
    let m2_pay = pay_miner(&mut w.tasks, &mut a2, M2, 2).unwrap();
    let m3_pay = pay_miner(&mut w.tasks, &mut a1, M3, 1).unwrap();
    assert_eq!((m1_pay, m2_pay, m3_pay), (54, 18, 18));
    assert_eq!((a1.vote, a2.vote, a3.vote), (2, 2, 2));
    total += treasury_pay + l2_pay + m1_pay + m2_pay + m3_pay;
    assert!(total <= 110);
    assert_eq!(w.tasks.get_task_count(), 0);
}

#[test]
fn miner_times_out() {
    let mut w = three_miners();
    let (mut inf, mut asgs) = open_request(&mut w);
    let i1 = index_of_worker(&asgs, M1);
    let aid = asgs[i1].id;
    seize_miner_role(&mut inf, &mut asgs[i1], M1, aid, 1).unwrap();
    let voting = VotingInfo::new();
    assert_eq!(resolve_inference(&w.acc, &mut inf, &voting, &mut w.tasks, 1, 10), Ok(0));
    assert_eq!(inf.status, 1);
    assert_eq!(resolve_inference(&w.acc, &mut inf, &voting, &mut w.tasks, 1, 11), Ok(100));
    assert_eq!(inf.status, 5);
    let t = w.tasks.last_task().unwrap().decode();
    assert_eq!(t, TaskAction::SlashByMiner { miner: M1, is_fined: true });

    let mut m1 = w.miners[0];
    let mut other = blank_assignment();
    let fine = slash_miner(&w.acc, &mut w.tasks, &mut m1, &mut w.roster, &mut other, 0, 11).unwrap();
    assert_eq!(fine, 10);
    assert_eq!(m1.stake_amount, 90);
    assert!(!m1.is_active);
    assert_eq!(m1.active_time, 61);
    assert!(!w.roster.data.contains(&M1));
    assert_eq!(w.tasks.get_task_count(), 0);
}

#[test]
fn commit_shortfall_refunds() {
    let mut w = three_miners();
    let (mut inf, mut asgs) = open_request(&mut w);
    let i1 = index_of_worker(&asgs, M1);
    let i2 = index_of_worker(&asgs, M2);
    let i3 = index_of_worker(&asgs, M3);
    let (a_m1, a_m2, a_m3) = (asgs[i1].id, asgs[i2].id, asgs[i3].id);
    seize_miner_role(&mut inf, &mut asgs[i1], M1, a_m1, 1).unwrap();
    submit_solution(&mut inf, &mut asgs[i1], M1, a_m1, 1, b"y".to_vec(), 1).unwrap();
    let mut voting = VotingInfo::new();
    let c2 = commitment_hash(42, &M2, &b"y".to_vec());
    commit(&mut inf, &mut asgs[i2], &mut voting, M2, a_m2, 1, c2, 2).unwrap();
    assert_eq!(resolve_inference(&w.acc, &mut inf, &voting, &mut w.tasks, 1, 31), Ok(100));
    assert_eq!(inf.status, 4);
    assert_eq!(w.tasks.get_task_count(), 3);
    for id in [3u64, 2, 1] {
        let t = w.tasks.last_task().unwrap().decode();
        assert_eq!(
            t,
            TaskAction::SlashByAssignment {
                assignment_id: id,
                is_fined: false,
                check_empty_commit: true,
                vote: 0
            }
        );
        let idx = (id - 1) as usize;
        let worker = asgs[idx].worker;
        let mi = [M1, M2, M3].iter().position(|k| *k == worker).unwrap();
        let mut m = w.miners[mi];
        let before = m;
        let fine = slash_miner(&w.acc, &mut w.tasks, &mut m, &mut w.roster, &mut asgs[idx], id, 31).unwrap();
        assert_eq!(fine, 0);
        if id == a_m3 {
            assert!(!m.is_active);
            assert_eq!(m.active_time, 81);
            assert!(!w.roster.data.contains(&M3));
        } else {
            assert_eq!(m, before);
        }
    }
    assert!(w.roster.data.contains(&M1) && w.roster.data.contains(&M2));
}

#[test]
fn split_vote_pays_majority() {
    let mut w = three_miners();
    let (mut inf, mut asgs) = open_request(&mut w);
    let i1 = index_of_worker(&asgs, M1);
    let i2 = index_of_worker(&asgs, M2);
    let i3 = index_of_worker(&asgs, M3);
    let (a_m1, a_m2, a_m3) = (asgs[i1].id, asgs[i2].id, asgs[i3].id);
    seize_miner_role(&mut inf, &mut asgs[i1], M1, a_m1, 1).unwrap();
    submit_solution(&mut inf, &mut asgs[i1], M1, a_m1, 1, b"y".to_vec(), 1).unwrap();
    let mut voting = VotingInfo::new();
    let c2 = commitment_hash(5, &M2, &b"y".to_vec());
    let c3 = commitment_hash(6, &M3, &b"z".to_vec());
    commit(&mut inf, &mut asgs[i2], &mut voting, M2, a_m2, 1, c2, 2).unwrap();
    commit(&mut inf, &mut asgs[i3], &mut voting, M3, a_m3, 1, c3, 2).unwrap();
    reveal_solution(&w.acc, &mut inf, &mut asgs[i2], &mut voting, &mut w.tasks, M2, a_m2, 1, 5, b"y".to_vec(), 3).unwrap();
    let r = reveal_solution(&w.acc, &mut inf, &mut asgs[i3], &mut voting, &mut w.tasks, M3, a_m3, 1, 6, b"z".to_vec(), 3);
    assert_eq!(r, Ok(0));
    assert_eq!(inf.status, 4);
    assert_eq!(w.tasks.get_task_count(), 5);
    assert_eq!(pay_miner(&mut w.tasks, &mut asgs[i1], TREASURY, 0), Ok(5));
    assert_eq!(pay_miner(&mut w.tasks, &mut asgs[i1], ADMIN, 0), Ok(5));
    // Assignments 3, 2, 1 hold M1, M2, M3.
    assert_eq!(pay_miner(&mut w.tasks, &mut asgs[i1], M1, a_m1), Ok(54));
    assert_eq!(pay_miner(&mut w.tasks, &mut asgs[i2], M2, a_m2), Ok(36));
    let t = w.tasks.last_task().unwrap().decode();
    assert_eq!(
        t,
        TaskAction::SlashByAssignment { assignment_id: a_m3, is_fined: true, check_empty_commit: false, vote: 1 }
    );
    let mut m3 = w.miners[2];
    let fine = slash_miner(&w.acc, &mut w.tasks, &mut m3, &mut w.roster, &mut asgs[i3], a_m3, 3).unwrap();
    assert_eq!(fine, 10);
    assert_eq!(m3.stake_amount, 90);
    assert_eq!(asgs[i3].vote, 1);
}

#[test]
fn unstake_then_claim_reward() {
    let mut w = world(&[(M1, 200)]);
    let mut m = w.miners[0];
    assert_eq!(m.stake_amount, 200);
    assert!(m.is_active);
    miner_unstake(&mut w.acc, &mut m, &mut w.roster, 0, 50).unwrap();
    assert_eq!(w.acc.last_epoch, 5);
    assert_eq!(m.reward, 35);
    assert!(!m.is_active);
    assert!(w.roster.data.is_empty());
    assert_eq!(m.unstaking_time, 90);
    assert_eq!(miner_claim_unstaked(&mut m, 89), Err(SolLearnError::CanNotClaim));
    assert_eq!(miner_claim_unstaked(&mut m, 90), Ok(200));
    assert_eq!(m.stake_amount, 0);
    assert_eq!(miner_claim_reward(&mut w.acc, &mut m, 90), Ok(35));
    assert_eq!(m.reward, 0);
    assert_eq!(miner_claim_reward(&mut w.acc, &mut m, 95), Err(SolLearnError::NothingToClaim));
}

#[test]
fn rejoin_after_slash() {
    let mut w = three_miners();
    let (mut inf, mut asgs) = open_request(&mut w);
    let i1 = index_of_worker(&asgs, M1);
    let aid = asgs[i1].id;
    seize_miner_role(&mut inf, &mut asgs[i1], M1, aid, 1).unwrap();
    let voting = VotingInfo::new();
    resolve_inference(&w.acc, &mut inf, &voting, &mut w.tasks, 1, 11).unwrap();
    let mut m1 = w.miners[0];
    let mut other = blank_assignment();
    slash_miner(&w.acc, &mut w.tasks, &mut m1, &mut w.roster, &mut other, 0, 11).unwrap();
    assert_eq!(m1.active_time, 61);
    assert_eq!(join_for_minting(&mut w.acc, &mut m1, &mut w.roster, 60), Err(SolLearnError::NotActiveYet));
    assert_eq!(join_for_minting(&mut w.acc, &mut m1, &mut w.roster, 61), Err(SolLearnError::MustGreatThanMinStake));
    topup(&mut m1, 10);
    assert_eq!(m1.stake_amount, 100);
    assert_eq!(join_for_minting(&mut w.acc, &mut m1, &mut w.roster, 61), Ok(()));
    assert!(m1.is_active);
    assert_eq!(m1.last_epoch, 6);
    assert_eq!(w.roster.data.iter().filter(|k| **k == M1).count(), 1);
}
