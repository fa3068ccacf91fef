//! Deferred work items: a typed action, its fixed 50-byte record (one kind
//! byte and a 49-byte payload), and the queue of records that permissionless
//! callers drain one at a time, newest first.
use crate::error::SolLearnError;
use crate::hash::{push_key, push_u64_le, Key};
use vstd::bytes::*;
use vstd::prelude::*;

verus! {

/// Width of one task record in bytes.
pub const TASK_LEN: usize = 50;

/// The kind of a task, stored in the first byte of its record.
#[derive(PartialEq, Eq, Structural, Clone, Copy, Debug)]
pub enum FnType {
    CreateAssignment,
    PayMiner,
    SlashMiner,
}

/// A deferred action with its typed payload.
#[derive(PartialEq, Eq, Clone, Copy, Debug)]
pub enum TaskAction {
    /// Materialize the assignment of a committee member.
    CreateAssignment { assignment_id: u64, inference_id: u64, worker: Key, role: u8 },
    /// Pay the worker of an assignment and record its vote.
    PayByAssignment { assignment_id: u64, amount: u64, vote: u8 },
    /// Pay a fixed recipient (the layer-2 owner or the treasury).
    PayToRecipient { recipient: Key, amount: u64 },
    /// Slash a miner named by its identity.
    SlashByMiner { miner: Key, is_fined: bool },
    /// Slash the worker of an assignment.
    SlashByAssignment { assignment_id: u64, is_fined: bool, check_empty_commit: bool, vote: u8 },
}

pub open spec fn kind_code(k: FnType) -> u8 {
    match k {
        FnType::CreateAssignment => 0,
        FnType::PayMiner => 1,
        FnType::SlashMiner => 2,
    }
}

pub open spec fn kind_of_code(b: u8) -> FnType
    recommends
        b < 3,
{
    if b == 0 {
        FnType::CreateAssignment
    } else if b == 1 {
        FnType::PayMiner
    } else {
        FnType::SlashMiner
    }
}

pub open spec fn action_kind(a: TaskAction) -> FnType {
    match a {
        TaskAction::CreateAssignment { .. } => FnType::CreateAssignment,
        TaskAction::PayByAssignment { .. } => FnType::PayMiner,
        TaskAction::PayToRecipient { .. } => FnType::PayMiner,
        TaskAction::SlashByMiner { .. } => FnType::SlashMiner,
        TaskAction::SlashByAssignment { .. } => FnType::SlashMiner,
    }
}

pub open spec fn flag_byte(b: bool) -> u8 {
    if b {
        1
    } else {
        0
    }
}

pub open spec fn zeros(n: nat) -> Seq<u8> {
    Seq::new(n, |i: int| 0u8)
}

/// The payload bytes of an action before padding.
pub open spec fn payload_spec(a: TaskAction) -> Seq<u8> {
    match a {
        TaskAction::CreateAssignment { assignment_id, inference_id, worker, role } =>
            spec_u64_to_le_bytes(assignment_id) + spec_u64_to_le_bytes(inference_id) + worker@
                + seq![role],
        TaskAction::PayByAssignment { assignment_id, amount, vote } =>
            seq![1u8] + spec_u64_to_le_bytes(assignment_id) + spec_u64_to_le_bytes(amount)
                + seq![vote],
        TaskAction::PayToRecipient { recipient, amount } =>
            seq![0u8] + recipient@ + spec_u64_to_le_bytes(amount),
        TaskAction::SlashByMiner { miner, is_fined } =>
            seq![1u8] + miner@ + seq![flag_byte(is_fined)],
        TaskAction::SlashByAssignment { assignment_id, is_fined, check_empty_commit, vote } =>
            seq![0u8] + spec_u64_to_le_bytes(assignment_id) + seq![
                flag_byte(is_fined),
                flag_byte(check_empty_commit),
                vote,
            ],
    }
}

/// The 50-byte record of an action: kind byte, payload, zero padding.
pub open spec fn encode_spec(a: TaskAction) -> Seq<u8> {
    seq![kind_code(action_kind(a))] + payload_spec(a) + zeros((49 - payload_spec(a).len()) as nat)
}

pub open spec fn u64_at(b: Seq<u8>, at: int) -> u64 {
    spec_u64_from_le_bytes(b.subrange(at, at + 8))
}

/// Whether the 50-byte record `b` reads as the action `a`.
pub open spec fn decodes_to(b: Seq<u8>, a: TaskAction) -> bool {
    &&& b.len() == 50
    &&& match a {
        TaskAction::CreateAssignment { assignment_id, inference_id, worker, role } => {
            &&& b[0] == 0
            &&& assignment_id == u64_at(b, 1)
            &&& inference_id == u64_at(b, 9)
            &&& worker@ == b.subrange(17, 49)
            &&& role == b[49]
        },
        TaskAction::PayByAssignment { assignment_id, amount, vote } => {
            &&& b[0] == 1
            &&& b[1] == 1
            &&& assignment_id == u64_at(b, 2)
            &&& amount == u64_at(b, 10)
            &&& vote == b[18]
        },
        TaskAction::PayToRecipient { recipient, amount } => {
            &&& b[0] == 1
            &&& b[1] != 1
            &&& recipient@ == b.subrange(2, 34)
            &&& amount == u64_at(b, 34)
        },
        TaskAction::SlashByMiner { miner, is_fined } => {
            &&& b[0] == 2
            &&& b[1] == 1
            &&& miner@ == b.subrange(2, 34)
            &&& is_fined == (b[34] == 1)
        },
        TaskAction::SlashByAssignment { assignment_id, is_fined, check_empty_commit, vote } => {
            &&& b[0] == 2
            &&& b[1] != 1
            &&& assignment_id == u64_at(b, 2)
            &&& is_fined == (b[10] == 1)
            &&& check_empty_commit == (b[11] == 1)
            &&& vote == b[12]
        },
    }
}

/// A record is well formed when it is 50 bytes long with a known kind.
pub open spec fn record_wf(b: Seq<u8>) -> bool {
    b.len() == 50 && b[0] < 3
}

/// Encoding an action and reading the record back gives the same action,
/// and no other.
pub proof fn lemma_task_round_trip(a: TaskAction)
    ensures
        record_wf(encode_spec(a)),
        decodes_to(encode_spec(a), a),
        forall|other: TaskAction| decodes_to(encode_spec(a), other) ==> other == a,
{
    lemma_auto_spec_u64_to_from_le_bytes();
    let e = encode_spec(a);
    match a {
        TaskAction::CreateAssignment { assignment_id, inference_id, worker, role } => {
            assert(e.subrange(1, 9) =~= spec_u64_to_le_bytes(assignment_id));
            assert(e.subrange(9, 17) =~= spec_u64_to_le_bytes(inference_id));
            assert(e.subrange(17, 49) =~= worker@);
        },
        TaskAction::PayByAssignment { assignment_id, amount, vote } => {
            assert(e.subrange(2, 10) =~= spec_u64_to_le_bytes(assignment_id));
            assert(e.subrange(10, 18) =~= spec_u64_to_le_bytes(amount));
        },
        TaskAction::PayToRecipient { recipient, amount } => {
            assert(e.subrange(2, 34) =~= recipient@);
            assert(e.subrange(34, 42) =~= spec_u64_to_le_bytes(amount));
        },
        TaskAction::SlashByMiner { miner, is_fined } => {
            assert(e.subrange(2, 34) =~= miner@);
        },
        TaskAction::SlashByAssignment { assignment_id, .. } => {
            assert(e.subrange(2, 10) =~= spec_u64_to_le_bytes(assignment_id));
        },
    }
    assert forall|other: TaskAction| decodes_to(e, other) implies other == a by {
        lemma_decodes_unique(e, a, other);
    }
}

/// A record reads as at most one action.
pub proof fn lemma_decodes_unique(b: Seq<u8>, a1: TaskAction, a2: TaskAction)
    requires
        decodes_to(b, a1),
        decodes_to(b, a2),
    ensures
        a1 == a2,
{
    match a1 {
        TaskAction::CreateAssignment { worker: w1, .. } => {
            if let TaskAction::CreateAssignment { worker: w2, .. } = a2 {
                vstd::array::axiom_array_ext_equal(w1, w2);
            }
        },
        TaskAction::PayToRecipient { recipient: w1, .. } => {
            if let TaskAction::PayToRecipient { recipient: w2, .. } = a2 {
                vstd::array::axiom_array_ext_equal(w1, w2);
            }
        },
        TaskAction::SlashByMiner { miner: w1, .. } => {
            if let TaskAction::SlashByMiner { miner: w2, .. } = a2 {
                vstd::array::axiom_array_ext_equal(w1, w2);
            }
        },
        _ => {},
    }
}

/// Reads the little-endian integer stored at `at`.
pub fn read_u64(b: &Vec<u8>, at: usize) -> (r: u64)
    requires
        at + 8 <= b@.len(),
    ensures
        r == u64_at(b@, at as int),
{
    let n = b.len();
    let mut tmp: Vec<u8> = Vec::new();
    let mut i: usize = 0;
    while i < 8
        invariant
            0 <= i <= 8,
            n == b@.len(),
            at + 8 <= b@.len(),
            tmp@ == b@.subrange(at as int, at + i),
        decreases 8 - i,
    {
        tmp.push(b[at + i]);
        i = i + 1;
        assert(tmp@ =~= b@.subrange(at as int, at + i));
    }
    u64_from_le_bytes(tmp.as_slice())
}

/// Reads the 32-byte key stored at `at`.
pub fn read_key(b: &Vec<u8>, at: usize) -> (k: Key)
    requires
        at + 32 <= b@.len(),
    ensures
        k@ == b@.subrange(at as int, at + 32),
{
    let n = b.len();
    let mut k: Key = [0u8; 32];
    let mut i: usize = 0;
    while i < 32
        invariant
            0 <= i <= 32,
            n == b@.len(),
            at + 32 <= b@.len(),
            forall|j: int| 0 <= j < i ==> k@[j] == b@[at + j],
        decreases 32 - i,
    {
        k[i] = b[at + i];
        i = i + 1;
    }
    assert(k@ =~= b@.subrange(at as int, at + 32));
    k
}

/// One fixed-width task record.
pub struct Task {
    b: Vec<u8>,
}

impl View for Task {
    type V = Seq<u8>;

    closed spec fn view(&self) -> Seq<u8> {
        self.b@
    }
}

impl Task {
    /// A record of the given kind whose payload is `data` padded with zeros.
    pub fn new(fn_type: FnType, data: Vec<u8>) -> (r: Task)
        requires
            data@.len() <= 49,
        ensures
            r@ == seq![kind_code(fn_type)] + data@ + zeros((49 - data@.len()) as nat),
            record_wf(r@),
    {
        let mut b: Vec<u8> = Vec::new();
        let code: u8 = match fn_type {
            FnType::CreateAssignment => 0,
            FnType::PayMiner => 1,
            FnType::SlashMiner => 2,
        };
        b.push(code);
        let mut i: usize = 0;
        while i < data.len()
            invariant
                0 <= i <= data@.len(),
                b@ == seq![code] + data@.subrange(0, i as int),
            decreases data@.len() - i,
        {
            b.push(data[i]);
            i = i + 1;
            assert(b@ =~= seq![code] + data@.subrange(0, i as int));
        }
        assert(data@.subrange(0, data@.len() as int) =~= data@);
        let ghost head = b@;
        while b.len() < TASK_LEN
            invariant
                head.len() <= b@.len() <= 50,
                head == seq![code] + data@,
                b@ == head + zeros((b@.len() - head.len()) as nat),
            decreases 50 - b@.len(),
        {
            b.push(0);
            assert(b@ =~= head + zeros((b@.len() - head.len()) as nat));
        }
        Task { b }
    }

    /// The kind stored in the first byte.
    pub fn fn_type(&self) -> (r: FnType)
        requires
            record_wf(self@),
        ensures
            r == kind_of_code(self@[0]),
            kind_code(r) == self@[0],
    {
        let code = self.b[0];
        if code == 0 {
            FnType::CreateAssignment
        } else if code == 1 {
            FnType::PayMiner
        } else {
            FnType::SlashMiner
        }
    }

    /// The 49 payload bytes.
    pub fn data(&self) -> (r: Vec<u8>)
        requires
            self@.len() == 50,
        ensures
            r@ == self@.subrange(1, 50),
    {
        let mut r: Vec<u8> = Vec::new();
        let mut i: usize = 1;
        while i < TASK_LEN
            invariant
                1 <= i <= 50,
                self@.len() == 50,
                r@ == self@.subrange(1, i as int),
            decreases 50 - i,
        {
            r.push(self.b[i]);
            i = i + 1;
            assert(r@ =~= self@.subrange(1, i as int));
        }
        r
    }

    /// The whole record.
    pub fn to_bytes(&self) -> (r: Vec<u8>)
        ensures
            r@ == self@,
    {
        let mut r: Vec<u8> = Vec::new();
        let mut i: usize = 0;
        while i < self.b.len()
            invariant
                0 <= i <= self@.len(),
                r@ == self@.subrange(0, i as int),
            decreases self@.len() - i,
        {
            r.push(self.b[i]);
            i = i + 1;
            assert(r@ =~= self@.subrange(0, i as int));
        }
        assert(self@.subrange(0, self@.len() as int) =~= self@);
        r
    }

    /// Reads the record as a typed action.
    pub fn decode(&self) -> (r: TaskAction)
        requires
            record_wf(self@),
        ensures
            decodes_to(self@, r),
    {
        let b = &self.b;
        let code = b[0];
        if code == 0 {
            TaskAction::CreateAssignment {
                assignment_id: read_u64(b, 1),
                inference_id: read_u64(b, 9),
                worker: read_key(b, 17),
                role: b[49],
            }
        } else if code == 1 {
            if b[1] == 1 {
                TaskAction::PayByAssignment {
                    assignment_id: read_u64(b, 2),
                    amount: read_u64(b, 10),
                    vote: b[18],
                }
            } else {
                TaskAction::PayToRecipient { recipient: read_key(b, 2), amount: read_u64(b, 34) }
            }
        } else {
            if b[1] == 1 {
                TaskAction::SlashByMiner { miner: read_key(b, 2), is_fined: b[34] == 1 }
            } else {
                TaskAction::SlashByAssignment {
                    assignment_id: read_u64(b, 2),
                    is_fined: b[10] == 1,
                    check_empty_commit: b[11] == 1,
                    vote: b[12],
                }
            }
        }
    }
}

fn flag(b: bool) -> (r: u8)
    ensures
        r == flag_byte(b),
{
    if b {
        1
    } else {
        0
    }
}

impl TaskAction {
    /// The kind of record this action is stored as.
    pub fn kind(&self) -> (r: FnType)
        ensures
            r == action_kind(*self),
    {
        match self {
            TaskAction::CreateAssignment { .. } => FnType::CreateAssignment,
            TaskAction::PayByAssignment { .. } => FnType::PayMiner,
            TaskAction::PayToRecipient { .. } => FnType::PayMiner,
            TaskAction::SlashByMiner { .. } => FnType::SlashMiner,
            TaskAction::SlashByAssignment { .. } => FnType::SlashMiner,
        }
    }

    /// The 50-byte record of this action.
    pub fn encode(&self) -> (r: Task)
        ensures
            r@ == encode_spec(*self),
            record_wf(r@),
    {
        let mut p: Vec<u8> = Vec::new();
        match self {
            TaskAction::CreateAssignment { assignment_id, inference_id, worker, role } => {
                push_u64_le(&mut p, *assignment_id);
                push_u64_le(&mut p, *inference_id);
                push_key(&mut p, worker);
                p.push(*role);
            },
            TaskAction::PayByAssignment { assignment_id, amount, vote } => {
                p.push(1);
                push_u64_le(&mut p, *assignment_id);
                push_u64_le(&mut p, *amount);
                p.push(*vote);
            },
            TaskAction::PayToRecipient { recipient, amount } => {
                p.push(0);
                push_key(&mut p, recipient);
                push_u64_le(&mut p, *amount);
            },
            TaskAction::SlashByMiner { miner, is_fined } => {
                p.push(1);
                push_key(&mut p, miner);
                p.push(flag(*is_fined));
            },
            TaskAction::SlashByAssignment { assignment_id, is_fined, check_empty_commit, vote } => {
                p.push(0);
                push_u64_le(&mut p, *assignment_id);
                p.push(flag(*is_fined));
                p.push(flag(*check_empty_commit));
                p.push(*vote);
            },
        }
        proof {
            lemma_auto_spec_u64_to_from_le_bytes();
            assert(p@ =~= payload_spec(*self));
        }
        let k = self.kind();
        Task::new(k, p)
    }
}

/// The bytes of a sequence of records laid end to end.
pub open spec fn flatten(s: Seq<Seq<u8>>) -> Seq<u8>
    decreases s.len(),
{
    if s.len() == 0 {
        Seq::empty()
    } else {
        flatten(s.drop_last()) + s.last()
    }
}

pub proof fn lemma_flatten_len(s: Seq<Seq<u8>>)
    requires
        forall|i: int| 0 <= i < s.len() ==> (#[trigger] s[i]).len() == 50,
    ensures
        flatten(s).len() == 50 * s.len(),
    decreases s.len(),
{
    if s.len() > 0 {
        lemma_flatten_len(s.drop_last());
    }
}

/// The queue of pending tasks, stored as one flat byte buffer of 50-byte
/// records. Tasks are appended at the back and taken from the back.
pub struct Tasks {
    values: Vec<u8>,
    records: Ghost<Seq<Seq<u8>>>,
}

impl View for Tasks {
    type V = Seq<Seq<u8>>;

    /// The records in the order they were pushed.
    closed spec fn view(&self) -> Seq<Seq<u8>> {
        self.records@
    }
}

impl Tasks {
    pub closed spec fn wf(&self) -> bool {
        &&& self.values@ == flatten(self.records@)
        &&& forall|i: int| 0 <= i < self.records@.len() ==> record_wf(#[trigger] self.records@[i])
    }

    /// Length of the underlying byte buffer.
    pub closed spec fn byte_len(&self) -> nat {
        self.values@.len()
    }

    /// An empty queue.
    pub fn new() -> (r: Tasks)
        ensures
            r.wf(),
            r@ == Seq::<Seq<u8>>::empty(),
    {
        Tasks { values: Vec::new(), records: Ghost(Seq::empty()) }
    }

    /// The buffer of a well-formed queue holds exactly 50 bytes per task.
    pub proof fn lemma_buffer_len(&self)
        requires
            self.wf(),
        ensures
            self.byte_len() == 50 * self@.len(),
            self.byte_len() % 50 == 0,
            forall|i: int| 0 <= i < self@.len() ==> record_wf(#[trigger] self@[i]),
    {
        lemma_flatten_len(self.records@);
    }

    /// Number of pending tasks.
    pub fn get_task_count(&self) -> (r: u64)
        requires
            self.wf(),
        ensures
            r == self@.len(),
    {
        proof {
            self.lemma_buffer_len();
        }
        (self.values.len() / TASK_LEN) as u64
    }

    /// The raw byte buffer.
    pub fn to_bytes(&self) -> (r: Vec<u8>)
        requires
            self.wf(),
        ensures
            r@ == flatten(self@),
            r@.len() == 50 * self@.len(),
    {
        proof {
            self.lemma_buffer_len();
        }
        let mut r: Vec<u8> = Vec::new();
        let mut i: usize = 0;
        while i < self.values.len()
            invariant
                0 <= i <= self.values@.len(),
                r@ == self.values@.subrange(0, i as int),
            decreases self.values@.len() - i,
        {
            r.push(self.values[i]);
            i = i + 1;
            assert(r@ =~= self.values@.subrange(0, i as int));
        }
        assert(self.values@.subrange(0, self.values@.len() as int) =~= self.values@);
        r
    }

    /// Appends a record at the back.
    pub fn push_task(&mut self, task: Task)
        requires
            old(self).wf(),
            record_wf(task@),
        ensures
            final(self).wf(),
            final(self)@ == old(self)@.push(task@),
    {
        let mut i: usize = 0;
        let ghost start = self.values@;
        while i < TASK_LEN
            invariant
                0 <= i <= 50,
                record_wf(task@),
                self.records@ == old(self).records@,
                start == flatten(self.records@),
                forall|j: int|
                    0 <= j < self.records@.len() ==> record_wf(#[trigger] self.records@[j]),
                self.values@ == start + task@.subrange(0, i as int),
            decreases 50 - i,
        {
            self.values.push(task.b[i]);
            i = i + 1;
            assert(self.values@ =~= start + task@.subrange(0, i as int));
        }
        assert(task@.subrange(0, 50) =~= task@);
        let ghost old_records = self.records@;
        self.records = Ghost(self.records@.push(task@));
        proof {
            assert(self.records@.drop_last() =~= old_records);
            assert forall|j: int| 0 <= j < self.records@.len() implies record_wf(
                #[trigger] self.records@[j],
            ) by {
                if j < old_records.len() {
                    assert(self.records@[j] == old_records[j]);
                } else {
                    assert(self.records@[j] == task@);
                }
            }
        }
    }

    /// The record at the back, if any, without removing it.
    pub fn last_task(&self) -> (r: Option<Task>)
        requires
            self.wf(),
        ensures
            self@.len() == 0 ==> r.is_none(),
            self@.len() > 0 ==> r.is_some() && r.unwrap()@ == self@.last(),
            r.is_some() ==> record_wf(r.unwrap()@),
    {
        proof {
            self.lemma_buffer_len();
        }
        let n = self.values.len();
        if n < TASK_LEN {
            return None;
        }
        proof {
            assert(self.records@.len() > 0);
            lemma_flatten_len(self.records@.drop_last());
            assert(self.values@.subrange(n - 50, n as int) =~= self.records@.last());
        }
        let mut b: Vec<u8> = Vec::new();
        let mut i: usize = n - TASK_LEN;
        while i < n
            invariant
                n >= 50,
                n - 50 <= i <= n,
                n == self.values@.len(),
                b@ == self.values@.subrange(n - 50, i as int),
            decreases n - i,
        {
            b.push(self.values[i]);
            i = i + 1;
            assert(b@ =~= self.values@.subrange(n - 50, i as int));
        }
        Some(Task { b })
    }

    /// Removes and returns the record at the back, if any.
    pub fn pop_task(&mut self) -> (r: Option<Task>)
        requires
            old(self).wf(),
        ensures
            final(self).wf(),
            old(self)@.len() == 0 ==> r.is_none() && final(self)@ == old(self)@,
            old(self)@.len() > 0 ==> r.is_some() && r.unwrap()@ == old(self)@.last()
                && final(self)@ == old(self)@.drop_last(),
            r.is_some() ==> record_wf(r.unwrap()@),
    {
        let r = self.last_task();
        match r {
            None => None,
            Some(t) => {
                proof {
                    self.lemma_buffer_len();
                    lemma_flatten_len(self.records@.drop_last());
                }
                let n = self.values.len();
                self.values.truncate(n - TASK_LEN);
                proof {
                    assert(self.values@ =~= flatten(self.records@.drop_last()));
                }
                let ghost old_records = self.records@;
                self.records = Ghost(self.records@.drop_last());
                proof {
                    assert forall|j: int| 0 <= j < self.records@.len() implies record_wf(
                        #[trigger] self.records@[j],
                    ) by {
                        assert(self.records@[j] == old_records[j]);
                    }
                }
                Some(t)
            },
        }
    }

    /// Fails while any task is pending.
    pub fn only_empty_tasks(&self) -> (r: Result<(), SolLearnError>)
        requires
            self.wf(),
        ensures
            r.is_ok() <==> self@.len() == 0,
            r.is_err() ==> r == Err::<(), SolLearnError>(SolLearnError::MustWaitTasks),
    {
        proof {
            self.lemma_buffer_len();
        }
        if self.values.len() > 0 {
            Err(SolLearnError::MustWaitTasks)
        } else {
            Ok(())
        }
    }
}

} // verus!
