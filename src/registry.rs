//! The model registry, the per-model rosters of active miners, and the
//! pseudo-random committee selection over a roster.
use crate::error::SolLearnError;
use crate::hash::{key_eq, random_number, random_spec, Key};
use crate::state::SolLearnInfo;
use vstd::multiset::*;
use vstd::prelude::*;
use vstd::seq_lib::*;

verus! {

/// The registered models, in registration order.
pub struct Models {
    pub data: Vec<Key>,
}

/// The miners currently active for one model, in join order.
pub struct MinersOfModel {
    pub model: Key,
    pub data: Vec<Key>,
}

impl Models {
    /// No model is registered twice.
    pub open spec fn wf(&self) -> bool {
        self.data@.no_duplicates()
    }

    pub fn new() -> (r: Models)
        ensures
            r.data@ == Seq::<Key>::empty(),
            r.wf(),
    {
        Models { data: Vec::new() }
    }
}

impl MinersOfModel {
    /// No miner appears twice in a roster.
    pub open spec fn wf(&self) -> bool {
        self.data@.no_duplicates()
    }

    pub fn new(model: Key) -> (r: MinersOfModel)
        ensures
            r.model == model,
            r.data@ == Seq::<Key>::empty(),
            r.wf(),
    {
        MinersOfModel { model, data: Vec::new() }
    }
}

/// The position of the first occurrence of `k`, if any.
pub fn find_key(v: &Vec<Key>, k: &Key) -> (r: Option<usize>)
    ensures
        r.is_none() ==> !v@.contains(*k),
        r.is_some() ==> r.unwrap() < v@.len() && v@[r.unwrap() as int] == *k && forall|j: int|
            0 <= j < r.unwrap() ==> v@[j] != *k,
{
    let mut i: usize = 0;
    while i < v.len()
        invariant
            0 <= i <= v@.len(),
            forall|j: int| 0 <= j < i ==> v@[j] != *k,
        decreases v@.len() - i,
    {
        if key_eq(&v[i], k) {
            return Some(i);
        }
        i = i + 1;
    }
    None
}

/// Removing an element keeps a sequence free of duplicates.
pub proof fn lemma_remove_no_dup(s: Seq<Key>, i: int)
    requires
        s.no_duplicates(),
        0 <= i < s.len(),
    ensures
        s.remove(i).no_duplicates(),
        !s.remove(i).contains(s[i]),
        forall|k: Key| k != s[i] ==> (s.remove(i).contains(k) <==> s.contains(k)),
{
    let t = s.remove(i);
    assert forall|a: int, b: int| 0 <= a < t.len() && 0 <= b < t.len() && a != b implies t[a]
        != t[b] by {
        let a2 = if a < i {
            a
        } else {
            a + 1
        };
        let b2 = if b < i {
            b
        } else {
            b + 1
        };
        assert(t[a] == s[a2] && t[b] == s[b2]);
    }
    assert forall|k: Key| s.contains(k) && k != s[i] implies t.contains(k) by {
        let j = choose|j: int| 0 <= j < s.len() && s[j] == k;
        if j < i {
            assert(t[j] == k);
        } else {
            assert(t[j - 1] == k);
        }
    }
    assert forall|k: Key| t.contains(k) implies s.contains(k) && k != s[i] by {
        let j = choose|j: int| 0 <= j < t.len() && t[j] == k;
        if j < i {
            assert(s[j] == k);
        } else {
            assert(s[j + 1] == k);
        }
    }
}

/// Appending an absent element keeps a sequence free of duplicates.
pub proof fn lemma_push_no_dup(s: Seq<Key>, k: Key)
    requires
        s.no_duplicates(),
        !s.contains(k),
    ensures
        s.push(k).no_duplicates(),
{
    let t = s.push(k);
    assert forall|a: int, b: int| 0 <= a < t.len() && 0 <= b < t.len() && a != b implies t[a]
        != t[b] by {
        if a == s.len() {
            assert(s[b] == t[b]);
        } else if b == s.len() {
            assert(s[a] == t[a]);
        }
    }
}

/// Registers a model with an empty roster (admin only).
pub fn add_model(acc: &mut SolLearnInfo, models: &mut Models, signer: Key, model: Key) -> (r: Result<
    MinersOfModel,
    SolLearnError,
>)
    requires
        old(models).wf(),
        old(acc).total_models < u64::MAX,
    ensures
        signer != old(acc).admin ==> r == Err::<MinersOfModel, SolLearnError>(
            SolLearnError::Unauthorized,
        ),
        signer == old(acc).admin && old(models).data@.contains(model) ==> r == Err::<
            MinersOfModel,
            SolLearnError,
        >(SolLearnError::ModelAlreadyExists),
        r.is_ok() <==> signer == old(acc).admin && !old(models).data@.contains(model),
        r.is_err() ==> *final(acc) == *old(acc) && final(models).data@ == old(models).data@,
        r.is_ok() ==> {
            &&& final(models).data@ == old(models).data@.push(model)
            &&& *final(acc) == (SolLearnInfo { total_models: (old(acc).total_models + 1) as u64, ..*old(acc) })
            &&& r.unwrap().model == model
            &&& r.unwrap().data@.len() == 0
        },
        final(models).wf(),
{
    if !key_eq(&signer, &acc.admin) {
        return Err(SolLearnError::Unauthorized);
    }
    if find_key(&models.data, &model).is_some() {
        return Err(SolLearnError::ModelAlreadyExists);
    }
    proof {
        lemma_push_no_dup(models.data@, model);
    }
    models.data.push(model);
    acc.total_models = acc.total_models + 1;
    Ok(MinersOfModel::new(model))
}

/// Unregisters a model (admin only). A model whose roster still holds
/// miners cannot be removed.
pub fn remove_model(
    acc: &mut SolLearnInfo,
    models: &mut Models,
    roster: &MinersOfModel,
    signer: Key,
    model: Key,
) -> (r: Result<(), SolLearnError>)
    requires
        old(models).wf(),
    ensures
        signer != old(acc).admin ==> r == Err::<(), SolLearnError>(SolLearnError::Unauthorized),
        signer == old(acc).admin && !old(models).data@.contains(model) ==> r == Err::<
            (),
            SolLearnError,
        >(SolLearnError::ModelNotExist),
        signer == old(acc).admin && old(models).data@.contains(model) && roster.model != model
            ==> r == Err::<(), SolLearnError>(SolLearnError::Unauthorized),
        signer == old(acc).admin && old(models).data@.contains(model) && roster.model == model
            && roster.data@.len() > 0 ==> r == Err::<(), SolLearnError>(
            SolLearnError::ModelHasMiners,
        ),
        r.is_ok() <==> signer == old(acc).admin && old(models).data@.contains(model)
            && roster.model == model && roster.data@.len() == 0,
        r.is_err() ==> *final(acc) == *old(acc) && final(models).data@ == old(models).data@,
        r.is_ok() ==> {
            &&& !final(models).data@.contains(model)
            &&& final(models).data@ == old(models).data@.remove(
                old(models).data@.index_of(model),
            )
            &&& *final(acc) == (SolLearnInfo {
                total_models: if old(acc).total_models > 0 {
                    (old(acc).total_models - 1) as u64
                } else {
                    0
                },
                ..*old(acc)
            })
        },
        final(models).wf(),
{
    if !key_eq(&signer, &acc.admin) {
        return Err(SolLearnError::Unauthorized);
    }
    let found = find_key(&models.data, &model);
    let idx = match found {
        None => {
            return Err(SolLearnError::ModelNotExist);
        },
        Some(i) => i,
    };
    if !key_eq(&roster.model, &model) {
        return Err(SolLearnError::Unauthorized);
    }
    if roster.data.len() > 0 {
        return Err(SolLearnError::ModelHasMiners);
    }
    proof {
        lemma_remove_no_dup(models.data@, idx as int);
        models.data@.index_of_first_ensures(model);
    }
    models.data.remove(idx);
    if acc.total_models > 0 {
        acc.total_models = acc.total_models - 1;
    }
    Ok(())
}

/// The first `i` draws of a committee from roster `r` at time `now`: the
/// miners drawn so far, in draw order, and what is left of the roster. Draw
/// `k` takes the entry at index `random_spec(k, now, |rest|)` out of the rest.
pub open spec fn pick(r: Seq<Key>, i: nat, now: u64) -> (Seq<Key>, Seq<Key>)
    decreases i,
{
    if i == 0 {
        (Seq::empty(), r)
    } else {
        let (c, rest) = pick(r, (i - 1) as nat, now);
        let idx = random_spec((i - 1) as u64, now, rest.len() as u64) as int;
        (c.push(rest[idx]), rest.remove(idx))
    }
}

/// The committee of `n` miners drawn from `r` at `now`.
pub open spec fn committee_spec(r: Seq<Key>, n: nat, now: u64) -> Seq<Key> {
    pick(r, n, now).0
}

/// The roster after drawing a committee: the undrawn miners in their order,
/// then the drawn ones in draw order.
pub open spec fn roster_after_selection(r: Seq<Key>, n: nat, now: u64) -> Seq<Key> {
    pick(r, n, now).1 + pick(r, n, now).0
}

pub proof fn lemma_pick(r: Seq<Key>, i: nat, now: u64)
    requires
        i <= r.len(),
        r.len() <= u64::MAX,
    ensures
        pick(r, i, now).0.len() == i,
        pick(r, i, now).1.len() == r.len() - i,
        (pick(r, i, now).0 + pick(r, i, now).1).to_multiset() == r.to_multiset(),
    decreases i,
{
    broadcast use group_multiset_axioms;

    if i == 0 {
        assert(Seq::<Key>::empty() + r =~= r);
    } else {
        lemma_pick(r, (i - 1) as nat, now);
        let (c, rest) = pick(r, (i - 1) as nat, now);
        let idx = random_spec((i - 1) as u64, now, rest.len() as u64) as int;
        assert(0 <= idx < rest.len());
        let x = rest[idx];
        lemma_multiset_commutative(c, rest);
        lemma_multiset_commutative(c.push(x), rest.remove(idx));
        to_multiset_build(c, x);
        to_multiset_remove(rest, idx);
        assert(rest.to_multiset().contains(x)) by {
            to_multiset_contains(rest, x);
            assert(rest.contains(x));
        }
        assert(c.push(x).to_multiset().add(rest.remove(idx).to_multiset()) =~= c.to_multiset().add(
            rest.to_multiset(),
        ));
    }
}

/// Drawing a committee from a roster without duplicates yields distinct
/// members of that roster and leaves the roster a duplicate-free
/// rearrangement of itself.
pub proof fn lemma_selection_keeps_roster(r: Seq<Key>, n: nat, now: u64)
    requires
        r.no_duplicates(),
        n <= r.len(),
        r.len() <= u64::MAX,
    ensures
        committee_spec(r, n, now).len() == n,
        committee_spec(r, n, now).no_duplicates(),
        forall|k: Key| #[trigger] committee_spec(r, n, now).contains(k) ==> r.contains(k),
        roster_after_selection(r, n, now).no_duplicates(),
        roster_after_selection(r, n, now).to_multiset() == r.to_multiset(),
{
    broadcast use group_multiset_axioms;

    lemma_pick(r, n, now);
    let (c, rest) = pick(r, n, now);
    let after = rest + c;
    lemma_seq_union_to_multiset_commutative(c, rest);
    r.lemma_multiset_has_no_duplicates();
    after.lemma_multiset_has_no_duplicates_conv();
    assert forall|a: int, b: int| 0 <= a < c.len() && 0 <= b < c.len() && a != b implies c[a]
        != c[b] by {
        assert(after[rest.len() + a] == c[a]);
        assert(after[rest.len() + b] == c[b]);
    }
    assert forall|k: Key| #[trigger] c.contains(k) implies r.contains(k) by {
        let j = choose|j: int| 0 <= j < c.len() && c[j] == k;
        assert(after[rest.len() + j] == k);
        assert(after.contains(k));
        to_multiset_contains(after, k);
        to_multiset_contains(r, k);
    }
}

/// Draws a committee of `n` distinct miners from the roster, seeding draw
/// `i` with `(i, now)`. Each drawn miner is taken out of the roster for the
/// rest of the draw and put back at the end, in draw order.
pub fn select_committee(roster: &mut MinersOfModel, n: u8, now: u64) -> (r: Result<
    Vec<Key>,
    SolLearnError,
>)
    requires
        old(roster).wf(),
    ensures
        old(roster).data@.len() == 0 ==> r == Err::<Vec<Key>, SolLearnError>(
            SolLearnError::NoMinerAvailable,
        ),
        0 < old(roster).data@.len() < n ==> r == Err::<Vec<Key>, SolLearnError>(
            SolLearnError::InsufficientMinersForCommittee,
        ),
        r.is_ok() <==> 0 < old(roster).data@.len() && n <= old(roster).data@.len(),
        r.is_err() ==> final(roster).data@ == old(roster).data@,
        r.is_ok() ==> r.unwrap()@ == committee_spec(old(roster).data@, n as nat, now)
            && final(roster).data@ == roster_after_selection(old(roster).data@, n as nat, now),
        final(roster).model == old(roster).model,
        final(roster).wf(),
{
    let len0 = roster.data.len();
    if len0 == 0 {
        return Err(SolLearnError::NoMinerAvailable);
    }
    if len0 < n as usize {
        return Err(SolLearnError::InsufficientMinersForCommittee);
    }
    let ghost orig = roster.data@;
    proof {
        lemma_selection_keeps_roster(orig, n as nat, now);
    }
    let mut chosen: Vec<Key> = Vec::new();
    let mut i: u8 = 0;
    while i < n
        invariant
            0 <= i <= n,
            n <= orig.len(),
            len0 == orig.len(),
            roster.model == old(roster).model,
            orig == old(roster).data@,
            (chosen@, roster.data@) == pick(orig, i as nat, now),
            roster.data@.len() == len0 - i,
        decreases n - i,
    {
        proof {
            lemma_pick(orig, i as nat, now);
        }
        let len = roster.data.len();
        let idx = random_number(i as u64, now, len as u64);
        let miner = roster.data.remove(idx as usize);
        chosen.push(miner);
        i = i + 1;
    }
    let mut j: usize = 0;
    let ghost rest = roster.data@;
    while j < chosen.len()
        invariant
            0 <= j <= chosen@.len(),
            roster.model == old(roster).model,
            roster.data@ == rest + chosen@.subrange(0, j as int),
            rest.len() + chosen@.len() <= len0,
        decreases chosen@.len() - j,
    {
        roster.data.push(chosen[j]);
        j = j + 1;
        assert(roster.data@ =~= rest + chosen@.subrange(0, j as int));
    }
    assert(chosen@.subrange(0, chosen@.len() as int) =~= chosen@);
    Ok(chosen)
}

} // verus!
