//! Keccak-256 digests used for sampling seeds, solution digests and
//! commitments.
use vstd::bytes::*;
use vstd::prelude::*;

verus! {

/// A 32-byte identity (an account public key) or a 32-byte digest.
pub type Key = [u8; 32];

/// What Keccak-256 yields on a byte string.
pub uninterp spec fn keccak_of(data: Seq<u8>) -> Seq<u8>;

/// Relies on `anchor_lang::solana_program::keccak::hash`: the Keccak-256
/// digest of `data`, which depends on the bytes alone.
#[verifier::external_body]
fn keccak(data: &Vec<u8>) -> (r: Key)
    ensures
        r@ == keccak_of(data@),
{
    anchor_lang::solana_program::keccak::hash(data.as_slice()).to_bytes()
}

/// The all-zero key, which stands for "unset".
pub open spec fn is_zero_key(k: Key) -> bool {
    forall|i: int| 0 <= i < 32 ==> #[trigger] k@[i] == 0u8
}

/// Byte-wise comparison of two keys.
pub fn key_eq(a: &Key, b: &Key) -> (r: bool)
    ensures
        r == (*a == *b),
{
    let mut i: usize = 0;
    while i < 32
        invariant
            0 <= i <= 32,
            forall|j: int| 0 <= j < i ==> a@[j] == b@[j],
        decreases 32 - i,
    {
        if a[i] != b[i] {
            return false;
        }
        i = i + 1;
    }
    proof {
        assert(a@ =~= b@);
        vstd::array::axiom_array_ext_equal(*a, *b);
    }
    true
}

/// Whether every byte of the key is zero.
pub fn key_is_zero(a: &Key) -> (r: bool)
    ensures
        r == is_zero_key(*a),
{
    let mut i: usize = 0;
    while i < 32
        invariant
            0 <= i <= 32,
            forall|j: int| 0 <= j < i ==> a@[j] == 0u8,
        decreases 32 - i,
    {
        if a[i] != 0 {
            return false;
        }
        i = i + 1;
    }
    true
}

/// Appends the 8 little-endian bytes of `x`.
pub fn push_u64_le(buf: &mut Vec<u8>, x: u64)
    ensures
        final(buf)@ == old(buf)@ + spec_u64_to_le_bytes(x),
{
    let b = u64_to_le_bytes(x);
    let mut i: usize = 0;
    while i < 8
        invariant
            0 <= i <= 8,
            b@ == spec_u64_to_le_bytes(x),
            b@.len() == 8,
            buf@ == old(buf)@ + b@.subrange(0, i as int),
        decreases 8 - i,
    {
        buf.push(b[i]);
        i = i + 1;
        assert(buf@ =~= old(buf)@ + b@.subrange(0, i as int));
    }
    assert(b@.subrange(0, 8) =~= b@);
}

/// Appends the 32 bytes of a key.
pub fn push_key(buf: &mut Vec<u8>, k: &Key)
    ensures
        final(buf)@ == old(buf)@ + k@,
{
    let mut i: usize = 0;
    while i < 32
        invariant
            0 <= i <= 32,
            buf@ == old(buf)@ + k@.subrange(0, i as int),
        decreases 32 - i,
    {
        buf.push(k[i]);
        i = i + 1;
        assert(buf@ =~= old(buf)@ + k@.subrange(0, i as int));
    }
    assert(k@.subrange(0, 32) =~= k@);
}

/// The sampling seed read from a digest: its trailing 8 bytes as a
/// little-endian integer.
pub open spec fn seed_of(digest: Seq<u8>) -> u64 {
    spec_u64_from_le_bytes(digest.subrange(24, 32))
}

/// The pseudo-random index below `range` drawn for `nonce` at `timestamp`.
pub open spec fn random_spec(nonce: u64, timestamp: u64, range: u64) -> u64 {
    if range == 0 {
        0
    } else {
        (seed_of(keccak_of(spec_u64_to_le_bytes(nonce) + spec_u64_to_le_bytes(timestamp))) % range) as u64
    }
}

/// The digest of a solution: the hash of the inference id followed by the
/// output bytes.
pub open spec fn digest_spec(inference_id: u64, data: Seq<u8>) -> Seq<u8> {
    keccak_of(spec_u64_to_le_bytes(inference_id) + data)
}

/// The commitment a validator publishes before revealing: the hash of the
/// nonce, its identity and its output.
pub open spec fn commitment_spec(nonce: u64, worker: Key, data: Seq<u8>) -> Seq<u8> {
    keccak_of(spec_u64_to_le_bytes(nonce) + worker@ + data)
}

/// Reduces the seed carried by `digest` into `0..range` (0 when `range` is 0).
pub fn seed_from_digest(digest: &Key, range: u64) -> (r: u64)
    ensures
        range == 0 ==> r == 0,
        range > 0 ==> r == seed_of(digest@) % range,
        range > 0 ==> r < range,
{
    if range == 0 {
        return 0;
    }
    let mut tail: Vec<u8> = Vec::new();
    let mut i: usize = 24;
    while i < 32
        invariant
            24 <= i <= 32,
            tail@ == digest@.subrange(24, i as int),
        decreases 32 - i,
    {
        tail.push(digest[i]);
        i = i + 1;
        assert(tail@ =~= digest@.subrange(24, i as int));
    }
    let seed = u64_from_le_bytes(tail.as_slice());
    seed % range
}

/// Pseudo-random index below `range`, seeded by `nonce` and `timestamp`
/// through Keccak-256 (0 when `range` is 0).
pub fn random_number(nonce: u64, timestamp: u64, range: u64) -> (r: u64)
    ensures
        r == random_spec(nonce, timestamp, range),
        range > 0 ==> r < range,
{
    if range == 0 {
        return 0;
    }
    let mut data: Vec<u8> = Vec::new();
    push_u64_le(&mut data, nonce);
    push_u64_le(&mut data, timestamp);
    assert(data@ =~= spec_u64_to_le_bytes(nonce) + spec_u64_to_le_bytes(timestamp));
    let h = keccak(&data);
    seed_from_digest(&h, range)
}

/// Digest of a solution for an inference.
pub fn solution_digest(inference_id: u64, data: &Vec<u8>) -> (r: Key)
    ensures
        r@ == digest_spec(inference_id, data@),
{
    let mut buf: Vec<u8> = Vec::new();
    push_u64_le(&mut buf, inference_id);
    let mut i: usize = 0;
    while i < data.len()
        invariant
            0 <= i <= data@.len(),
            buf@ == spec_u64_to_le_bytes(inference_id) + data@.subrange(0, i as int),
        decreases data@.len() - i,
    {
        buf.push(data[i]);
        i = i + 1;
        assert(buf@ =~= spec_u64_to_le_bytes(inference_id) + data@.subrange(0, i as int));
    }
    assert(data@.subrange(0, data@.len() as int) =~= data@);
    keccak(&buf)
}

/// Commitment over a nonce, the revealing worker and its output.
pub fn commitment_hash(nonce: u64, worker: &Key, data: &Vec<u8>) -> (r: Key)
    ensures
        r@ == commitment_spec(nonce, *worker, data@),
{
    let mut buf: Vec<u8> = Vec::new();
    push_u64_le(&mut buf, nonce);
    push_key(&mut buf, worker);
    let ghost prefix = buf@;
    let mut i: usize = 0;
    while i < data.len()
        invariant
            0 <= i <= data@.len(),
            buf@ == prefix + data@.subrange(0, i as int),
        decreases data@.len() - i,
    {
        buf.push(data[i]);
        i = i + 1;
        assert(buf@ =~= prefix + data@.subrange(0, i as int));
    }
    assert(data@.subrange(0, data@.len() as int) =~= data@);
    keccak(&buf)
}

} // verus!
