use vstd::prelude::*;

verus! {

/// The CKB default hash of `data`: blake2b with a 32-byte digest and the
/// personalization `ckb-default-hash`.
pub uninterp spec fn ckb_hash(data: Seq<u8>) -> Seq<u8>;

/// Relies on `ckb_hash::blake2b_256`: the CKB default hash of the bytes.
#[verifier::external_body]
pub(crate) fn blake2b_256(data: &[u8]) -> (r: [u8; 32])
    ensures
        r@ == ckb_hash(data@),
{
    ckb_hash::blake2b_256(data)
}

/// The 20-byte identity of `data`: the first 20 bytes of its CKB hash.
pub open spec fn blake160(data: Seq<u8>) -> Seq<u8> {
    ckb_hash(data).subrange(0, 20)
}

/// The identity hash of a serialized lock script (or of a public key).
pub fn blake2b_160(data: &[u8]) -> (r: [u8; 20])
    ensures
        r@ == blake160(data@),
{
    let digest = blake2b_256(data);
    let mut r = [0u8; 20];
    let mut i: usize = 0;
    while i < 20
        invariant
            i <= 20,
            digest@ == ckb_hash(data@),
            forall|j: int| 0 <= j < i ==> r@[j] == digest@[j],
        decreases 20 - i,
    {
        r[i] = digest[i];
        i = i + 1;
    }
    assert(r@ =~= blake160(data@));
    r
}

/// Whether two byte strings are equal.
pub fn bytes_eq(a: &[u8], b: &[u8]) -> (r: bool)
    ensures
        r == (a@ == b@),
{
    if a.len() != b.len() {
        return false;
    }
    let mut i: usize = 0;
    while i < a.len()
        invariant
            i <= a@.len(),
            a@.len() == b@.len(),
            forall|j: int| 0 <= j < i ==> a@[j] == b@[j],
        decreases a@.len() - i,
    {
        if a[i] != b[i] {
            return false;
        }
        i = i + 1;
    }
    assert(a@ =~= b@);
    true
}

/// Hashing one serialized lock script twice gives one identity: the
/// identity depends on the bytes alone.
pub proof fn lemma_identity_hash_is_deterministic(p: Seq<u8>, q: Seq<u8>)
    requires
        p == q,
    ensures
        blake160(p) == blake160(q),
{
}

} // verus!
