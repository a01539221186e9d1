use vstd::prelude::*;

use ckb_std::ckb_types::bytes::Bytes;
use ckb_std::ckb_types::packed::{Byte, Script, WitnessArgs};
use ckb_std::ckb_types::prelude::{Builder, Entity, Pack};

use crate::error::Error;
use crate::hash::{blake160, blake2b_160, blake2b_256, bytes_eq, ckb_hash};
use crate::helper::{
    TxView, is_first_group_input, lemma_first_group_input_unique, position_first_group_input,
    witness_lock_field,
};

verus! {

/// Length of a recoverable secp256k1 signature.
pub const SIGNATURE_SIZE: usize = 65;

/// Hash type under which the secp256k1/blake160 lock is referenced.
pub const TYPE: u8 = 1;

/// Code hash of the secp256k1/blake160 sighash-all lock.
pub const CODE_HASH_SECP256K1_BLAKE160: [u8; 32] = [
    155, 215, 224, 111, 62, 207, 75, 224, 242, 252, 210, 24, 139, 35, 241, 185, 252, 200, 142, 93,
    75, 101, 168, 99, 123, 23, 114, 59, 189, 163, 204, 232,
];

/// Four little-endian bytes of `n`.
pub open spec fn le_u32(n: nat) -> Seq<u8> {
    seq![
        (n % 256) as u8,
        ((n / 256) % 256) as u8,
        ((n / 65536) % 256) as u8,
        ((n / 16777216) % 256) as u8,
    ]
}

/// The molecule serialization of a `Script` table: total size, three field
/// offsets, the 32-byte code hash, the hash type byte, and the arguments as a
/// length-prefixed byte vector.
pub open spec fn script_bytes(code_hash: Seq<u8>, hash_type: u8, args: Seq<u8>) -> Seq<u8> {
    le_u32(53 + args.len()) + le_u32(16) + le_u32(48) + le_u32(49) + code_hash + seq![hash_type]
        + le_u32(args.len()) + args
}

/// Relies on the `Script` builder of ckb-std's `ckb_types`: a script built
/// from a code hash, a hash type and arguments, serialized.
#[verifier::external_body]
fn build_script(code_hash: &[u8; 32], hash_type: u8, args: &[u8]) -> (r: Vec<u8>)
    requires
        args@.len() + 53 <= u32::MAX,
    ensures
        r@ == script_bytes(code_hash@, hash_type, args@),
{
    Script::new_builder()
        .code_hash(code_hash.pack())
        .args(args.pack())
        .hash_type(Byte::new(hash_type))
        .build()
        .as_slice()
        .to_vec()
}

/// The serialized `WitnessArgs` that `w` parses to, with its lock field set
/// to `lock`.
pub uninterp spec fn witness_with_lock(w: Seq<u8>, lock: Seq<u8>) -> Seq<u8>;

/// Relies on `WitnessArgs::from_slice`, `as_builder` and the builder's `lock`
/// of ckb-std's `ckb_types`: the witness parsed, its lock field replaced, and
/// serialized again; `None` when the bytes are not a `WitnessArgs`.
#[verifier::external_body]
fn replace_witness_lock(w: &[u8], lock: &[u8]) -> (r: Option<Vec<u8>>)
    ensures
        r is Some <==> witness_lock_field(w@) is Some,
        r matches Some(z) ==> z@ == witness_with_lock(w@, lock@),
{
    match WitnessArgs::from_slice(w) {
        Ok(args) => Some(
            args.as_builder().lock(Some(Bytes::from(lock.to_vec())).pack()).build().as_slice().to_vec(),
        ),
        Err(_) => None,
    }
}

/// The eight little-endian bytes of `n`.
pub open spec fn le_u64(n: u64) -> Seq<u8> {
    Seq::new(8, |i: int| ((n >> ((8 * i) as u64)) & 0xff) as u8)
}

/// The eight little-endian bytes of `n`.
pub fn u64_le_bytes(n: u64) -> (r: Vec<u8>)
    ensures
        r@ == le_u64(n),
{
    let mut r: Vec<u8> = Vec::new();
    let mut i: u64 = 0;
    while i < 8
        invariant
            i <= 8,
            r@.len() == i,
            forall|k: int| 0 <= k < i ==> r@[k] == ((n >> ((8 * k) as u64)) & 0xff) as u8,
        decreases 8 - i,
    {
        r.push(((n >> (8 * i)) & 0xff) as u8);
        i = i + 1;
    }
    assert(r@ =~= le_u64(n));
    r
}

/// Sixty-five zero bytes: a signature-sized placeholder.
pub open spec fn zero_signature() -> Seq<u8> {
    Seq::new(SIGNATURE_SIZE as nat, |i: int| 0u8)
}

/// The bytes hashed for a sighash-all signature: the transaction hash, the
/// length of the witness as eight little-endian bytes, and the witness.
pub open spec fn sighash_message(tx_hash: Seq<u8>, witness: Seq<u8>) -> Seq<u8> {
    tx_hash + le_u64(witness.len() as u64) + witness
}

/// The sighash-all digest that the signature in witness `w` must sign: the
/// witness's lock field must hold a signature of `SIGNATURE_SIZE` bytes; the
/// message carries the witness with that signature replaced by zeros.
pub open spec fn sighash_digest(tx_hash: Seq<u8>, w: Seq<u8>) -> Result<Seq<u8>, Error> {
    match witness_lock_field(w) {
        Some(Some(sig)) => if sig.len() == SIGNATURE_SIZE {
            Ok(ckb_hash(sighash_message(tx_hash, witness_with_lock(w, zero_signature()))))
        } else {
            Err(Error::Secp256k1)
        },
        _ => Err(Error::Secp256k1),
    }
}

/// Computes the sighash-all digest for the signature held in witness
/// `witness` of the transaction with hash `tx_hash`.
pub fn sighash_all_digest_of(tx_hash: &[u8; 32], witness: &[u8]) -> (r: Result<[u8; 32], Error>)
    ensures
        match r {
            Ok(d) => sighash_digest(tx_hash@, witness@) == Ok::<Seq<u8>, Error>(d@),
            Err(e) => sighash_digest(tx_hash@, witness@) == Err::<Seq<u8>, Error>(e),
        },
{
    let sig_len = match crate::helper::parse_witness_lock(witness) {
        Some(Some(sig)) => sig.len(),
        _ => {
            return Err(Error::Secp256k1);
        },
    };
    if sig_len != SIGNATURE_SIZE {
        return Err(Error::Secp256k1);
    }
    let zeros: Vec<u8> = vec![0u8; SIGNATURE_SIZE];
    assert(zeros@ =~= zero_signature());
    let zeroed = match replace_witness_lock(witness, zeros.as_slice()) {
        Some(z) => z,
        None => {
            return Err(Error::Secp256k1);
        },
    };
    let len_bytes = u64_le_bytes(zeroed.len() as u64);
    let mut message: Vec<u8> = Vec::new();
    let mut i: usize = 0;
    while i < 32
        invariant
            i <= 32,
            message@ =~= tx_hash@.subrange(0, i as int),
        decreases 32 - i,
    {
        message.push(tx_hash[i]);
        i = i + 1;
    }
    let message = append_bytes(message, &len_bytes);
    let message = append_bytes(message, &zeroed);
    assert(message@ =~= sighash_message(tx_hash@, zeroed@));
    Ok(blake2b_256(message.as_slice()))
}

/// `a` followed by `b`.
fn append_bytes(a: Vec<u8>, b: &Vec<u8>) -> (r: Vec<u8>)
    ensures
        r@ == a@ + b@,
{
    let mut r = a;
    let mut i: usize = 0;
    while i < b.len()
        invariant
            i <= b@.len(),
            r@ =~= a@ + b@.subrange(0, i as int),
        decreases b@.len() - i,
    {
        r.push(b[i]);
        i = i + 1;
    }
    assert(b@.subrange(0, i as int) =~= b@);
    r
}

/// The sighash-all digest for the running script: that of the witness of
/// its first group input; `Secp256k1` when there is no such witness or it
/// holds no signature.
pub open spec fn cheque_sighash_digest(tx: &TxView, p: int) -> Result<Seq<u8>, Error> {
    if p < tx.witnesses@.len() {
        sighash_digest(tx.tx_hash@, tx.witnesses@[p]@)
    } else {
        Err(Error::Secp256k1)
    }
}

/// Computes the digest that the running script's signature must sign.
pub fn sighash_all_digest(tx: &TxView) -> (r: Result<[u8; 32], Error>)
    ensures
        forall|p: int| #[trigger]
            is_first_group_input(tx, p) ==> match r {
                Ok(d) => cheque_sighash_digest(tx, p) == Ok::<Seq<u8>, Error>(d@),
                Err(e) => cheque_sighash_digest(tx, p) == Err::<Seq<u8>, Error>(e),
            },
        (forall|p: int| !#[trigger] is_first_group_input(tx, p)) ==> r == Err::<[u8; 32], Error>(
            Error::Secp256k1,
        ),
{
    match position_first_group_input(tx) {
        Some(p) => {
            proof {
                assert forall|q: int| #[trigger] is_first_group_input(tx, q) implies q == p by {
                    lemma_first_group_input_unique(tx, q, p as int);
                }
            }
            if p < tx.witnesses.len() {
                sighash_all_digest_of(&tx.tx_hash, tx.witnesses[p].as_slice())
            } else {
                Err(Error::Secp256k1)
            }
        },
        None => Err(Error::Secp256k1),
    }
}

/// The identity of the secp256k1/blake160 lock whose argument is the public
/// key hash `pubkey_hash`.
pub open spec fn secp_lock_hash(pubkey_hash: Seq<u8>) -> Seq<u8> {
    blake160(script_bytes(CODE_HASH_SECP256K1_BLAKE160@, TYPE, pubkey_hash))
}

/// What signature authorization decides, given the outcome of recovering the
/// signer's public key hash: `Secp256k1` when recovery failed; `Ok(true)`
/// when the signer's lock is the receiver, `Ok(false)` when it is the sender;
/// `WrongPubKey` otherwise.
pub open spec fn signature_outcome(
    receiver: Seq<u8>,
    sender: Seq<u8>,
    recovered: Result<[u8; 20], i32>,
) -> Result<bool, Error> {
    match recovered {
        Err(_) => Err(Error::Secp256k1),
        Ok(pubkey_hash) => {
            let lock_hash = secp_lock_hash(pubkey_hash@);
            if receiver == lock_hash {
                Ok(true)
            } else if sender == lock_hash {
                Ok(false)
            } else {
                Err(Error::WrongPubKey)
            }
        },
    }
}

/// Decides whether the signer is the receiver (`true`) or the sender
/// (`false`), from the outcome of recovering the public key hash that signed
/// the cheque's sighash-all digest.
pub fn validate_signature_of_receiver_and_sender(
    receiver_lock_hash: &[u8; 20],
    sender_lock_hash: &[u8; 20],
    recovered: Result<[u8; 20], i32>,
) -> (r: Result<bool, Error>)
    ensures
        r == signature_outcome(receiver_lock_hash@, sender_lock_hash@, recovered),
{
    let public_key_hash = match recovered {
        Ok(h) => h,
        Err(_) => {
            return Err(Error::Secp256k1);
        },
    };
    let lock_script = build_script(&CODE_HASH_SECP256K1_BLAKE160, TYPE, public_key_hash.as_slice());
    let lock_hash = blake2b_160(lock_script.as_slice());

    if bytes_eq(receiver_lock_hash.as_slice(), lock_hash.as_slice()) {
        Ok(true)
    } else if bytes_eq(sender_lock_hash.as_slice(), lock_hash.as_slice()) {
        Ok(false)
    } else {
        Err(Error::WrongPubKey)
    }
}

} // verus!
