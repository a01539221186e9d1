use ckb_cheque_script::claim;
use ckb_cheque_script::entry::{check_cheque_cell_witness_is_none, classify, verify, Mode};
use ckb_cheque_script::error::Error;
use ckb_cheque_script::hash::{blake2b_160, bytes_eq};
use ckb_cheque_script::helper::{
    check_witness_args, has_input_by_lock_hash, load_group_inputs_since,
    position_input_by_lock_hash, sum_cells_capacity_of_lock_hash, Cell, Input, Source, TxView,
};
use ckb_cheque_script::sighash::{
    sighash_all_digest, sighash_all_digest_of, u64_le_bytes,
    validate_signature_of_receiver_and_sender, CODE_HASH_SECP256K1_BLAKE160, TYPE,
};
use ckb_cheque_script::withdraw::{self, CHEQUE_CELL_SINCE};
use ckb_std::ckb_types::bytes::Bytes;
use ckb_std::ckb_types::packed::{Byte, Script, WitnessArgs};
use ckb_std::ckb_types::prelude::{Builder, Entity, Pack};

fn hash160(data: &[u8]) -> [u8; 20] {
    let mut r = [0u8; 20];
    r.copy_from_slice(&ckb_hash::blake2b_256(data)[..20]);
    r
}

fn lock(code: u8, args: &[u8]) -> Vec<u8> {
    Script::new_builder()
        .code_hash([code; 32].pack())
        .args(args.pack())
        .hash_type(Byte::new(0))
        .build()
        .as_slice()
        .to_vec()
}

fn secp_lock(pubkey_hash: &[u8; 20]) -> Vec<u8> {
    Script::new_builder()
        .code_hash(CODE_HASH_SECP256K1_BLAKE160.pack())
        .args(pubkey_hash.as_slice().pack())
        .hash_type(Byte::new(TYPE))
        .build()
        .as_slice()
        .to_vec()
}

fn witness(lock_field: Option<Vec<u8>>) -> Vec<u8> {
    WitnessArgs::new_builder()
        .lock(lock_field.map(Bytes::from).pack())
        .build()
        .as_slice()
        .to_vec()
}

fn input(capacity: u64, lock: &[u8], since: u64) -> Input {
    Input { cell: Cell { capacity, lock: lock.to_vec() }, since }
}

fn output(capacity: u64, lock: &[u8]) -> Cell {
    Cell { capacity, lock: lock.to_vec() }
}

/// A cheque between a receiver and a sender, each with a lock of its own.
struct Parties {
    receiver: Vec<u8>,
    sender: Vec<u8>,
    cheque: Vec<u8>,
    args: Vec<u8>,
}

fn parties() -> Parties {
    let receiver = lock(1, b"receiver");
    let sender = lock(1, b"sender");
    let mut args = hash160(&receiver).to_vec();
    args.extend_from_slice(&hash160(&sender));
    let cheque = lock(2, &args);
    Parties { receiver, sender, cheque, args }
}

fn tx(p: &Parties, inputs: Vec<Input>, outputs: Vec<Cell>, witnesses: Vec<Vec<u8>>) -> TxView {
    TxView {
        tx_hash: [9u8; 32],
        script: p.cheque.clone(),
        args: p.args.clone(),
        inputs,
        outputs,
        witnesses,
    }
}

#[test]
fn identity_hash_is_first_twenty_bytes_of_ckb_hash() {
    let data = b"some lock script bytes";
    assert_eq!(blake2b_160(data), hash160(data));
    assert_ne!(blake2b_160(data).to_vec(), data[..20].to_vec());
}

#[test]
fn identity_hash_is_the_same_on_every_call() {
    let p = parties();
    assert_eq!(blake2b_160(&p.cheque), blake2b_160(&p.cheque.clone()));
}

#[test]
fn bytes_eq_compares_contents_and_length() {
    assert!(bytes_eq(b"abc", b"abc"));
    assert!(!bytes_eq(b"abc", b"abd"));
    assert!(!bytes_eq(b"abc", b"ab"));
    assert!(bytes_eq(b"", b""));
}

#[test]
fn little_endian_length_bytes() {
    assert_eq!(u64_le_bytes(0x0102030405060708), vec![8, 7, 6, 5, 4, 3, 2, 1]);
    assert_eq!(u64_le_bytes(101), 101u64.to_le_bytes().to_vec());
}

#[test]
fn error_codes() {
    assert_eq!(Error::InvalidArgument.code(), 5);
    assert_eq!(Error::NoMatchedInputs.code(), 6);
    assert_eq!(Error::WitnessSignatureWrong.code(), 7);
    assert_eq!(Error::SenderCapacityNotSame.code(), 8);
    assert_eq!(Error::ClaimChequeInputSinceNotZero.code(), 10);
    assert_eq!(Error::WithdrawChequeInputSinceError.code(), 11);
    assert_eq!(Error::NoMatchedSignature.code(), 13);
}

#[test]
fn first_matching_input_wins() {
    let p = parties();
    let t = tx(
        &p,
        vec![input(1, &p.cheque, 0), input(2, &p.sender, 0), input(3, &p.sender, 0)],
        vec![],
        vec![],
    );
    let sender = hash160(&p.sender);
    let receiver = hash160(&p.receiver);
    assert_eq!(position_input_by_lock_hash(&t, &sender), Some(1));
    assert_eq!(position_input_by_lock_hash(&t, &receiver), None);
    assert!(has_input_by_lock_hash(&t, &sender));
    assert!(!has_input_by_lock_hash(&t, &receiver));
}

#[test]
fn capacity_sums_by_side_and_identity() {
    let p = parties();
    let t = tx(
        &p,
        vec![input(200, &p.sender, 0), input(162, &p.cheque, 0), input(150, &p.sender, 0)],
        vec![output(312, &p.sender), output(50, &p.receiver)],
        vec![],
    );
    let sender = hash160(&p.sender);
    assert_eq!(sum_cells_capacity_of_lock_hash(&t, &sender, Source::Input), Ok(350));
    assert_eq!(sum_cells_capacity_of_lock_hash(&t, &sender, Source::Output), Ok(312));
    let nobody = [0u8; 20];
    assert_eq!(sum_cells_capacity_of_lock_hash(&t, &nobody, Source::Input), Ok(0));
}

#[test]
fn capacity_sum_overflow_is_encoding_error() {
    let p = parties();
    let t = tx(&p, vec![input(u64::MAX, &p.sender, 0), input(1, &p.sender, 0)], vec![], vec![]);
    let sender = hash160(&p.sender);
    assert_eq!(sum_cells_capacity_of_lock_hash(&t, &sender, Source::Input), Err(Error::Encoding));
    let edge = tx(&p, vec![input(u64::MAX - 1, &p.sender, 0), input(1, &p.sender, 0)], vec![], vec![]);
    assert_eq!(sum_cells_capacity_of_lock_hash(&edge, &sender, Source::Input), Ok(u64::MAX));
}

#[test]
fn group_since_values_in_input_order() {
    let p = parties();
    let t = tx(
        &p,
        vec![input(1, &p.cheque, 7), input(1, &p.sender, 9), input(1, &p.cheque, 8)],
        vec![],
        vec![],
    );
    assert_eq!(load_group_inputs_since(&t), vec![7, 8]);
}

#[test]
fn witness_lock_checks() {
    let p = parties();
    let t = tx(
        &p,
        vec![],
        vec![],
        vec![witness(Some(vec![1, 2, 3])), witness(None), Vec::new(), vec![1, 2, 3]],
    );
    assert_eq!(check_witness_args(&t, 0), Ok(()));
    assert_eq!(check_witness_args(&t, 1), Err(Error::WitnessSignatureWrong));
    assert_eq!(check_witness_args(&t, 2), Err(Error::WitnessSignatureWrong));
    assert_eq!(check_witness_args(&t, 3), Err(Error::WitnessSignatureWrong));
    assert_eq!(check_witness_args(&t, 4), Err(Error::WitnessSignatureWrong));
}

#[test]
fn cheque_witness_is_that_of_first_group_input() {
    let p = parties();
    let inputs = vec![input(1, &p.sender, 0), input(1, &p.cheque, 0), input(1, &p.cheque, 0)];
    let signed = tx(&p, inputs, vec![], vec![Vec::new(), witness(Some(vec![0; 65])), Vec::new()]);
    assert!(!check_cheque_cell_witness_is_none(&signed));
    let inputs = vec![input(1, &p.sender, 0), input(1, &p.cheque, 0), input(1, &p.cheque, 0)];
    let unsigned = tx(&p, inputs, vec![], vec![witness(Some(vec![0; 65])), witness(None), witness(Some(vec![0; 65]))]);
    assert!(check_cheque_cell_witness_is_none(&unsigned));
    let missing = tx(&p, vec![input(1, &p.cheque, 0)], vec![], vec![]);
    assert!(check_cheque_cell_witness_is_none(&missing));
}

#[test]
fn sighash_digest_matches_independent_construction() {
    let tx_hash = [0x42u8; 32];
    let signed = witness(Some(vec![0xab; 65]));
    let zeroed = witness(Some(vec![0; 65]));
    let mut hasher = ckb_hash::new_blake2b();
    hasher.update(&tx_hash);
    hasher.update(&(zeroed.len() as u64).to_le_bytes());
    hasher.update(&zeroed);
    let mut expected = [0u8; 32];
    hasher.finalize(&mut expected);
    assert_eq!(sighash_all_digest_of(&tx_hash, &signed), Ok(expected));
    assert_ne!(expected.to_vec(), ckb_hash::blake2b_256(&signed).to_vec());
}

#[test]
fn sighash_digest_needs_a_full_signature() {
    let tx_hash = [0x42u8; 32];
    assert_eq!(sighash_all_digest_of(&tx_hash, &witness(Some(vec![1; 64]))), Err(Error::Secp256k1));
    assert_eq!(sighash_all_digest_of(&tx_hash, &witness(None)), Err(Error::Secp256k1));
    let truncated = hex::decode("5500000010000000550000005500000041000000b69c542c0ee6c4b6d8350514d876").unwrap();
    assert_eq!(sighash_all_digest_of(&tx_hash, &truncated), Err(Error::Secp256k1));
}

#[test]
fn sighash_digest_of_the_cheque_witness() {
    let p = parties();
    let signed = witness(Some(vec![0xcd; 65]));
    let t = tx(
        &p,
        vec![input(1, &p.sender, 0), input(1, &p.cheque, 0)],
        vec![],
        vec![Vec::new(), signed.clone()],
    );
    assert_eq!(sighash_all_digest(&t), sighash_all_digest_of(&[9u8; 32], &signed));
    assert!(sighash_all_digest(&t).is_ok());
    let no_group = tx(&p, vec![input(1, &p.sender, 0)], vec![], vec![signed]);
    assert_eq!(sighash_all_digest(&no_group), Err(Error::Secp256k1));
}

#[test]
fn signer_is_matched_through_its_secp_lock() {
    let receiver_key = [0x11u8; 20];
    let sender_key = [0x22u8; 20];
    let receiver = hash160(&secp_lock(&receiver_key));
    let sender = hash160(&secp_lock(&sender_key));
    assert_eq!(validate_signature_of_receiver_and_sender(&receiver, &sender, Ok(receiver_key)), Ok(true));
    assert_eq!(validate_signature_of_receiver_and_sender(&receiver, &sender, Ok(sender_key)), Ok(false));
    assert_eq!(
        validate_signature_of_receiver_and_sender(&receiver, &sender, Ok([0x33u8; 20])),
        Err(Error::WrongPubKey)
    );
    assert_eq!(
        validate_signature_of_receiver_and_sender(&receiver_key, &sender_key, Ok(receiver_key)),
        Err(Error::WrongPubKey)
    );
    assert_eq!(validate_signature_of_receiver_and_sender(&receiver, &sender, Err(5)), Err(Error::Secp256k1));
}

#[test]
fn dispatch_reaches_one_outcome() {
    let p = parties();
    let claim_tx = tx(&p, vec![input(1, &p.cheque, 0), input(1, &p.receiver, 0)], vec![], vec![]);
    assert_eq!(classify(&claim_tx, Err(0)), Ok(Mode::Claim));
    let withdraw_tx = tx(&p, vec![input(1, &p.cheque, 0), input(1, &p.sender, 0)], vec![], vec![]);
    assert_eq!(classify(&withdraw_tx, Err(0)), Ok(Mode::Withdraw));
    let both = tx(
        &p,
        vec![input(1, &p.cheque, 0), input(1, &p.sender, 0), input(1, &p.receiver, 0)],
        vec![],
        vec![],
    );
    assert_eq!(classify(&both, Err(0)), Ok(Mode::Claim));
    let neither = tx(&p, vec![input(1, &p.cheque, 0)], vec![], vec![]);
    assert_eq!(classify(&neither, Err(0)), Err(Error::NoMatchedInputs));
    let signed = tx(&p, vec![input(1, &p.cheque, 0)], vec![], vec![witness(Some(vec![1; 65]))]);
    assert_eq!(classify(&signed, Ok([1u8; 20])), Err(Error::NoMatchedSignature));
    assert_eq!(classify(&signed, Err(1)), Err(Error::NoMatchedSignature));
    for len in [0usize, 20, 39, 41] {
        let mut bad = tx(&p, vec![input(1, &p.cheque, 0), input(1, &p.receiver, 0)], vec![], vec![]);
        bad.args = vec![0u8; len];
        assert_eq!(classify(&bad, Err(0)), Err(Error::InvalidArgument));
        assert_eq!(verify(&bad, Err(0)), Err(Error::InvalidArgument));
    }
}

#[test]
fn claim_validate_direct() {
    let p = parties();
    let sender = hash160(&p.sender);
    let receiver = hash160(&p.receiver);
    let t = tx(
        &p,
        vec![input(162, &p.cheque, 0), input(200, &p.sender, 0), input(150, &p.sender, 0)],
        vec![output(512, &p.sender)],
        vec![],
    );
    assert_eq!(claim::validate(&t, &sender, &receiver, false), Ok(()));
    assert_eq!(claim::validate(&t, &sender, &receiver, true), Err(Error::NoMatchedInputs));
    let overflow = tx(
        &p,
        vec![input(u64::MAX, &p.cheque, 0), input(1, &p.sender, 0)],
        vec![output(0, &p.sender)],
        vec![],
    );
    assert_eq!(claim::validate(&overflow, &sender, &receiver, false), Err(Error::Encoding));
}

#[test]
fn withdraw_validate_direct() {
    let p = parties();
    let sender = hash160(&p.sender);
    let t = tx(
        &p,
        vec![input(162, &p.cheque, CHEQUE_CELL_SINCE), input(1, &p.sender, 0)],
        vec![],
        vec![Vec::new(), witness(Some(vec![1]))],
    );
    assert_eq!(withdraw::validate(&t, &sender, true), Ok(()));
    assert_eq!(withdraw::validate(&t, &sender, false), Ok(()));
    let no_group = tx(&p, vec![input(1, &p.sender, 0)], vec![], vec![witness(Some(vec![1]))]);
    assert_eq!(withdraw::validate(&no_group, &sender, true), Ok(()));
    let wrong = tx(
        &p,
        vec![input(162, &p.cheque, CHEQUE_CELL_SINCE), input(162, &p.cheque, CHEQUE_CELL_SINCE + 1)],
        vec![],
        vec![],
    );
    assert_eq!(withdraw::validate(&wrong, &sender, false), Err(Error::WithdrawChequeInputSinceError));
}

#[test]
fn signature_claim_with_shortened_signature_never_accepts() {
    let p = parties();
    let shortened = witness(Some(vec![0xab; 40]));
    let t = tx(
        &p,
        vec![input(162, &p.cheque, 0), input(1, &p.receiver, 0)],
        vec![output(162, &p.sender)],
        vec![shortened, Vec::new()],
    );
    assert_eq!(sighash_all_digest(&t), Err(Error::Secp256k1));
    assert_eq!(verify(&t, Err(1)), Err(Error::NoMatchedSignature));
}

