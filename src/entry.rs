use vstd::prelude::*;

use crate::claim::{self, claim_capacities, claim_outcome};
use crate::error::Error;
use crate::helper::{
    TxView, cheque_witness_is_none, group_inputs_since, has_input_by_lock_hash, has_input_with,
    input_authorization, is_first_group_input, lemma_first_group_input_unique,
    position_first_group_input, witness_lock_is_set,
};
use crate::sighash::{signature_outcome, validate_signature_of_receiver_and_sender};
use crate::withdraw::{self, CHEQUE_CELL_SINCE, withdraw_outcome};

verus! {

/// Length of the script arguments: the receiver's identity, then the
/// sender's.
pub const ARGS_SIZE: usize = 40;

/// The two ways a cheque cell can be spent.
#[derive(Clone, Copy, Debug, PartialEq, Eq, Structural)]
pub enum Mode {
    /// The receiver takes the cheque.
    Claim,
    /// The sender takes the cheque back.
    Withdraw,
}

/// The receiver's identity: the first 20 bytes of the arguments.
pub open spec fn receiver_of(args: Seq<u8>) -> Seq<u8> {
    args.subrange(0, 20)
}

/// The sender's identity: the last 20 bytes of the arguments.
pub open spec fn sender_of(args: Seq<u8>) -> Seq<u8> {
    args.subrange(20, 40)
}

/// How the spend is classified: `InvalidArgument` unless the arguments are
/// 40 bytes. When the cheque's own witness holds no signature, an input of
/// the receiver makes it a claim, else an input of the sender a withdrawal,
/// else it fails with `NoMatchedInputs`. Otherwise the recovered signer
/// decides: the receiver claims, the sender withdraws, and anything else
/// fails with `NoMatchedSignature`.
pub open spec fn classification(tx: &TxView, recovered: Result<[u8; 20], i32>) -> Result<Mode, Error> {
    let receiver = receiver_of(tx.args@);
    let sender = sender_of(tx.args@);
    if tx.args@.len() != ARGS_SIZE {
        Err(Error::InvalidArgument)
    } else if cheque_witness_is_none(tx) {
        if has_input_with(tx, receiver) {
            Ok(Mode::Claim)
        } else if has_input_with(tx, sender) {
            Ok(Mode::Withdraw)
        } else {
            Err(Error::NoMatchedInputs)
        }
    } else {
        match signature_outcome(receiver, sender, recovered) {
            Ok(true) => Ok(Mode::Claim),
            Ok(false) => Ok(Mode::Withdraw),
            Err(_) => Err(Error::NoMatchedSignature),
        }
    }
}

/// The verdict of the cheque lock on a transaction: its classification,
/// then the rules of the mode it falls in.
pub open spec fn verdict(tx: &TxView, recovered: Result<[u8; 20], i32>) -> Result<(), Error> {
    let receiver = receiver_of(tx.args@);
    let sender = sender_of(tx.args@);
    let none = cheque_witness_is_none(tx);
    match classification(tx, recovered) {
        Err(e) => Err(e),
        Ok(Mode::Claim) => claim_outcome(tx, sender, receiver, none),
        Ok(Mode::Withdraw) => withdraw_outcome(tx, sender, none),
    }
}

/// Whether the running script's own witness carries no lock field.
pub fn check_cheque_cell_witness_is_none(tx: &TxView) -> (r: bool)
    ensures
        r == cheque_witness_is_none(tx),
{
    match position_first_group_input(tx) {
        Some(p) => {
            proof {
                assert forall|q: int| #[trigger] is_first_group_input(tx, q) implies q == p by {
                    lemma_first_group_input_unique(tx, q, p as int);
                }
            }
            !witness_lock_is_set(tx, p)
        },
        None => true,
    }
}

/// Splits 40 bytes of arguments into the receiver's and the sender's
/// identities.
fn split_args(args: &Vec<u8>) -> (r: ([u8; 20], [u8; 20]))
    requires
        args@.len() == ARGS_SIZE,
    ensures
        r.0@ == receiver_of(args@),
        r.1@ == sender_of(args@),
{
    let mut receiver = [0u8; 20];
    let mut sender = [0u8; 20];
    let mut i: usize = 0;
    while i < 20
        invariant
            i <= 20,
            args@.len() == ARGS_SIZE,
            forall|j: int| 0 <= j < i ==> receiver@[j] == args@[j] && sender@[j] == args@[j + 20],
        decreases 20 - i,
    {
        receiver[i] = args[i];
        sender[i] = args[i + 20];
        i = i + 1;
    }
    assert(receiver@ =~= receiver_of(args@));
    assert(sender@ =~= sender_of(args@));
    (receiver, sender)
}

/// Classifies the spend as a claim or a withdrawal. `recovered` is the
/// outcome of recovering the public key hash that signed the cheque's
/// sighash-all digest; it is only consulted when the cheque's own witness
/// holds a lock field.
pub fn classify(tx: &TxView, recovered: Result<[u8; 20], i32>) -> (r: Result<Mode, Error>)
    ensures
        r == classification(tx, recovered),
{
    if tx.args.len() != ARGS_SIZE {
        return Err(Error::InvalidArgument);
    }
    let (receiver_lock_hash, sender_lock_hash) = split_args(&tx.args);
    if check_cheque_cell_witness_is_none(tx) {
        if has_input_by_lock_hash(tx, &receiver_lock_hash) {
            Ok(Mode::Claim)
        } else if has_input_by_lock_hash(tx, &sender_lock_hash) {
            Ok(Mode::Withdraw)
        } else {
            Err(Error::NoMatchedInputs)
        }
    } else {
        match validate_signature_of_receiver_and_sender(
            &receiver_lock_hash,
            &sender_lock_hash,
            recovered,
        ) {
            Ok(true) => Ok(Mode::Claim),
            Ok(false) => Ok(Mode::Withdraw),
            Err(_) => Err(Error::NoMatchedSignature),
        }
    }
}

/// Runs the cheque lock on a transaction: classifies the spend, then
/// validates it under the claim or withdraw rules.
pub fn verify(tx: &TxView, recovered: Result<[u8; 20], i32>) -> (r: Result<(), Error>)
    ensures
        r == verdict(tx, recovered),
{
    let mode = match classify(tx, recovered) {
        Ok(m) => m,
        Err(e) => {
            return Err(e);
        },
    };
    let (receiver_lock_hash, sender_lock_hash) = split_args(&tx.args);
    let cheque_witness_is_none = check_cheque_cell_witness_is_none(tx);
    match mode {
        Mode::Claim => claim::validate(
            tx,
            &sender_lock_hash,
            &receiver_lock_hash,
            cheque_witness_is_none,
        ),
        Mode::Withdraw => withdraw::validate(tx, &sender_lock_hash, cheque_witness_is_none),
    }
}

/// Arguments of any length but 40 bytes are rejected with
/// `InvalidArgument`; with 40 bytes the classification reaches exactly one
/// of a claim, a withdrawal, `NoMatchedInputs` or `NoMatchedSignature`.
pub proof fn lemma_dispatch_is_total(tx: &TxView, recovered: Result<[u8; 20], i32>)
    ensures
        tx.args@.len() != ARGS_SIZE ==> classification(tx, recovered) == Err::<Mode, Error>(
            Error::InvalidArgument,
        ) && verdict(tx, recovered) == Err::<(), Error>(Error::InvalidArgument),
        tx.args@.len() == ARGS_SIZE ==> {
            ||| classification(tx, recovered) == Ok::<Mode, Error>(Mode::Claim)
            ||| classification(tx, recovered) == Ok::<Mode, Error>(Mode::Withdraw)
            ||| classification(tx, recovered) == Err::<Mode, Error>(Error::NoMatchedInputs)
            ||| classification(tx, recovered) == Err::<Mode, Error>(Error::NoMatchedSignature)
        },
{
}

/// A spend classified as a claim is accepted exactly when every group input
/// carries since 0, the sender's input capacity plus the cheque's input
/// capacity equals the sender's output capacity without overflowing a
/// `u64`, and, when the cheque's own witness holds no signature, the
/// receiver authorizes through an input of its own.
pub proof fn lemma_claim_accepted_iff_conserving(tx: &TxView, recovered: Result<[u8; 20], i32>)
    requires
        classification(tx, recovered) == Ok::<Mode, Error>(Mode::Claim),
    ensures
        verdict(tx, recovered) is Ok <==> {
            let (si, so, ci) = claim_capacities(tx, sender_of(tx.args@));
            &&& forall|k: int|
                0 <= k < group_inputs_since(tx).len() ==> #[trigger] group_inputs_since(tx)[k] == 0
            &&& si + ci == so
            &&& so <= u64::MAX
            &&& cheque_witness_is_none(tx) ==> input_authorization(
                tx,
                receiver_of(tx.args@),
            ) is Ok
        },
{
    let (si, so, ci) = claim_capacities(tx, sender_of(tx.args@));
    assert(0 <= si && 0 <= ci) by {
        crate::helper::lemma_capacity_sum_nonnegative(
            crate::helper::cells(tx, crate::helper::Source::Input),
            sender_of(tx.args@),
        );
        crate::helper::lemma_capacity_sum_nonnegative(
            crate::helper::cells(tx, crate::helper::Source::Input),
            crate::hash::blake160(tx.script@),
        );
    }
}

/// A spend classified as a withdrawal is accepted only when every group
/// input carries exactly `CHEQUE_CELL_SINCE`; a single group input with any
/// other since value makes it fail with `WithdrawChequeInputSinceError`.
pub proof fn lemma_withdraw_needs_exact_since(tx: &TxView, recovered: Result<[u8; 20], i32>)
    requires
        classification(tx, recovered) == Ok::<Mode, Error>(Mode::Withdraw),
    ensures
        verdict(tx, recovered) is Ok ==> forall|k: int|
            0 <= k < group_inputs_since(tx).len() ==> #[trigger] group_inputs_since(tx)[k]
                == CHEQUE_CELL_SINCE,
        (exists|k: int|
            0 <= k < group_inputs_since(tx).len() && #[trigger] group_inputs_since(tx)[k]
                != CHEQUE_CELL_SINCE) ==> verdict(tx, recovered) == Err::<(), Error>(
            Error::WithdrawChequeInputSinceError,
        ),
{
}

} // verus!
