use vstd::prelude::*;

use crate::error::Error;
use crate::hash::{blake160, blake2b_160};
use crate::helper::{
    Source, TxView, check_input_authorization, group_inputs_since, input_authorization,
    load_group_inputs_since, side_capacity, sum_cells_capacity_of_lock_hash,
};
use crate::withdraw::{any_since_differs, some_since_differs};

verus! {

/// The capacity that the sender puts in, the sender takes out, and the
/// cheque cells put in.
pub open spec fn claim_capacities(tx: &TxView, sender: Seq<u8>) -> (int, int, int) {
    (
        side_capacity(tx, sender, Source::Input),
        side_capacity(tx, sender, Source::Output),
        side_capacity(tx, blake160(tx.script@), Source::Input),
    )
}

/// What the sender capacity check decides: `Encoding` when one of the sums,
/// or the sender's and cheque's inputs together, do not fit in a `u64`;
/// otherwise whether those inputs together equal the sender's outputs.
pub open spec fn capacity_outcome(tx: &TxView, sender: Seq<u8>) -> Result<bool, Error> {
    let (si, so, ci) = claim_capacities(tx, sender);
    if si > u64::MAX || so > u64::MAX || ci > u64::MAX || si + ci > u64::MAX {
        Err(Error::Encoding)
    } else {
        Ok(si + ci == so)
    }
}

/// What the claim rules decide: every group input must carry since 0; the
/// sender must get back exactly what it put in plus the cheque's capacity;
/// and when the cheque's own witness holds no signature, the receiver must
/// authorize through an input of its own.
pub open spec fn claim_outcome(
    tx: &TxView,
    sender: Seq<u8>,
    receiver: Seq<u8>,
    cheque_witness_is_none: bool,
) -> Result<(), Error> {
    if some_since_differs(group_inputs_since(tx), 0) {
        Err(Error::ClaimChequeInputSinceNotZero)
    } else {
        match capacity_outcome(tx, sender) {
            Err(e) => Err(e),
            Ok(false) => Err(Error::SenderCapacityNotSame),
            Ok(true) => if cheque_witness_is_none {
                input_authorization(tx, receiver)
            } else {
                Ok(())
            },
        }
    }
}

/// Validates a claim by the receiver `receiver_lock_hash` of a cheque sent
/// by `sender_lock_hash`.
pub fn validate(
    tx: &TxView,
    sender_lock_hash: &[u8; 20],
    receiver_lock_hash: &[u8; 20],
    cheque_witness_is_none: bool,
) -> (r: Result<(), Error>)
    ensures
        r == claim_outcome(tx, sender_lock_hash@, receiver_lock_hash@, cheque_witness_is_none),
{
    let cheque_lock_hash = blake2b_160(tx.script.as_slice());

    if check_cheque_inputs_since_not_zero(tx) {
        return Err(Error::ClaimChequeInputSinceNotZero);
    }

    match check_sender_cells_capacity_same(tx, sender_lock_hash, &cheque_lock_hash) {
        Err(e) => {
            return Err(e);
        },
        Ok(false) => {
            return Err(Error::SenderCapacityNotSame);
        },
        Ok(true) => {},
    }

    if cheque_witness_is_none {
        check_input_authorization(tx, receiver_lock_hash)
    } else {
        Ok(())
    }
}

/// Whether the sender's inputs and the cheque's inputs together hold as much
/// capacity as the sender's outputs.
fn check_sender_cells_capacity_same(
    tx: &TxView,
    sender_lock_hash: &[u8; 20],
    cheque_lock_hash: &[u8; 20],
) -> (r: Result<bool, Error>)
    requires
        cheque_lock_hash@ == blake160(tx.script@),
    ensures
        r == capacity_outcome(tx, sender_lock_hash@),
{
    let sum_sender_inputs_capacity = match sum_cells_capacity_of_lock_hash(
        tx,
        sender_lock_hash,
        Source::Input,
    ) {
        Ok(c) => c,
        Err(e) => {
            return Err(e);
        },
    };
    let sum_sender_outputs_capacity = match sum_cells_capacity_of_lock_hash(
        tx,
        sender_lock_hash,
        Source::Output,
    ) {
        Ok(c) => c,
        Err(e) => {
            return Err(e);
        },
    };
    let sum_cheque_inputs_capacity = match sum_cells_capacity_of_lock_hash(
        tx,
        cheque_lock_hash,
        Source::Input,
    ) {
        Ok(c) => c,
        Err(e) => {
            return Err(e);
        },
    };

    match sum_sender_inputs_capacity.checked_add(sum_cheque_inputs_capacity) {
        Some(sum_inputs_capacity) => Ok(sum_inputs_capacity == sum_sender_outputs_capacity),
        None => Err(Error::Encoding),
    }
}

/// Whether some group input carries a since value other than 0.
fn check_cheque_inputs_since_not_zero(tx: &TxView) -> (r: bool)
    ensures
        r == some_since_differs(group_inputs_since(tx), 0),
{
    let cheque_inputs_since = load_group_inputs_since(tx);
    any_since_differs(&cheque_inputs_since, 0)
}

} // verus!
