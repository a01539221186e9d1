use vstd::prelude::*;

use crate::error::Error;
use crate::helper::{
    TxView, check_input_authorization, group_inputs_since, input_authorization,
    load_group_inputs_since,
};

verus! {

/// The since value that every cheque input must carry when the sender
/// withdraws: a relative lock of six epochs.
pub const CHEQUE_CELL_SINCE: u64 = 0xA000000000000006;

/// Some value of `s` differs from `v`.
pub open spec fn some_since_differs(s: Seq<u64>, v: u64) -> bool {
    exists|k: int| 0 <= k < s.len() && #[trigger] s[k] != v
}

/// Finds whether some value of `s` differs from `v`.
pub fn any_since_differs(s: &Vec<u64>, v: u64) -> (r: bool)
    ensures
        r == some_since_differs(s@, v),
{
    let mut i: usize = 0;
    while i < s.len()
        invariant
            i <= s@.len(),
            forall|k: int| 0 <= k < i ==> #[trigger] s@[k] == v,
        decreases s@.len() - i,
    {
        if s[i] != v {
            return true;
        }
        i = i + 1;
    }
    false
}

/// What the withdraw rules decide: every group input must carry exactly
/// `CHEQUE_CELL_SINCE`; and when the cheque's own witness holds no
/// signature, the sender must authorize through an input of its own.
pub open spec fn withdraw_outcome(tx: &TxView, sender: Seq<u8>, cheque_witness_is_none: bool) -> Result<(), Error> {
    if some_since_differs(group_inputs_since(tx), CHEQUE_CELL_SINCE) {
        Err(Error::WithdrawChequeInputSinceError)
    } else if cheque_witness_is_none {
        input_authorization(tx, sender)
    } else {
        Ok(())
    }
}

/// Validates a withdrawal by the sender `sender_lock_hash`.
pub fn validate(tx: &TxView, sender_lock_hash: &[u8; 20], cheque_witness_is_none: bool) -> (r:
    Result<(), Error>)
    ensures
        r == withdraw_outcome(tx, sender_lock_hash@, cheque_witness_is_none),
{
    let cheque_inputs_since = load_group_inputs_since(tx);
    if any_since_differs(&cheque_inputs_since, CHEQUE_CELL_SINCE) {
        return Err(Error::WithdrawChequeInputSinceError);
    }
    if cheque_witness_is_none {
        check_input_authorization(tx, sender_lock_hash)
    } else {
        Ok(())
    }
}

} // verus!
