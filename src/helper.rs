use vstd::prelude::*;

use ckb_std::ckb_types::prelude::Entity;

use crate::error::Error;
use crate::hash::{blake160, blake2b_160, bytes_eq};

verus! {

/// A cell as the lock sees it: its capacity and its serialized lock script.
pub struct Cell {
    pub capacity: u64,
    pub lock: Vec<u8>,
}

/// A transaction input: the cell it consumes and its since value.
pub struct Input {
    pub cell: Cell,
    pub since: u64,
}

/// Which side of the transaction a query looks at.
#[derive(Clone, Copy, Debug, PartialEq, Eq, Structural)]
pub enum Source {
    Input,
    Output,
}

/// The transaction under validation, together with the lock script that is
/// running. Witness `i` belongs to input `i`; a witness past the end of
/// `witnesses` cannot be loaded.
pub struct TxView {
    pub tx_hash: [u8; 32],
    pub script: Vec<u8>,
    pub args: Vec<u8>,
    pub inputs: Vec<Input>,
    pub outputs: Vec<Cell>,
    pub witnesses: Vec<Vec<u8>>,
}

/// The lock field of a witness parsed as a `WitnessArgs`: `None` when the
/// bytes are not a well-formed `WitnessArgs`, else the content of its lock
/// field if that field is set.
pub uninterp spec fn witness_lock_field(w: Seq<u8>) -> Option<Option<Seq<u8>>>;

/// Relies on `WitnessArgs::from_slice` and `WitnessArgs::lock` of ckb-std's
/// `ckb_types`: the bytes are verified strictly as a `WitnessArgs` and the raw
/// content of its lock field is returned if it is set.
#[verifier::external_body]
pub(crate) fn parse_witness_lock(w: &[u8]) -> (r: Option<Option<Vec<u8>>>)
    ensures
        r.deep_view() == witness_lock_field(w@),
{
    match ckb_std::ckb_types::packed::WitnessArgs::from_slice(w) {
        Ok(args) => Some(args.lock().to_opt().map(|b| b.raw_data().to_vec())),
        Err(_) => None,
    }
}

/// The cells on one side of the transaction.
pub open spec fn cells(tx: &TxView, source: Source) -> Seq<Cell> {
    match source {
        Source::Input => tx.inputs@.map_values(|i: Input| i.cell),
        Source::Output => tx.outputs@,
    }
}

/// Whether a cell's lock script has the identity `h`.
pub open spec fn cell_has_lock_hash(c: Cell, h: Seq<u8>) -> bool {
    blake160(c.lock@) == h
}

/// Whether input `i` is locked by a script with identity `h`.
pub open spec fn input_has_lock_hash(tx: &TxView, i: int, h: Seq<u8>) -> bool {
    cell_has_lock_hash(tx.inputs@[i].cell, h)
}

/// Whether some input is locked by a script with identity `h`.
pub open spec fn has_input_with(tx: &TxView, h: Seq<u8>) -> bool {
    exists|i: int| 0 <= i < tx.inputs@.len() && #[trigger] input_has_lock_hash(tx, i, h)
}

/// Whether `p` is the first input locked by a script with identity `h`.
pub open spec fn is_first_input_with(tx: &TxView, p: int, h: Seq<u8>) -> bool {
    &&& 0 <= p < tx.inputs@.len()
    &&& input_has_lock_hash(tx, p, h)
    &&& forall|j: int| 0 <= j < p ==> !#[trigger] input_has_lock_hash(tx, j, h)
}

/// The total capacity of the cells of `s` whose lock has identity `h`, as an
/// unbounded integer.
pub open spec fn capacity_sum(s: Seq<Cell>, h: Seq<u8>) -> int
    decreases s.len(),
{
    if s.len() == 0 {
        0
    } else {
        capacity_sum(s.drop_last(), h) + if cell_has_lock_hash(s.last(), h) {
            s.last().capacity as int
        } else {
            0
        }
    }
}

/// The total capacity on one side of the transaction held by identity `h`.
pub open spec fn side_capacity(tx: &TxView, h: Seq<u8>, source: Source) -> int {
    capacity_sum(cells(tx, source), h)
}

/// Whether input `i` belongs to the group of the running script.
pub open spec fn in_group(tx: &TxView, i: int) -> bool {
    tx.inputs@[i].cell.lock@ == tx.script@
}

/// The since values of the inputs of `s` locked by `script`, in order.
pub open spec fn group_since(s: Seq<Input>, script: Seq<u8>) -> Seq<u64>
    decreases s.len(),
{
    if s.len() == 0 {
        seq![]
    } else if s.last().cell.lock@ == script {
        group_since(s.drop_last(), script).push(s.last().since)
    } else {
        group_since(s.drop_last(), script)
    }
}

/// The since values of the running script's group inputs.
pub open spec fn group_inputs_since(tx: &TxView) -> Seq<u64> {
    group_since(tx.inputs@, tx.script@)
}

/// Whether the witness at input position `p` can be loaded and has its lock
/// field set.
pub open spec fn witness_has_lock(tx: &TxView, p: int) -> bool {
    &&& 0 <= p < tx.witnesses@.len()
    &&& witness_lock_field(tx.witnesses@[p]@) matches Some(Some(_))
}

/// Whether `p` is the first input of the running script's group.
pub open spec fn is_first_group_input(tx: &TxView, p: int) -> bool {
    &&& 0 <= p < tx.inputs@.len()
    &&& in_group(tx, p)
    &&& forall|j: int| 0 <= j < p ==> !#[trigger] in_group(tx, j)
}

/// Only one input is the first of the running script's group.
pub proof fn lemma_first_group_input_unique(tx: &TxView, p: int, q: int)
    requires
        is_first_group_input(tx, p),
        is_first_group_input(tx, q),
    ensures
        p == q,
{
    if p < q {
        assert(in_group(tx, p));
    } else if q < p {
        assert(in_group(tx, q));
    }
}

/// Whether the running script's own witness (that of its first group input)
/// carries no lock field: it cannot be loaded, or does not parse, or its lock
/// field is unset.
pub open spec fn cheque_witness_is_none(tx: &TxView) -> bool {
    forall|p: int| #[trigger]
        is_first_group_input(tx, p) ==> !witness_has_lock(tx, p)
}

/// Whether some input is locked by a script with identity `lock_hash`.
pub fn has_input_by_lock_hash(tx: &TxView, lock_hash: &[u8; 20]) -> (r: bool)
    ensures
        r == has_input_with(tx, lock_hash@),
{
    match position_input_by_lock_hash(tx, lock_hash) {
        Some(_) => true,
        None => false,
    }
}

/// The position of the first input locked by a script with identity
/// `lock_hash`.
pub fn position_input_by_lock_hash(tx: &TxView, lock_hash: &[u8; 20]) -> (r: Option<usize>)
    ensures
        match r {
            Some(p) => is_first_input_with(tx, p as int, lock_hash@),
            None => !has_input_with(tx, lock_hash@),
        },
{
    let mut i: usize = 0;
    while i < tx.inputs.len()
        invariant
            i <= tx.inputs@.len(),
            forall|j: int| 0 <= j < i ==> !#[trigger] input_has_lock_hash(tx, j, lock_hash@),
        decreases tx.inputs@.len() - i,
    {
        let h = blake2b_160(tx.inputs[i].cell.lock.as_slice());
        if bytes_eq(h.as_slice(), lock_hash.as_slice()) {
            return Some(i);
        }
        i = i + 1;
    }
    None
}

/// The since values of the running script's group inputs, in input order.
pub fn load_group_inputs_since(tx: &TxView) -> (r: Vec<u64>)
    ensures
        r@ == group_inputs_since(tx),
{
    let mut r: Vec<u64> = Vec::new();
    let mut i: usize = 0;
    while i < tx.inputs.len()
        invariant
            i <= tx.inputs@.len(),
            r@ == group_since(tx.inputs@.subrange(0, i as int), tx.script@),
        decreases tx.inputs@.len() - i,
    {
        let input = &tx.inputs[i];
        assert(tx.inputs@.subrange(0, i + 1).drop_last() =~= tx.inputs@.subrange(0, i as int));
        if bytes_eq(input.cell.lock.as_slice(), tx.script.as_slice()) {
            r.push(input.since);
        }
        i = i + 1;
    }
    assert(tx.inputs@.subrange(0, i as int) =~= tx.inputs@);
    r
}

/// The position of the running script's first group input.
pub fn position_first_group_input(tx: &TxView) -> (r: Option<usize>)
    ensures
        match r {
            Some(p) => is_first_group_input(tx, p as int),
            None => forall|j: int| 0 <= j < tx.inputs@.len() ==> !#[trigger] in_group(tx, j),
        },
{
    let mut i: usize = 0;
    while i < tx.inputs.len()
        invariant
            i <= tx.inputs@.len(),
            forall|j: int| 0 <= j < i ==> !#[trigger] in_group(tx, j),
        decreases tx.inputs@.len() - i,
    {
        if bytes_eq(tx.inputs[i].cell.lock.as_slice(), tx.script.as_slice()) {
            return Some(i);
        }
        i = i + 1;
    }
    None
}

/// Whether the witness at input position `position` can be loaded and has
/// its lock field set.
pub fn witness_lock_is_set(tx: &TxView, position: usize) -> (r: bool)
    ensures
        r == witness_has_lock(tx, position as int),
{
    if position >= tx.witnesses.len() {
        return false;
    }
    match parse_witness_lock(tx.witnesses[position].as_slice()) {
        Some(Some(_)) => true,
        _ => false,
    }
}

/// Succeeds when the witness at input position `position` can be loaded and
/// has its lock field set; fails with `WitnessSignatureWrong` otherwise.
pub fn check_witness_args(tx: &TxView, position: usize) -> (r: Result<(), Error>)
    ensures
        witness_has_lock(tx, position as int) ==> r == Ok::<(), Error>(()),
        !witness_has_lock(tx, position as int) ==> r == Err::<(), Error>(Error::WitnessSignatureWrong),
{
    if witness_lock_is_set(tx, position) {
        Ok(())
    } else {
        Err(Error::WitnessSignatureWrong)
    }
}

/// A prefix of a sequence of cells holds no more capacity than the whole.
proof fn lemma_capacity_sum_prefix(s: Seq<Cell>, h: Seq<u8>, i: int)
    requires
        0 <= i <= s.len(),
    ensures
        capacity_sum(s.subrange(0, i), h) <= capacity_sum(s, h),
    decreases s.len(),
{
    if i < s.len() {
        lemma_capacity_sum_prefix(s.drop_last(), h, i);
        assert(s.drop_last().subrange(0, i) =~= s.subrange(0, i));
    } else {
        assert(s.subrange(0, i) =~= s);
    }
}

/// `c1 + c2`, or `Encoding` when the sum does not fit in a `u64`.
fn add_capacity(c1: u64, c2: u64) -> (r: Result<u64, Error>)
    ensures
        c1 + c2 <= u64::MAX ==> r == Ok::<u64, Error>((c1 + c2) as u64),
        c1 + c2 > u64::MAX ==> r == Err::<u64, Error>(Error::Encoding),
{
    match c1.checked_add(c2) {
        Some(sum) => Ok(sum),
        None => Err(Error::Encoding),
    }
}

/// The total capacity of the cells on side `source` whose lock has identity
/// `lock_hash`; `Encoding` when that total does not fit in a `u64`.
pub fn sum_cells_capacity_of_lock_hash(tx: &TxView, lock_hash: &[u8; 20], source: Source) -> (r:
    Result<u64, Error>)
    ensures
        match r {
            Ok(c) => c == side_capacity(tx, lock_hash@, source),
            Err(e) => e == Error::Encoding && side_capacity(tx, lock_hash@, source) > u64::MAX,
        },
{
    let n = match source {
        Source::Input => tx.inputs.len(),
        Source::Output => tx.outputs.len(),
    };
    let ghost s = cells(tx, source);
    let mut sum: u64 = 0;
    let mut i: usize = 0;
    while i < n
        invariant
            n == s.len(),
            s == cells(tx, source),
            i <= n,
            sum == capacity_sum(s.subrange(0, i as int), lock_hash@),
        decreases n - i,
    {
        let cell = match source {
            Source::Input => &tx.inputs[i].cell,
            Source::Output => &tx.outputs[i],
        };
        assert(*cell == s[i as int]);
        assert(s.subrange(0, i + 1).drop_last() =~= s.subrange(0, i as int));
        let h = blake2b_160(cell.lock.as_slice());
        if bytes_eq(h.as_slice(), lock_hash.as_slice()) {
            match add_capacity(sum, cell.capacity) {
                Ok(next) => {
                    sum = next;
                },
                Err(e) => {
                    proof {
                        lemma_capacity_sum_prefix(s, lock_hash@, i + 1);
                    }
                    return Err(e);
                },
            }
        }
        i = i + 1;
    }
    assert(s.subrange(0, i as int) =~= s);
    Ok(sum)
}

/// The first input with identity `h` can be loaded with a witness whose lock
/// field is set.
pub open spec fn first_input_witness_has_lock(tx: &TxView, h: Seq<u8>) -> bool {
    exists|p: int| #[trigger] is_first_input_with(tx, p, h) && witness_has_lock(tx, p)
}

/// The outcome of confirming that identity `h` authorizes the spend through
/// an input of its own: that input must exist, and its witness must carry a
/// lock field.
pub open spec fn input_authorization(tx: &TxView, h: Seq<u8>) -> Result<(), Error> {
    if !has_input_with(tx, h) {
        Err(Error::NoMatchedInputs)
    } else if first_input_witness_has_lock(tx, h) {
        Ok(())
    } else {
        Err(Error::WitnessSignatureWrong)
    }
}

/// Only one input is the first with a given identity.
pub proof fn lemma_first_input_unique(tx: &TxView, p: int, q: int, h: Seq<u8>)
    requires
        is_first_input_with(tx, p, h),
        is_first_input_with(tx, q, h),
    ensures
        p == q,
{
}

/// Confirms that identity `lock_hash` authorizes the spend through an input
/// of its own.
pub fn check_input_authorization(tx: &TxView, lock_hash: &[u8; 20]) -> (r: Result<(), Error>)
    ensures
        r == input_authorization(tx, lock_hash@),
{
    match position_input_by_lock_hash(tx, lock_hash) {
        Some(position) => {
            proof {
                assert forall|q: int| #[trigger]
                    is_first_input_with(tx, q, lock_hash@) implies q == position by {
                    lemma_first_input_unique(tx, q, position as int, lock_hash@);
                }
            }
            check_witness_args(tx, position)
        },
        None => Err(Error::NoMatchedInputs),
    }
}

/// Capacities are never negative.
pub proof fn lemma_capacity_sum_nonnegative(s: Seq<Cell>, h: Seq<u8>)
    ensures
        capacity_sum(s, h) >= 0,
    decreases s.len(),
{
    if s.len() > 0 {
        lemma_capacity_sum_nonnegative(s.drop_last(), h);
    }
}

} // verus!
