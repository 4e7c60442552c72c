//! End-of-block consistency: the declared transaction count must match the
//! trace, unused transaction slots must be padding, the read/write table
//! must account for its reserved first entry, and padding rows propagate
//! the counters unchanged.

use vstd::prelude::*;
use crate::word::Word;

verus! {

/// One slot of the transaction table. Slots past the live transactions are
/// padding, recognizable by a zero caller address.
pub struct Transaction {
    pub id: u64,
    pub caller_address: Word,
}

/// Fixed capacities the surrounding circuit was built with.
#[derive(Clone, Copy, Debug)]
pub struct CircuitsParams {
    pub max_txs: u64,
    pub max_rws: u64,
}

/// One row of the read/write table.
pub struct RwRow {
    /// marks the reserved first entry of the table
    pub is_start: bool,
    /// the global read/write counter of this row
    pub counter: u64,
}

/// The read/write rows of one chunk.
pub struct RwMap {
    pub rows: Vec<RwRow>,
}

/// The witness block whose final step the end-of-block check closes.
pub struct Block {
    pub txs: Vec<Transaction>,
    pub circuits_params: CircuitsParams,
}

/// A lookup into the transaction table: some slot carries this id with a
/// zero caller address, i.e. it is a padding slot.
pub open spec fn tx_padding_lookup(txs: Seq<Transaction>, id: int) -> bool {
    exists|i: int| 0 <= i < txs.len() && (#[trigger] txs[i]).id == id && txs[i].caller_address.value() == 0
}

/// A lookup into the read/write table: its reserved start marker sits at
/// counter position 1.
pub open spec fn rw_start_lookup(rows: Seq<RwRow>) -> bool {
    exists|i: int| 0 <= i < rows.len() && (#[trigger] rows[i]).is_start && rows[i].counter == 1
}

/// Closes one block: witnesses for the transaction count, the capacity
/// equality, and the emptiness of the chunk's trace portion.
pub struct EndBlockGadget {
    pub total_txs: u64,
    pub total_txs_is_max_txs: bool,
    pub is_empty_block: bool,
    pub max_txs: u64,
    pub max_rws: u64,
}

impl EndBlockGadget {
    /// Computes the end-of-block witnesses for the final step of a chunk
    /// whose counter stands at `step_rwc`. The counter starts at 1, so the
    /// chunk recorded no event exactly when `step_rwc == 1`.
    pub fn assign_exec_step(block: &Block, step_rwc: u64) -> (r: Self)
        requires
            step_rwc >= 1,
            block.txs@.len() <= u64::MAX,
        ensures
            r.total_txs == block.txs@.len(),
            r.max_txs == block.circuits_params.max_txs,
            r.max_rws == block.circuits_params.max_rws,
            r.is_empty_block == (step_rwc == 1),
            r.total_txs_is_max_txs == (block.txs@.len() == block.circuits_params.max_txs),
    {
        let total_txs = block.txs.len() as u64;
        let max_txs = block.circuits_params.max_txs;
        let max_rws = block.circuits_params.max_rws;
        // zero test on `rw_counter - 1`
        let is_empty_block = step_rwc - 1 == 0;
        let total_txs_is_max_txs = total_txs == max_txs;
        EndBlockGadget { total_txs, total_txs_is_max_txs, is_empty_block, max_txs, max_rws }
    }

    /// The constraints declared at the end of a block:
    /// - an empty trace portion forces a declared count of zero;
    /// - a non-empty one forces the count to equal the transaction id
    ///   recorded at the final step;
    /// - a count below capacity forces the next transaction slot to be a
    ///   zero-caller padding slot;
    /// - the read/write table accounts for its start marker at position 1.
    pub open spec fn constraints_hold(
        self,
        txs: Seq<Transaction>,
        rws: Seq<RwRow>,
        final_step_tx_id: u64,
    ) -> bool {
        &&& (self.is_empty_block ==> self.total_txs == 0)
        &&& (!self.is_empty_block ==> self.total_txs == final_step_tx_id)
        &&& (!self.total_txs_is_max_txs ==> tx_padding_lookup(txs, self.total_txs + 1))
        &&& rw_start_lookup(rws)
    }

    /// Evaluates the declared constraints against the witness tables, as
    /// the proof system would at proving time.
    pub fn check(&self, txs: &Vec<Transaction>, rws: &RwMap, final_step_tx_id: u64) -> (ok: bool)
        requires
            self.total_txs < u64::MAX,
        ensures
            ok == self.constraints_hold(txs@, rws.rows@, final_step_tx_id),
    {
        let count_ok = if self.is_empty_block {
            self.total_txs == 0
        } else {
            self.total_txs == final_step_tx_id
        };
        let padding_ok = if self.total_txs_is_max_txs {
            true
        } else {
            lookup_tx_padding(txs, self.total_txs + 1)
        };
        let start_ok = lookup_rw_start(rws);
        count_ok && padding_ok && start_ok
    }
}

/// Searches the transaction table for a padding slot carrying `id`.
fn lookup_tx_padding(txs: &Vec<Transaction>, id: u64) -> (found: bool)
    ensures
        found == tx_padding_lookup(txs@, id as int),
{
    let n = txs.len();
    let mut i: usize = 0;
    while i < n
        invariant
            i <= n,
            n == txs@.len(),
            forall|j: int|
                0 <= j < i ==> !((#[trigger] txs@[j]).id == id && txs@[j].caller_address.value()
                    == 0),
        decreases n - i,
    {
        if txs[i].id == id && is_zero_word(&txs[i].caller_address) {
            return true;
        }
        i = i + 1;
    }
    false
}

/// Tests whether a word denotes zero, byte by byte.
fn is_zero_word(w: &Word) -> (r: bool)
    ensures
        r == (w.value() == 0),
{
    let n = w.bytes.len();
    let mut i: usize = 0;
    while i < n
        invariant
            i <= n,
            n == w.bytes@.len(),
            forall|j: int| 0 <= j < i ==> w.bytes@[j] == 0,
        decreases n - i,
    {
        if w.bytes[i] != 0 {
            proof {
                lemma_nonzero_byte(w.bytes@, i as int);
            }
            return false;
        }
        i = i + 1;
    }
    proof {
        lemma_all_zero(w.bytes@);
    }
    true
}

/// A byte string with a nonzero byte denotes a nonzero value.
proof fn lemma_nonzero_byte(s: Seq<u8>, i: int)
    requires
        0 <= i < s.len(),
        s[i] != 0,
    ensures
        crate::word::bytes_val(s) != 0,
    decreases i,
{
    if i == 0 {
    } else {
        lemma_nonzero_byte(s.skip(1), i - 1);
    }
}

/// A byte string of zeros denotes zero.
proof fn lemma_all_zero(s: Seq<u8>)
    requires
        forall|j: int| 0 <= j < s.len() ==> s[j] == 0,
    ensures
        crate::word::bytes_val(s) == 0,
    decreases s.len(),
{
    if s.len() > 0 {
        lemma_all_zero(s.skip(1));
    }
}

/// Searches the read/write table for the start marker at position 1.
fn lookup_rw_start(rws: &RwMap) -> (found: bool)
    ensures
        found == rw_start_lookup(rws.rows@),
{
    let n = rws.rows.len();
    let mut i: usize = 0;
    while i < n
        invariant
            i <= n,
            n == rws.rows@.len(),
            forall|j: int|
                0 <= j < i ==> !((#[trigger] rws.rows@[j]).is_start && rws.rows@[j].counter == 1),
        decreases n - i,
    {
        if rws.rows[i].is_start && rws.rows[i].counter == 1 {
            return true;
        }
        i = i + 1;
    }
    false
}

/// On every row of a chunk but the last, the counter and the active call
/// id must reach the next row unchanged, so padding rows after the real
/// trace cannot disturb what the chunk-join logic consumes.
pub fn check_step_transition(
    curr_rwc: u64,
    curr_call_id: u64,
    next_rwc: u64,
    next_call_id: u64,
    is_last_step: bool,
) -> (ok: bool)
    ensures
        ok == (is_last_step || (next_rwc == curr_rwc && next_call_id == curr_call_id)),
{
    is_last_step || (next_rwc == curr_rwc && next_call_id == curr_call_id)
}

/// For a chunk whose trace portion is empty, the end-of-block constraints
/// allow only a declared transaction count of zero.
pub proof fn lemma_end_block_empty_requires_zero_txs(
    g: EndBlockGadget,
    txs: Seq<Transaction>,
    rws: Seq<RwRow>,
    final_step_tx_id: u64,
)
    requires
        g.is_empty_block,
        g.constraints_hold(txs, rws, final_step_tx_id),
    ensures
        g.total_txs == 0,
{
}

/// Whenever fewer transactions are declared than the capacity, the
/// constraints force the next transaction slot to be zero-caller padding,
/// so no live transaction was silently dropped from the count.
pub proof fn lemma_end_block_padding_slot(
    g: EndBlockGadget,
    txs: Seq<Transaction>,
    rws: Seq<RwRow>,
    final_step_tx_id: u64,
)
    requires
        !g.total_txs_is_max_txs,
        g.constraints_hold(txs, rws, final_step_tx_id),
    ensures
        tx_padding_lookup(txs, g.total_txs + 1),
{
}

} // verus!
