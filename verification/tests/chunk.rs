use zkevm_gadgets::check_chunks_continuous;
use zkevm_gadgets::check_step_transition;
use zkevm_gadgets::Block;
use zkevm_gadgets::ChunkContext;
use zkevm_gadgets::CircuitsParams;
use zkevm_gadgets::EndBlockGadget;
use zkevm_gadgets::RwMap;
use zkevm_gadgets::RwRow;
use zkevm_gadgets::Transaction;
use zkevm_gadgets::Word;

#[test]
fn new_context_starts_at_one() {
    let ctx = ChunkContext::new(2, 5);
    assert_eq!(ctx.rwc.0, 1);
    assert_eq!(ctx.chunk_index, 2);
    assert_eq!(ctx.total_chunks, 5);
    assert_eq!(ctx.initial_rwc, 1);
    assert_eq!(ctx.end_rwc, 0);
}

#[test]
fn one_chunk_context_is_first_and_last() {
    let ctx = ChunkContext::new_one_chunk();
    assert!(ctx.is_first_chunk());
    assert!(ctx.is_last_chunk());
    assert_eq!(ctx.initial_rwc, 1);
}

#[test]
fn default_context_is_one_chunk() {
    let ctx = ChunkContext::default();
    assert_eq!(ctx.chunk_index, 0);
    assert_eq!(ctx.total_chunks, 1);
    assert_eq!(ctx.rwc.0, 1);
}

#[test]
fn first_and_last_of_many_chunks() {
    let first = ChunkContext::new(0, 3);
    let middle = ChunkContext::new(1, 3);
    let last = ChunkContext::new(2, 3);
    assert!(first.is_first_chunk());
    assert!(!first.is_last_chunk());
    assert!(!middle.is_first_chunk());
    assert!(!middle.is_last_chunk());
    assert!(!last.is_first_chunk());
    assert!(last.is_last_chunk());
}

fn chained_context(index: usize, total: usize, initial: usize, end: usize) -> ChunkContext {
    let mut ctx = ChunkContext::new(index, total);
    ctx.initial_rwc = initial;
    ctx.end_rwc = end;
    ctx
}

#[test]
fn continuous_chunks_accepted() {
    let ctxs = vec![
        chained_context(0, 3, 1, 40),
        chained_context(1, 3, 41, 90),
        chained_context(2, 3, 91, 120),
    ];
    assert!(check_chunks_continuous(&ctxs));
}

#[test]
fn gap_between_chunks_rejected() {
    let ctxs = vec![chained_context(0, 2, 1, 40), chained_context(1, 2, 43, 90)];
    assert!(!check_chunks_continuous(&ctxs));
}

#[test]
fn overlapping_chunks_rejected() {
    let ctxs = vec![chained_context(0, 2, 1, 40), chained_context(1, 2, 40, 90)];
    assert!(!check_chunks_continuous(&ctxs));
}

fn block_with_txs(n: u64, max_txs: u64, max_rws: u64) -> Block {
    let mut txs = Vec::new();
    let mut id = 1u64;
    while id <= n {
        txs.push(Transaction { id, caller_address: Word::from_u64(0xca11e4) });
        id += 1;
    }
    Block { txs, circuits_params: CircuitsParams { max_txs, max_rws } }
}

fn rw_with_start() -> RwMap {
    RwMap {
        rows: vec![
            RwRow { is_start: true, counter: 1 },
            RwRow { is_start: false, counter: 2 },
        ],
    }
}

// The transaction table holds the block's live transactions followed by
// padding slots up to the declared capacity.
fn tx_table_with_padding(block: &Block) -> Vec<Transaction> {
    let mut table: Vec<Transaction> = Vec::new();
    for tx in &block.txs {
        table.push(Transaction { id: tx.id, caller_address: tx.caller_address.clone() });
    }
    let mut id = block.txs.len() as u64 + 1;
    while id <= block.circuits_params.max_txs {
        table.push(Transaction { id, caller_address: Word::from_u64(0) });
        id += 1;
    }
    table
}

// A trace whose rows end exactly at the final step: one live transaction
// out of a capacity of two, closed at the recorded transaction id.
#[test]
fn end_block_exact() {
    let block = block_with_txs(1, 2, 100);
    let table = tx_table_with_padding(&block);
    let rws = rw_with_start();
    let gadget = EndBlockGadget::assign_exec_step(&block, 7);
    assert!(!gadget.is_empty_block);
    assert_eq!(gadget.total_txs, 1);
    assert!(!gadget.total_txs_is_max_txs);
    // the final step recorded transaction id 1
    assert!(gadget.check(&table, &rws, 1));
    // a mismatching recorded id is rejected
    assert!(!gadget.check(&table, &rws, 2));
}

// A fixed-size trace with padding rows after the real steps: every padding
// row must hand the counter and call id on unchanged.
#[test]
fn end_block_padding() {
    let block = block_with_txs(1, 2, 100);
    let table = tx_table_with_padding(&block);
    let rws = rw_with_start();
    let gadget = EndBlockGadget::assign_exec_step(&block, 7);
    assert!(gadget.check(&table, &rws, 1));
    // 50 padding rows propagate (rwc, call_id) untouched
    let mut row: u32 = 0;
    while row < 50 {
        assert!(check_step_transition(7, 3, 7, 3, false));
        row += 1;
    }
    // the last row may move on
    assert!(check_step_transition(7, 3, 8, 0, true));
    // a padding row that disturbs the counters is rejected
    assert!(!check_step_transition(7, 3, 8, 3, false));
    assert!(!check_step_transition(7, 3, 7, 4, false));
}

#[test]
fn empty_chunk_requires_zero_txs() {
    let block = block_with_txs(0, 2, 100);
    let table = tx_table_with_padding(&block);
    let rws = rw_with_start();
    // counter still at 1: no event was recorded
    let gadget = EndBlockGadget::assign_exec_step(&block, 1);
    assert!(gadget.is_empty_block);
    assert_eq!(gadget.total_txs, 0);
    assert!(gadget.check(&table, &rws, 0));
}

#[test]
fn empty_chunk_with_declared_txs_rejected() {
    let block = block_with_txs(2, 2, 100);
    let table = tx_table_with_padding(&block);
    let rws = rw_with_start();
    let gadget = EndBlockGadget::assign_exec_step(&block, 1);
    assert!(gadget.is_empty_block);
    // a nonzero declared count cannot close an empty chunk
    assert!(!gadget.check(&table, &rws, 2));
}

#[test]
fn missing_padding_slot_rejected() {
    // one transaction declared out of two, but slot 2 carries a live
    // caller: a transaction was silently dropped from the count
    let block = block_with_txs(1, 2, 100);
    let mut table = tx_table_with_padding(&block);
    table[1].caller_address = Word::from_u64(0xbeef);
    let rws = rw_with_start();
    let gadget = EndBlockGadget::assign_exec_step(&block, 7);
    assert!(!gadget.check(&table, &rws, 1));
}

#[test]
fn missing_rw_start_marker_rejected() {
    let block = block_with_txs(1, 1, 100);
    let table = tx_table_with_padding(&block);
    let rws = RwMap { rows: vec![RwRow { is_start: false, counter: 1 }] };
    let gadget = EndBlockGadget::assign_exec_step(&block, 7);
    assert!(!gadget.check(&table, &rws, 1));
}
