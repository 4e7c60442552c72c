//! Verified arithmetic gadgets for a zero-knowledge proof of virtual-machine
//! execution: exact 256-bit multiply-add, comparison, min/max and range
//! membership over witness-supplied words, and the chunk-continuity
//! bookkeeping that lets independently proved trace chunks compose.
//!
//! A gadget lives in two phases. A construction phase declares equality
//! constraints over fresh witness cells inside a host constraint system,
//! and an assignment phase later binds concrete values to those cells for
//! one row. The host constraint system is an outside collaborator of this
//! library, so here the declared constraint set of each gadget is an
//! immutable spec predicate over its witness values
//! (`range_check_constraint`, `comparison_constraint`,
//! `mul_add_words_constraint`, `EndBlockGadget::constraints_hold`), and the
//! gadget's constructor plays the assignment phase: it computes the witness
//! values from the operands and its contract ties them to the predicate.
//! Soundness lemmas then quantify over every possible witness assignment:
//! whatever bytes a prover supplies, the constraints are satisfiable only
//! for the intended relation, and `check` functions evaluate a constraint
//! set against concrete witnesses exactly as the proof system would at
//! proving time.
//!
//! Words are canonically 32 little-endian bytes; limb splitting, byte
//! recomposition and their algebra live in `word`.

mod word;
mod range_check;
mod comparison;
mod min_max;
mod cmp_words;
mod mul_add_words;
mod end_block;
mod chunk;
mod permutation;

pub use word::bytes_val;
pub use word::pow256;
pub use word::pow256_u128;
pub use word::le_bytes_to_u128;
pub use word::u128_to_le_bytes;
pub use word::lemma_bytes_val_bound;
pub use word::lemma_bytes_val_split;
pub use word::lemma_bytes_val_push;
pub use word::lemma_pow256_values;
pub use word::Word;
pub use range_check::RangeCheckGadget;
pub use range_check::range_check_constraint;
pub use range_check::lemma_range_check_sound;
pub use comparison::ComparisonGadget;
pub use comparison::comparison_constraint;
pub use comparison::lemma_comparison_sound;
pub use min_max::MinMaxGadget;
pub use cmp_words::CmpWordsGadget;
pub use cmp_words::cmp_words_constraint;
pub use cmp_words::lemma_cmp_words_sound;
pub use mul_add_words::MulAddWordsGadget;
pub use mul_add_words::mul_add_words_constraint;
pub use mul_add_words::t0;
pub use mul_add_words::t1;
pub use mul_add_words::t2;
pub use mul_add_words::t3;
pub use mul_add_words::overflow_terms;
pub use mul_add_words::carry_lo_val;
pub use mul_add_words::carry_hi_val;
pub use mul_add_words::lemma_mul_add_words_sound;
pub use end_block::Transaction;
pub use end_block::CircuitsParams;
pub use end_block::RwRow;
pub use end_block::RwMap;
pub use end_block::Block;
pub use end_block::EndBlockGadget;
pub use end_block::check_step_transition;
pub use end_block::tx_padding_lookup;
pub use end_block::rw_start_lookup;
pub use end_block::lemma_end_block_empty_requires_zero_txs;
pub use end_block::lemma_end_block_padding_slot;
pub use chunk::RWCounter;
pub use chunk::Chunk;
pub use chunk::ChunkContext;
pub use chunk::chunks_continuous;
pub use chunk::check_chunks_continuous;
pub use chunk::lemma_continuous_chunks_ordered;
pub use permutation::NEXT_INPUTS_BYTES;
pub use permutation::NextInput;
pub use permutation::PermutationInputs;
pub use permutation::padded_block;
pub use permutation::input_chunk;
pub use permutation::block_count;
pub use permutation::zero_bytes;
