//! Permutation input scheduling: an input byte stream is cut into fixed
//! 136-byte blocks; a final partial block is closed with multi-rate
//! padding (0x80, zeros, 0x01 — fused to a single 0x81 when only one byte
//! is free), while full blocks pass through unchanged.

use vstd::prelude::*;
use vstd::slice::slice_subrange;
use vstd::arithmetic::div_mod::lemma_fundamental_div_mod_converse;

verus! {

/// Bytes per permutation input block.
pub const NEXT_INPUTS_BYTES: usize = 136;

/// A run of n zero bytes.
pub open spec fn zero_bytes(n: nat) -> Seq<u8> {
    Seq::new(n, |i: int| 0u8)
}

/// The block a chunk of at most 136 input bytes becomes: a full chunk
/// passes unchanged; a chunk one byte short gains the fused padding byte
/// 0x81; a shorter chunk gains 0x80, zeros, and a final 0x01.
pub open spec fn padded_block(chunk: Seq<u8>) -> Seq<u8>
    recommends
        chunk.len() <= NEXT_INPUTS_BYTES,
{
    if chunk.len() == NEXT_INPUTS_BYTES {
        chunk
    } else if chunk.len() == NEXT_INPUTS_BYTES - 1 {
        chunk.push(0x81)
    } else {
        chunk.push(0x80) + zero_bytes((NEXT_INPUTS_BYTES - chunk.len() - 2) as nat) + seq![1u8]
    }
}

/// The i-th 136-byte chunk of an input stream; the last one may be short.
pub open spec fn input_chunk(bytes: Seq<u8>, i: int) -> Seq<u8> {
    let start = NEXT_INPUTS_BYTES as int * i;
    let end = if start + NEXT_INPUTS_BYTES as int <= bytes.len() {
        start + NEXT_INPUTS_BYTES as int
    } else {
        bytes.len() as int
    };
    bytes.subrange(start, end)
}

/// How many blocks an input stream of the given length yields.
pub open spec fn block_count(len: nat) -> nat {
    (len + NEXT_INPUTS_BYTES - 1) as nat / NEXT_INPUTS_BYTES as nat
}

/// One permutation input block: the 136 byte lanes handed to the
/// permutation, and the number of original input bytes among them.
#[derive(Clone, Debug)]
pub struct NextInput {
    pub bytes: Vec<u8>,
    pub og_len: usize,
}

impl NextInput {
    /// A block always holds exactly 136 lanes, of which the first `og_len`
    /// came from the input.
    pub open spec fn wf(self) -> bool {
        &&& self.bytes@.len() == NEXT_INPUTS_BYTES
        &&& self.og_len <= NEXT_INPUTS_BYTES
    }

    pub fn new() -> (r: Self)
        ensures
            r.wf(),
            r.og_len == 0,
            r.bytes@ == zero_bytes(NEXT_INPUTS_BYTES as nat),
    {
        let mut bytes: Vec<u8> = Vec::new();
        let mut i: usize = 0;
        while i < NEXT_INPUTS_BYTES
            invariant
                i <= NEXT_INPUTS_BYTES,
                bytes@.len() == i,
                forall|j: int| 0 <= j < i ==> bytes@[j] == 0,
            decreases NEXT_INPUTS_BYTES - i,
        {
            bytes.push(0);
            i = i + 1;
        }
        let r = NextInput { bytes, og_len: 0 };
        proof {
            assert(r.bytes@ =~= zero_bytes(NEXT_INPUTS_BYTES as nat));
        }
        r
    }

    /// Expands `len` input bytes to a full block by appending zero lanes.
    pub fn with_og_len(bytes: &[u8], len: usize) -> (r: Self)
        requires
            bytes@.len() == len,
            len <= NEXT_INPUTS_BYTES,
        ensures
            r.wf(),
            r.og_len == len,
            r.bytes@ == bytes@ + zero_bytes((NEXT_INPUTS_BYTES - len) as nat),
    {
        let mut lanes: Vec<u8> = Vec::new();
        let mut i: usize = 0;
        while i < len
            invariant
                i <= len,
                bytes@.len() == len,
                lanes@ =~= bytes@.take(i as int),
            decreases len - i,
        {
            let b = bytes[i];
            lanes.push(b);
            proof {
                assert(lanes@ =~= bytes@.take(i + 1));
            }
            i = i + 1;
        }
        while i < NEXT_INPUTS_BYTES
            invariant
                len <= i <= NEXT_INPUTS_BYTES,
                bytes@.len() == len,
                lanes@.len() == i,
                lanes@.take(len as int) =~= bytes@,
                forall|j: int| len <= j < i ==> lanes@[j] == 0,
            decreases NEXT_INPUTS_BYTES - i,
        {
            lanes.push(0);
            i = i + 1;
        }
        let r = NextInput { bytes: lanes, og_len: len };
        proof {
            assert(r.bytes@ =~= bytes@ + zero_bytes((NEXT_INPUTS_BYTES - len) as nat));
        }
        r
    }

    /// Closes the block: a full block stays as it is; a block one byte
    /// short takes the fused padding byte; any other block takes 0x80
    /// after its input bytes and 0x01 in its last lane.
    pub fn pad(&mut self)
        requires
            old(self).wf(),
        ensures
            final(self).wf(),
            final(self).og_len == old(self).og_len,
            old(self).og_len == NEXT_INPUTS_BYTES ==> final(self).bytes@ == old(self).bytes@,
            old(self).og_len == NEXT_INPUTS_BYTES - 1 ==> final(self).bytes@ == old(
                self,
            ).bytes@.update(NEXT_INPUTS_BYTES - 1, 0x81u8),
            old(self).og_len < NEXT_INPUTS_BYTES - 1 ==> final(self).bytes@ == old(
                self,
            ).bytes@.update(old(self).og_len as int, 0x80u8).update(NEXT_INPUTS_BYTES - 1, 1u8),
    {
        match (self.og_len == NEXT_INPUTS_BYTES, self.og_len == NEXT_INPUTS_BYTES - 1) {
            (true, false) => (),
            (false, true) => {
                let last = self.bytes.len() - 1;
                self.bytes.set(last, 0x81);
            },
            (false, false) => {
                let og = self.og_len;
                self.bytes.set(og, 0x80);
                self.bytes.set(NEXT_INPUTS_BYTES - 1, 1);
            },
            (true, true) => {
                proof {
                    assert(false);
                }
            },
        }
    }

    /// Cuts one block off the front of the remaining input and closes it:
    /// at most 136 bytes are consumed, expanded and padded.
    pub fn from_bytes(byte_slice: &[u8]) -> (r: Self)
        ensures
            r.wf(),
            r.og_len == if byte_slice@.len() < NEXT_INPUTS_BYTES {
                byte_slice@.len() as int
            } else {
                NEXT_INPUTS_BYTES as int
            },
            r.bytes@ == padded_block(byte_slice@.take(r.og_len as int)),
    {
        let len = if byte_slice.len() < NEXT_INPUTS_BYTES {
            byte_slice.len()
        } else {
            NEXT_INPUTS_BYTES
        };
        let prefix = slice_subrange(byte_slice, 0, len);
        let ghost chunk = byte_slice@.take(len as int);
        proof {
            assert(prefix@ =~= chunk);
        }
        let mut next_inp = Self::with_og_len(prefix, len);
        next_inp.pad();
        proof {
            if len == NEXT_INPUTS_BYTES {
                assert(next_inp.bytes@ =~= padded_block(chunk));
            } else if len == NEXT_INPUTS_BYTES - 1 {
                assert(next_inp.bytes@ =~= chunk.push(0x81u8));
            } else {
                assert(next_inp.bytes@ =~= chunk.push(0x80u8) + zero_bytes(
                    (NEXT_INPUTS_BYTES - len - 2) as nat,
                ) + seq![1u8]);
            }
        }
        next_inp
    }
}

/// The full schedule of permutation input blocks for one byte stream.
#[derive(Clone, Debug)]
pub struct PermutationInputs(pub Vec<NextInput>);

impl PermutationInputs {
    pub fn new() -> (r: Self)
        ensures
            r.0@.len() == 0,
    {
        PermutationInputs(Vec::new())
    }

    /// Cuts the whole input stream into closed blocks, in order: every
    /// block carries its 136-byte chunk of the stream, the last one padded.
    pub fn from_bytes(bytes: &[u8]) -> (r: Self)
        ensures
            r.0@.len() == block_count(bytes@.len()),
            forall|i: int|
                0 <= i < r.0@.len() ==> {
                    &&& (#[trigger] r.0@[i]).wf()
                    &&& r.0@[i].og_len == input_chunk(bytes@, i).len()
                    &&& r.0@[i].bytes@ == padded_block(input_chunk(bytes@, i))
                },
    {
        let mut perm_inputs = Self::new();
        let total = bytes.len();
        let mut start: usize = 0;
        while start < total
            invariant
                total == bytes@.len(),
                start <= total,
                start == NEXT_INPUTS_BYTES * perm_inputs.0@.len() || (start == total
                    && perm_inputs.0@.len() >= 1 && NEXT_INPUTS_BYTES * (perm_inputs.0@.len() - 1)
                    < total && total < NEXT_INPUTS_BYTES * perm_inputs.0@.len()),
                forall|i: int|
                    0 <= i < perm_inputs.0@.len() ==> {
                        &&& (#[trigger] perm_inputs.0@[i]).wf()
                        &&& perm_inputs.0@[i].og_len == input_chunk(bytes@, i).len()
                        &&& perm_inputs.0@[i].bytes@ == padded_block(input_chunk(bytes@, i))
                    },
            decreases total - start,
        {
            let remaining = total - start;
            let len = if remaining < NEXT_INPUTS_BYTES {
                remaining
            } else {
                NEXT_INPUTS_BYTES
            };
            let chunk_slice = slice_subrange(bytes, start, start + len);
            let ni = NextInput::from_bytes(chunk_slice);
            let ghost k = perm_inputs.0@.len() as int;
            proof {
                assert(chunk_slice@.take(len as int) =~= chunk_slice@);
                assert(chunk_slice@ =~= input_chunk(bytes@, k));
            }
            perm_inputs.0.push(ni);
            start = start + len;
        }
        proof {
            let len_n = bytes@.len();
            let count = perm_inputs.0@.len();
            if total == 0 {
                assert(block_count(0) == 0) by {
                    assert((0 + NEXT_INPUTS_BYTES - 1) as nat / NEXT_INPUTS_BYTES as nat == 0);
                }
            } else if start == NEXT_INPUTS_BYTES * count {
                // the stream is an exact multiple of the block size
                lemma_fundamental_div_mod_converse(
                    (len_n + NEXT_INPUTS_BYTES - 1) as int,
                    NEXT_INPUTS_BYTES as int,
                    count as int,
                    (NEXT_INPUTS_BYTES - 1) as int,
                );
            } else {
                // the final block was short
                lemma_fundamental_div_mod_converse(
                    (len_n + NEXT_INPUTS_BYTES - 1) as int,
                    NEXT_INPUTS_BYTES as int,
                    count as int,
                    (len_n + NEXT_INPUTS_BYTES - 1 - NEXT_INPUTS_BYTES * count) as int,
                );
            }
        }
        perm_inputs
    }
}

} // verus!
