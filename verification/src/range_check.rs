//! Range check: a value decomposes into N bytes that recompose to it, so
//! any value satisfying the constraint lies below 256^N.

use vstd::prelude::*;
use crate::word::{bytes_val, pow256, pow256_u128, u128_to_le_bytes, le_bytes_to_u128,
    lemma_bytes_val_bound, lemma_pow256_values, lemma_pow256_pos};
use vstd::arithmetic::div_mod::lemma_small_mod;

verus! {

/// The constraint the gadget declares: the witness bytes recompose to the
/// checked value.
pub open spec fn range_check_constraint(parts: Seq<u8>, value: nat) -> bool {
    bytes_val(parts) == value
}

/// Requires that the passed in value is within the range of `n_bytes` bytes,
/// by allocating byte witnesses that must recompose to it.
pub struct RangeCheckGadget {
    pub parts: Vec<u8>,
}

impl RangeCheckGadget {
    /// Allocates `n_bytes` byte cells holding the little-endian bytes of
    /// `value`. An over-wide value is silently truncated in memory; the
    /// recomposition constraint is then unsatisfiable, which is what makes
    /// the range check sound.
    pub fn construct(value: u128, n_bytes: usize) -> (r: Self)
        requires
            1 <= n_bytes <= 16,
        ensures
            r.parts@.len() == n_bytes,
            bytes_val(r.parts@) == (value as nat) % pow256(n_bytes as nat),
            (value as nat) < pow256(n_bytes as nat) ==> range_check_constraint(
                r.parts@,
                value as nat,
            ),
    {
        let truncated: u128 = if n_bytes == 16 {
            proof {
                lemma_pow256_values();
                lemma_small_mod(value as nat, pow256(16));
            }
            value
        } else {
            let p = pow256_u128(n_bytes);
            proof {
                lemma_pow256_pos(n_bytes as nat);
                if (value as nat) < pow256(n_bytes as nat) {
                    lemma_small_mod(value as nat, pow256(n_bytes as nat));
                }
            }
            value % p
        };
        let parts = u128_to_le_bytes(truncated, n_bytes);
        RangeCheckGadget { parts }
    }

    /// Evaluates the recomposition constraint against a concrete value, as
    /// the proof system would at proving time.
    pub fn check(&self, value: u128) -> (ok: bool)
        requires
            self.parts@.len() <= 16,
        ensures
            ok == range_check_constraint(self.parts@, value as nat),
    {
        let n = self.parts.len();
        let r = le_bytes_to_u128(&self.parts, 0, n);
        proof {
            assert(self.parts@.subrange(0, n as int) =~= self.parts@);
        }
        r == value
    }

    /// The value the witness bytes recompose to.
    pub fn recompose(&self) -> (r: u128)
        requires
            self.parts@.len() <= 16,
        ensures
            r as nat == bytes_val(self.parts@),
    {
        let n = self.parts.len();
        let r = le_bytes_to_u128(&self.parts, 0, n);
        proof {
            assert(self.parts@.subrange(0, n as int) =~= self.parts@);
        }
        r
    }
}

/// Soundness of the range check: whatever byte witnesses are supplied, the
/// constrained value lies below 256^N, so no witness exists for a wider one.
pub proof fn lemma_range_check_sound(parts: Seq<u8>, value: nat)
    requires
        range_check_constraint(parts, value),
    ensures
        value < pow256(parts.len()),
{
    lemma_bytes_val_bound(parts);
}

} // verus!
