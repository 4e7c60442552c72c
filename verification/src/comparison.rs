//! Comparison of two N-byte unsigned integers through a borrow
//! decomposition: `diff = lhs - rhs + 256^N` is range-checked into N+1
//! bytes, whose top byte is 1 exactly when `lhs >= rhs`.

use vstd::prelude::*;
use crate::range_check::RangeCheckGadget;
use crate::word::{bytes_val, pow256, pow256_u128, u128_to_le_bytes, lemma_bytes_val_bound,
    lemma_bytes_val_split, lemma_bytes_val_push, lemma_pow256_values, lemma_pow256_pos, lemma_pow256_increases};

verus! {

/// The constraints the gadget declares over its witnesses: the offset
/// difference recomposes from N+1 bytes, `lt` is the complement of the top
/// byte, and `eq` is the zero test on `diff - 256^N`.
pub open spec fn comparison_constraint(
    lhs: nat,
    rhs: nat,
    n_bytes: nat,
    g: ComparisonGadget,
) -> bool {
    let parts = g.range_check.parts@;
    &&& parts.len() == n_bytes + 1
    &&& bytes_val(parts) + rhs == lhs + pow256(n_bytes)
    &&& g.lt == (parts[n_bytes as int] == 0)
    &&& g.eq == (bytes_val(parts) == pow256(n_bytes))
}

/// Exposes `lt` and `eq` for two N-byte operands, witnessed by the byte
/// decomposition of `lhs - rhs + 256^N`.
pub struct ComparisonGadget {
    pub range_check: RangeCheckGadget,
    pub lt: bool,
    pub eq: bool,
}

impl ComparisonGadget {
    pub fn construct(lhs: u128, rhs: u128, n_bytes: usize) -> (r: Self)
        requires
            1 <= n_bytes <= 16,
            (lhs as nat) < pow256(n_bytes as nat),
            (rhs as nat) < pow256(n_bytes as nat),
        ensures
            comparison_constraint(lhs as nat, rhs as nat, n_bytes as nat, r),
            r.lt == (lhs < rhs),
            r.eq == (lhs == rhs),
    {
        proof {
            lemma_pow256_values();
        }
        let lt = lhs < rhs;
        let eq = lhs == rhs;
        let mut parts: Vec<u8>;
        if n_bytes == 16 {
            // 256^16 does not fit a u128: handle the borrow explicitly.
            if lhs >= rhs {
                parts = u128_to_le_bytes(lhs - rhs, 16);
                let ghost low = parts@;
                parts.push(1);
                proof {
                    lemma_bytes_val_push(low, 1);
                }
            } else {
                // 2^128 - (rhs - lhs), which fits because rhs > lhs
                let low_val = (u128::MAX - (rhs - lhs)) + 1;
                parts = u128_to_le_bytes(low_val, 16);
                let ghost low = parts@;
                parts.push(0);
                proof {
                    lemma_bytes_val_push(low, 0);
                }
            }
        } else {
            let p = pow256_u128(n_bytes);
            proof {
                lemma_pow256_pos(n_bytes as nat);
                lemma_pow256_increases(n_bytes as nat, 15);
                assert((n_bytes + 1) as nat == n_bytes as nat + 1);
                assert(pow256((n_bytes + 1) as nat) == 256 * pow256(n_bytes as nat));
            }
            let diff = lhs + p - rhs;
            parts = u128_to_le_bytes(diff, n_bytes + 1);
        }
        let r = ComparisonGadget { range_check: RangeCheckGadget { parts }, lt, eq };
        proof {
            lemma_comparison_top_byte(lhs as nat, rhs as nat, n_bytes as nat, r.range_check.parts@);
        }
        r
    }

    /// The boolean pair `(lt, eq)` the surrounding constraints consume.
    pub fn expr(&self) -> (r: (bool, bool))
        ensures
            r.0 == self.lt,
            r.1 == self.eq,
    {
        (self.lt, self.eq)
    }
}

/// The top byte of the borrow decomposition is 0 exactly when `lhs < rhs`.
proof fn lemma_comparison_top_byte(lhs: nat, rhs: nat, n_bytes: nat, parts: Seq<u8>)
    requires
        lhs < pow256(n_bytes),
        rhs < pow256(n_bytes),
        parts.len() == n_bytes + 1,
        bytes_val(parts) + rhs == lhs + pow256(n_bytes),
    ensures
        (parts[n_bytes as int] == 0) == (lhs < rhs),
{
    let p = pow256(n_bytes);
    let top = parts[n_bytes as int];
    lemma_bytes_val_split(parts, n_bytes);
    assert(parts.skip(n_bytes as int) =~= seq![top]);
    assert(bytes_val(seq![top]) == top as nat + 256 * bytes_val(seq![top].skip(1)));
    assert(seq![top].skip(1).len() == 0);
    let low = bytes_val(parts.take(n_bytes as int));
    lemma_bytes_val_bound(parts.take(n_bytes as int));
    assert(bytes_val(parts) == low + p * (top as nat));
    if lhs < rhs {
        // diff < p, so the top byte cannot be positive
        assert(bytes_val(parts) < p);
        if top != 0 {
            assert(p * (top as nat) >= p * 1) by (nonlinear_arith)
                requires
                    top as nat >= 1,
                    p >= 0,
            ;
            assert(false);
        }
    } else {
        // diff >= p, so the top byte cannot be zero
        assert(bytes_val(parts) >= p);
        if top == 0 {
            assert(p * (top as nat) == 0) by (nonlinear_arith)
                requires
                    top as nat == 0,
            ;
            assert(false);
        }
    }
}

/// Soundness of the comparison: any witnesses satisfying the declared
/// constraints decide `lt` and `eq` correctly, `lt` and `eq` never hold
/// together, and exactly one of `lt`, `eq`, and the derived
/// `gt = !lt && !eq` holds.
pub proof fn lemma_comparison_sound(lhs: nat, rhs: nat, n_bytes: nat, g: ComparisonGadget)
    requires
        lhs < pow256(n_bytes),
        rhs < pow256(n_bytes),
        comparison_constraint(lhs, rhs, n_bytes, g),
    ensures
        g.lt == (lhs < rhs),
        g.eq == (lhs == rhs),
        !(g.lt && g.eq),
{
    lemma_comparison_top_byte(lhs, rhs, n_bytes, g.range_check.parts@);
}

} // verus!
