//! Min/max selection of two N-byte scalars: one comparison gadget plus the
//! algebraic select `cond*x + (1-cond)*y`.

use vstd::prelude::*;
use crate::comparison::{ComparisonGadget, comparison_constraint};
use crate::word::pow256;

verus! {

/// Returns `rhs` when `lhs < rhs`, and returns `lhs` otherwise, together
/// with the selected minimum. Both operands must fit in `n_bytes` bytes.
pub struct MinMaxGadget {
    pub lt: ComparisonGadget,
    pub min: u128,
    pub max: u128,
}

impl MinMaxGadget {
    /// Builds the comparison witness and selects
    /// `max = select(lt, rhs, lhs)`, `min = select(lt, lhs, rhs)`.
    ///
    /// For every input pair, `{min, max}` is `{lhs, rhs}` as a set,
    /// `min <= max`, and a tie keeps `min = lhs`, `max = rhs`.
    pub fn construct(lhs: u128, rhs: u128, n_bytes: usize) -> (r: Self)
        requires
            1 <= n_bytes <= 16,
            (lhs as nat) < pow256(n_bytes as nat),
            (rhs as nat) < pow256(n_bytes as nat),
        ensures
            comparison_constraint(lhs as nat, rhs as nat, n_bytes as nat, r.lt),
            r.min == (if lhs < rhs {
                lhs
            } else {
                rhs
            }),
            r.max == (if lhs < rhs {
                rhs
            } else {
                lhs
            }),
            r.min <= r.max,
            (r.min == lhs && r.max == rhs) || (r.min == rhs && r.max == lhs),
            lhs == rhs ==> r.min == lhs && r.max == rhs,
    {
        let cmp = ComparisonGadget::construct(lhs, rhs, n_bytes);
        let (min, max) = if cmp.lt {
            (lhs, rhs)
        } else {
            (rhs, lhs)
        };
        MinMaxGadget { lt: cmp, min, max }
    }

    pub fn min(&self) -> (r: u128)
        ensures
            r == self.min,
    {
        self.min
    }

    pub fn max(&self) -> (r: u128)
        ensures
            r == self.max,
    {
        self.max
    }
}

} // verus!
